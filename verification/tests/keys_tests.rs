use thumbnailer::keys::contains_char;
use thumbnailer::keys::str_eq;
use thumbnailer::keys::thumb_key;
use thumbnailer::keys::truncate;

#[test]
fn truncate_stops_at_first_delimiter() {
    assert_eq!(truncate("a.b.c", '.'), "a");
}

#[test]
fn truncate_without_delimiter_returns_all() {
    assert_eq!(truncate("noext", '.'), "noext");
}

#[test]
fn truncate_empty_is_empty() {
    assert_eq!(truncate("", '.'), "");
}

#[test]
fn truncate_keeps_multibyte_characters_whole() {
    assert_eq!(truncate("héllo.png", '.'), "héllo");
    assert_eq!(truncate("日本語.txt", '.'), "日本語");
    assert_eq!(truncate("snowman☃.jpg", '.'), "snowman☃");
}

#[test]
fn truncate_delimiter_first_gives_empty() {
    assert_eq!(truncate(".hidden", '.'), "");
}

#[test]
fn contains_char_finds_hyphen() {
    assert!(contains_char("photo-thumb.png", '-'));
    assert!(!contains_char("photo.jpg", '-'));
    assert!(!contains_char("", '-'));
}

#[test]
fn str_eq_compares_characters() {
    assert!(str_eq("img.png", "img.png"));
    assert!(!str_eq("img.png", "img.jpg"));
    assert!(!str_eq("img", "img.png"));
    assert!(str_eq("", ""));
}

#[test]
fn thumb_key_derives_destination() {
    assert_eq!(thumb_key("folder/pic.jpg"), "folder/pic-thumb.png");
}

#[test]
fn thumb_key_without_extension() {
    assert_eq!(thumb_key("picture"), "picture-thumb.png");
}
