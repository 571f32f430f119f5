use thumbnailer::config::load_size_spec;
use thumbnailer::config::SizeSpec;
use thumbnailer::errors::PipelineError;
use thumbnailer::pipeline::dispatch;
use thumbnailer::pipeline::handle_record;
use thumbnailer::pipeline::plan_record;
use thumbnailer::pipeline::EventRecord;
use thumbnailer::raster::resize_dims;
use thumbnailer::raster::resize_image;
use thumbnailer::store::Store;

fn png_bytes(width: u32, height: u32) -> Vec<u8> {
    let img = image::DynamicImage::new_rgb8(width, height);
    let mut cursor = std::io::Cursor::new(Vec::new());
    img.write_to(&mut cursor, image::ImageFormat::Png).unwrap();
    cursor.into_inner()
}

fn record(bucket: &str, region: &str, key: &str) -> EventRecord {
    EventRecord {
        region: Some(region.to_string()),
        bucket: Some(bucket.to_string()),
        key: Some(key.to_string()),
    }
}

#[test]
fn resize_dims_preserves_aspect_ratio() {
    assert_eq!(resize_dims(400, 200, 200), (200, 100));
    assert_eq!(resize_dims(3, 2, 2), (2, 1));
    assert_eq!(resize_dims(100, 100, 33), (33, 33));
}

#[test]
fn resize_dims_saturates() {
    assert_eq!(resize_dims(1, u32::MAX, u32::MAX), (u32::MAX, u32::MAX));
}

#[test]
fn resized_image_has_scaled_dimensions() {
    let config = SizeSpec { target_width: 200, target_height: 999 };
    let out = resize_image(&png_bytes(400, 200), &config).unwrap();
    let thumb = image::load_from_memory(&out).unwrap();
    assert_eq!(thumb.width(), 200);
    assert_eq!(thumb.height(), 100);
}

#[test]
fn resized_image_dimensions_are_exact_not_fit_within() {
    // 5x3 at target width 3: the output grid is exactly (3, floor(3*3/5)) =
    // (3, 1), not the fit-within rounding (2, 1).
    let config = SizeSpec { target_width: 3, target_height: 3 };
    let out = resize_image(&png_bytes(5, 3), &config).unwrap();
    let thumb = image::load_from_memory(&out).unwrap();
    assert_eq!(thumb.width(), 3);
    assert_eq!(thumb.height(), 1);
}

#[test]
fn resized_image_ignores_configured_height() {
    let tall = SizeSpec { target_width: 64, target_height: 999 };
    let flat = SizeSpec { target_width: 64, target_height: 1 };
    let data = png_bytes(128, 96);
    assert_eq!(resize_image(&data, &tall), resize_image(&data, &flat));
}

#[test]
fn resize_image_rejects_garbage() {
    let config = SizeSpec { target_width: 100, target_height: 100 };
    assert_eq!(
        resize_image(&[0u8, 1, 2, 3, 4], &config),
        Err(PipelineError::DecodeFailed)
    );
}

#[test]
fn plan_record_reports_missing_fields() {
    let mut rec = record("b", "us-east-1", "img.png");
    rec.bucket = None;
    assert_eq!(plan_record(&rec).unwrap_err(), PipelineError::MissingField);
    let mut rec = record("b", "us-east-1", "img.png");
    rec.region = None;
    assert_eq!(plan_record(&rec).unwrap_err(), PipelineError::MissingField);
    let mut rec = record("b", "us-east-1", "img.png");
    rec.key = None;
    assert_eq!(plan_record(&rec).unwrap_err(), PipelineError::MissingField);
}

#[test]
fn plan_record_skips_hyphenated_keys() {
    let rec = record("b", "us-east-1", "photo-thumb.png");
    assert!(plan_record(&rec).unwrap().is_none());
    let rec = record("b", "us-east-1", "photo.jpg");
    let obj = plan_record(&rec).unwrap().unwrap();
    assert_eq!(obj.bucket, "b");
    assert_eq!(obj.key, "photo.jpg");
    assert_eq!(obj.region, "us-east-1");
}

#[test]
fn hyphenated_key_is_skipped_without_any_storage_access() {
    // The store is empty: a fetch would fail, so the skip must come first.
    let config = SizeSpec { target_width: 100, target_height: 100 };
    let mut store = Store::new();
    let rec = record("b", "us-east-1", "photo-thumb.png");
    assert_eq!(handle_record(&config, &rec, &mut store), Ok(()));
    assert_eq!(store.objects.len(), 0);
}

#[test]
fn missing_object_is_a_fetch_failure() {
    let config = SizeSpec { target_width: 100, target_height: 100 };
    let mut store = Store::new();
    let rec = record("b", "us-east-1", "photo.jpg");
    assert_eq!(handle_record(&config, &rec, &mut store), Err(PipelineError::FetchFailed));
    assert_eq!(store.objects.len(), 0);
}

#[test]
fn undecodable_object_is_a_decode_failure() {
    let config = SizeSpec { target_width: 100, target_height: 100 };
    let mut store = Store::new();
    store.put(
        "b".to_string(),
        "junk.png".to_string(),
        vec![1u8, 2, 3],
        "image/png".to_string(),
    );
    let rec = record("b", "us-east-1", "junk.png");
    assert_eq!(handle_record(&config, &rec, &mut store), Err(PipelineError::DecodeFailed));
    assert_eq!(store.objects.len(), 1);
}

#[test]
fn store_returns_newest_object_under_a_key() {
    let mut store = Store::new();
    store.put("b".to_string(), "k".to_string(), vec![1u8], "t".to_string());
    store.put("b".to_string(), "k".to_string(), vec![2u8], "t".to_string());
    store.put("other".to_string(), "k".to_string(), vec![3u8], "t".to_string());
    assert_eq!(store.get("b", "k"), Some(&vec![2u8]));
    assert_eq!(store.get("other", "k"), Some(&vec![3u8]));
    assert_eq!(store.get("b", "absent"), None);
}

#[test]
fn batch_thumbnails_one_record_and_skips_its_own_output() {
    let config = load_size_spec("100x100").unwrap();
    let mut store = Store::new();
    store.put(
        "b".to_string(),
        "img.png".to_string(),
        png_bytes(200, 100),
        "image/png".to_string(),
    );
    let records = vec![
        record("b", "us-east-1", "img.png"),
        record("b", "us-east-1", "img-thumb.png"),
    ];
    assert_eq!(dispatch(&config, &records, &mut store), Ok(()));
    // One thumbnail was written; the second record was skipped entirely.
    assert_eq!(store.objects.len(), 2);
    let thumb = &store.objects[1];
    assert_eq!(thumb.bucket, "b");
    assert_eq!(thumb.key, "img-thumb.png");
    assert_eq!(thumb.content_type, "image/jpeg");
    let out = image::load_from_memory(&thumb.body).unwrap();
    assert_eq!(out.width(), 100);
    assert_eq!(out.height(), 50);
    assert_eq!(image::guess_format(&thumb.body).unwrap(), image::ImageFormat::Png);
}

#[test]
fn fetch_failure_on_first_record_halts_the_batch() {
    let config = load_size_spec("100x100").unwrap();
    let mut store = Store::new();
    store.put(
        "b".to_string(),
        "present.png".to_string(),
        png_bytes(40, 40),
        "image/png".to_string(),
    );
    let records = vec![
        record("b", "us-east-1", "missing.png"),
        record("b", "us-east-1", "present.png"),
    ];
    assert_eq!(dispatch(&config, &records, &mut store), Err(PipelineError::FetchFailed));
    // The second record was never processed: no thumbnail of present.png.
    assert_eq!(store.objects.len(), 1);
    assert_eq!(store.objects[0].key, "present.png");
}

#[test]
fn failure_in_a_later_record_keeps_earlier_thumbnails() {
    let config = load_size_spec("50x50").unwrap();
    let mut store = Store::new();
    store.put(
        "b".to_string(),
        "one.png".to_string(),
        png_bytes(100, 100),
        "image/png".to_string(),
    );
    store.put(
        "b".to_string(),
        "three.png".to_string(),
        png_bytes(100, 100),
        "image/png".to_string(),
    );
    let records = vec![
        record("b", "us-east-1", "one.png"),
        record("b", "us-east-1", "missing.png"),
        record("b", "us-east-1", "three.png"),
    ];
    assert_eq!(dispatch(&config, &records, &mut store), Err(PipelineError::FetchFailed));
    // The first record was processed, the third never reached.
    assert_eq!(store.objects.len(), 3);
    assert_eq!(store.objects[2].key, "one-thumb.png");
    assert!(store.get("b", "three-thumb.png").is_none());
}

#[test]
fn missing_field_halts_the_batch() {
    let config = load_size_spec("100x100").unwrap();
    let mut store = Store::new();
    store.put(
        "b".to_string(),
        "present.png".to_string(),
        png_bytes(40, 40),
        "image/png".to_string(),
    );
    let records = vec![
        EventRecord { region: None, bucket: Some("b".to_string()), key: Some("present.png".to_string()) },
        record("b", "us-east-1", "present.png"),
    ];
    assert_eq!(dispatch(&config, &records, &mut store), Err(PipelineError::MissingField));
    assert_eq!(store.objects.len(), 1);
}

#[test]
fn empty_batch_is_ok() {
    let config = SizeSpec { target_width: 10, target_height: 10 };
    let mut store = Store::new();
    assert_eq!(dispatch(&config, &Vec::new(), &mut store), Ok(()));
    assert_eq!(store.objects.len(), 0);
}

#[test]
fn describe_names_every_error() {
    for e in [
        PipelineError::ConfigInvalid,
        PipelineError::MissingField,
        PipelineError::FetchFailed,
        PipelineError::DecodeFailed,
        PipelineError::EncodeFailed,
        PipelineError::UploadFailed,
    ] {
        assert!(!e.describe().is_empty());
    }
}
