use thumbnailer::config::load_size_spec;
use thumbnailer::errors::PipelineError;

#[test]
fn parses_valid_size() {
    let spec = load_size_spec("200x150").unwrap();
    assert_eq!(spec.target_width, 200);
    assert_eq!(spec.target_height, 150);
}

#[test]
fn parses_smallest_size() {
    let spec = load_size_spec("1x1").unwrap();
    assert_eq!(spec.target_width, 1);
    assert_eq!(spec.target_height, 1);
}

#[test]
fn parses_leading_zeros() {
    let spec = load_size_spec("0010x0020").unwrap();
    assert_eq!(spec.target_width, 10);
    assert_eq!(spec.target_height, 20);
}

#[test]
fn floors_fractional_components() {
    let spec = load_size_spec("1.5x2").unwrap();
    assert_eq!(spec.target_width, 1);
    assert_eq!(spec.target_height, 2);
    let spec = load_size_spec("10.5x20").unwrap();
    assert_eq!(spec.target_width, 10);
    assert_eq!(spec.target_height, 20);
    let spec = load_size_spec("200x150.75").unwrap();
    assert_eq!(spec.target_width, 200);
    assert_eq!(spec.target_height, 150);
    let spec = load_size_spec("3.x4").unwrap();
    assert_eq!(spec.target_width, 3);
    assert_eq!(spec.target_height, 4);
}

#[test]
fn saturates_oversized_component() {
    let spec = load_size_spec("99999999999999999999x100").unwrap();
    assert_eq!(spec.target_width, u32::MAX);
    assert_eq!(spec.target_height, 100);
}

#[test]
fn rejects_malformed_sizes() {
    for bad in [
        "",
        "200",
        "200x",
        "x150",
        "axb",
        "10x20x30",
        "10xx20",
        "10 x 20",
        "-10x20",
        ".5x2",
        "1.5.5x2",
        "1,5x2",
    ] {
        assert_eq!(load_size_spec(bad).unwrap_err(), PipelineError::ConfigInvalid, "{bad}");
    }
}

#[test]
fn rejects_zero_components() {
    assert_eq!(load_size_spec("0x5").unwrap_err(), PipelineError::ConfigInvalid);
    assert_eq!(load_size_spec("5x0").unwrap_err(), PipelineError::ConfigInvalid);
    assert_eq!(load_size_spec("000x5").unwrap_err(), PipelineError::ConfigInvalid);
    assert_eq!(load_size_spec("0.9x5").unwrap_err(), PipelineError::ConfigInvalid);
}
