use ascii_video::errors::VideoError;
use ascii_video::extractor::VideoExtractor;
use ascii_video::parse::{
    all_digits_bytes, parse_duration_ms_bytes, parse_u32_bytes, parse_u64_bytes,
    split_commas_bytes, trim_bytes,
};

fn extractor() -> VideoExtractor {
    VideoExtractor::new("clip.mp4".to_string(), false)
}

#[test]
fn new_extractor_knows_nothing_yet() {
    let e = extractor();
    assert_eq!(e.dimensions(), None);
    assert_eq!(e.frame_count(), None);
    assert_eq!(e.duration(), None);
    assert!(!e.ascii_invert);
    assert_eq!(e.audio_volume, 500);
}

#[test]
fn load_metadata_reads_a_full_probe_line() {
    let mut e = extractor();
    e.load_metadata(&b"1920,1080,250,10.427000\n".to_vec());
    assert_eq!(e.dimensions(), Some((1920, 1080)));
    assert_eq!(e.frame_count(), Some(250));
    assert_eq!(e.duration(), Some(10427));
}

#[test]
fn load_metadata_tolerates_missing_fields() {
    let mut e = extractor();
    e.load_metadata(&b"640,480\n".to_vec());
    assert_eq!(e.dimensions(), Some((640, 480)));
    assert_eq!(e.frame_count(), None);
    assert_eq!(e.duration(), None);
}

#[test]
fn load_metadata_leaves_unreadable_fields_unknown() {
    let mut e = extractor();
    e.load_metadata(&b"1920,abc,x,1.5\n".to_vec());
    assert_eq!(e.dimensions(), None); // height unreadable
    assert_eq!(e.frame_count(), None);
    assert_eq!(e.duration(), Some(1500));
    let mut single = extractor();
    single.load_metadata(&b"garbage".to_vec());
    assert_eq!(single.dimensions(), None);
}

#[test]
fn duration_parsing_handles_fraction_widths() {
    assert_eq!(parse_duration_ms_bytes(b"10.427000"), Some(10427));
    assert_eq!(parse_duration_ms_bytes(b"10.4"), Some(10400));
    assert_eq!(parse_duration_ms_bytes(b"10.42"), Some(10420));
    assert_eq!(parse_duration_ms_bytes(b"10"), Some(10000));
    assert_eq!(parse_duration_ms_bytes(b"10."), Some(10000));
    assert_eq!(parse_duration_ms_bytes(b"x.5"), None);
    assert_eq!(parse_duration_ms_bytes(b"1.5x"), None);
    assert_eq!(parse_duration_ms_bytes(b""), None);
}

#[test]
fn number_parsing_is_exact_and_bounded() {
    assert_eq!(parse_u64_bytes(b"0"), Some(0));
    assert_eq!(parse_u64_bytes(b"18446744073709551615"), Some(u64::MAX));
    assert_eq!(parse_u64_bytes(b"18446744073709551616"), None);
    assert_eq!(parse_u64_bytes(b""), None);
    assert_eq!(parse_u64_bytes(b"12a"), None);
    assert_eq!(parse_u32_bytes(b"4294967295"), Some(u32::MAX));
    assert_eq!(parse_u32_bytes(b"4294967296"), None);
    assert!(all_digits_bytes(b"0123456789"));
    assert!(!all_digits_bytes(b"12 3"));
}

#[test]
fn trim_and_split_shape_the_probe_line() {
    assert_eq!(trim_bytes(b"  a,b \r\n"), b"a,b".to_vec());
    assert_eq!(trim_bytes(b"   \n"), Vec::<u8>::new());
    let parts = split_commas_bytes(b"a,,bc");
    assert_eq!(parts.len(), 3);
    assert_eq!(parts[0], b"a".to_vec());
    assert_eq!(parts[1], Vec::<u8>::new());
    assert_eq!(parts[2], b"bc".to_vec());
    assert_eq!(split_commas_bytes(b"").len(), 1);
}

#[test]
fn pixel_to_ascii_maps_extremes_and_inverts() {
    let mut e = extractor();
    assert_eq!(e.pixel_to_ascii(0, 0, 0), ' ');
    assert_eq!(e.pixel_to_ascii(255, 255, 255), '@');
    e.configure_ascii(4, 4, true);
    assert_eq!(e.pixel_to_ascii(0, 0, 0), '@');
    assert_eq!(e.pixel_to_ascii(255, 255, 255), ' ');
}

#[test]
fn image_to_ascii_requires_configuration() {
    let e = extractor();
    let pixels = vec![0u8; 12];
    match e.image_to_ascii(&pixels, 2, 2) {
        Err(VideoError::InvalidInput(_)) => {},
        other => panic!("expected a configuration error, got {:?}", other),
    }
}

#[test]
fn image_to_ascii_renders_the_grid() {
    let mut e = extractor();
    e.configure_ascii(2, 2, false);
    let black = vec![0u8; 12];
    assert_eq!(e.image_to_ascii(&black, 2, 2).unwrap(), "  \n  \n");
    let white = vec![255u8; 12];
    assert_eq!(e.image_to_ascii(&white, 2, 2).unwrap(), "@@\n@@\n");
    // a larger source is resampled onto the grid
    let big = vec![255u8; 8 * 8 * 3];
    assert_eq!(e.image_to_ascii(&big, 8, 8).unwrap(), "@@\n@@\n");
    let mut inv = extractor();
    inv.configure_ascii(2, 2, true);
    assert_eq!(inv.image_to_ascii(&black, 2, 2).unwrap(), "@@\n@@\n");
}

#[test]
fn errors_classify_fatality() {
    assert!(VideoError::ResourceNotFound("x".to_string()).is_fatal());
    assert!(VideoError::DecodingError("x".to_string()).is_fatal());
    assert!(VideoError::FormatError("x".to_string()).is_fatal());
    assert!(VideoError::InvalidInput("x".to_string()).is_fatal());
    assert!(!VideoError::EndOfStream.is_fatal());
    assert!(!VideoError::IoError("x".to_string()).is_fatal());
    assert!(!VideoError::ExternalToolError("x".to_string()).is_fatal());
    assert!(!VideoError::AudioError("x".to_string()).is_fatal());
    assert_eq!(VideoError::EndOfStream.kind_name(), "end of stream");
    assert_eq!(VideoError::AudioError("x".to_string()).kind_name(), "audio error");
}
