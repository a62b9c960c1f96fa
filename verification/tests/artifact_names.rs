use stream_carver::artifact::{
    artifact_file_name, format_offset_decimal, injection_fits, mappable_in_one_view,
    parse_artifact_offset,
};

#[test]
fn offsets_format_as_plain_decimal() {
    assert_eq!(format_offset_decimal(0), b"0".to_vec());
    assert_eq!(format_offset_decimal(7), b"7".to_vec());
    assert_eq!(format_offset_decimal(12345), b"12345".to_vec());
    assert_eq!(
        format_offset_decimal(u64::MAX),
        b"18446744073709551615".to_vec()
    );
}

#[test]
fn artifact_names_join_offset_and_extension() {
    assert_eq!(artifact_file_name(144, b"wav"), b"144.wav".to_vec());
    assert_eq!(artifact_file_name(0, b"ogg"), b"0.ogg".to_vec());
}

#[test]
fn leading_digits_parse_back() {
    assert_eq!(parse_artifact_offset(b"12345"), Some(12345));
    assert_eq!(parse_artifact_offset(b"0"), Some(0));
    assert_eq!(parse_artifact_offset(b"00042"), Some(42));
    // size and extension after the offset are advisory
    assert_eq!(parse_artifact_offset(b"123_456"), Some(123));
}

#[test]
fn formatted_offsets_round_trip() {
    for &x in &[0u64, 1, 9, 10, 144, 65535, 1 << 40, u64::MAX] {
        let stem = format_offset_decimal(x);
        assert_eq!(parse_artifact_offset(&stem), Some(x));
    }
}

#[test]
fn non_numeric_stems_are_skipped() {
    assert_eq!(parse_artifact_offset(b""), None);
    assert_eq!(parse_artifact_offset(b"readme"), None);
    assert_eq!(parse_artifact_offset(b"-5"), None);
    assert_eq!(parse_artifact_offset(b"_12"), None);
}

#[test]
fn oversized_numbers_are_skipped() {
    assert_eq!(parse_artifact_offset(b"18446744073709551615"), Some(u64::MAX));
    assert_eq!(parse_artifact_offset(b"18446744073709551616"), None);
    assert_eq!(parse_artifact_offset(b"99999999999999999999999"), None);
}

#[test]
fn mapping_strategy_depends_on_pointer_width() {
    assert!(mappable_in_one_view(8, i64::MAX as u64, u64::MAX));
    assert!(mappable_in_one_view(4, i32::MAX as u64, 1000));
    assert!(!mappable_in_one_view(4, i32::MAX as u64, 1 << 40));
}

#[test]
fn injection_fits_checks_remaining_length_at_offset() {
    assert!(injection_fits(0, 10, 10));
    assert!(injection_fits(5, 5, 10));
    assert!(!injection_fits(6, 5, 10));
    assert!(!injection_fits(11, 0, 10));
    assert!(!injection_fits(u64::MAX, 1, u64::MAX));
    assert!(injection_fits(u64::MAX, 0, u64::MAX));
}
