use podcheck::range_header::{from_comma_delimited, parse_u64, ByteRangeSpec, Range};

#[test]
fn bytes_all_from() {
    assert_eq!(
        Range::from_str("bytes=1000-"),
        Ok(Range::Bytes(vec![ByteRangeSpec::AllFrom(1000)]))
    );
}

#[test]
fn bytes_last() {
    assert_eq!(
        Range::from_str("bytes=-2000"),
        Ok(Range::Bytes(vec![ByteRangeSpec::Last(2000)]))
    );
}

#[test]
fn bytes_two_ranges() {
    assert_eq!(
        Range::from_str("bytes=0-1,30-40"),
        Ok(Range::Bytes(vec![
            ByteRangeSpec::FromTo(0, 1),
            ByteRangeSpec::FromTo(30, 40)
        ]))
    );
}

#[test]
fn bytes_mixed_ranges() {
    assert_eq!(
        Range::from_str("bytes=0-10,20-90,-100"),
        Ok(Range::Bytes(vec![
            ByteRangeSpec::FromTo(0, 10),
            ByteRangeSpec::FromTo(20, 90),
            ByteRangeSpec::Last(100)
        ]))
    );
}

#[test]
fn unregistered_unit() {
    assert_eq!(
        Range::from_str("custom_unit=0-123"),
        Ok(Range::Unregistered("custom_unit".to_string(), "0-123".to_string()))
    );
    assert_eq!(
        Range::from_str("custom_unit=xxx-yyy"),
        Ok(Range::Unregistered("custom_unit".to_string(), "xxx-yyy".to_string()))
    );
}

#[test]
fn empty_byte_ranges_are_rejected() {
    assert_eq!(Range::from_str("bytes="), Err("No ranges found".to_string()));
    assert_eq!(Range::from_str("bytes=junk"), Err("No ranges found".to_string()));
}

#[test]
fn malformed_headers_are_rejected() {
    assert_eq!(Range::from_str("noequals"), Err("Invalid Range header".to_string()));
    assert_eq!(Range::from_str("=0-1"), Err("Invalid Range header".to_string()));
    assert_eq!(Range::from_str("unit="), Err("Invalid Range header".to_string()));
}

#[test]
fn byte_range_spec_parsing() {
    assert_eq!(ByteRangeSpec::from_str("1-100"), Ok(ByteRangeSpec::FromTo(1, 100)));
    assert_eq!(ByteRangeSpec::from_str("200-"), Ok(ByteRangeSpec::AllFrom(200)));
    assert_eq!(ByteRangeSpec::from_str("-512"), Ok(ByteRangeSpec::Last(512)));
}

#[test]
fn byte_range_spec_rejections() {
    assert_eq!(ByteRangeSpec::from_str("-"), Err("Invalid last byte position".to_string()));
    assert_eq!(ByteRangeSpec::from_str("x-"), Err("Invalid first byte position".to_string()));
    assert_eq!(ByteRangeSpec::from_str("5-2"), Err("Invalid byte range".to_string()));
    assert_eq!(ByteRangeSpec::from_str("abc"), Err("Invalid byte range".to_string()));
    assert_eq!(ByteRangeSpec::from_str(""), Err("Invalid byte range".to_string()));
}

#[test]
fn comma_list_skips_blank_and_bad_pieces() {
    assert_eq!(
        from_comma_delimited(" 0-1 , ,5- ,bad"),
        vec![ByteRangeSpec::FromTo(0, 1), ByteRangeSpec::AllFrom(5)]
    );
    assert_eq!(from_comma_delimited(""), vec![]);
}

#[test]
fn parse_u64_boundaries() {
    assert_eq!(parse_u64("0"), Some(0));
    assert_eq!(parse_u64("+42"), Some(42));
    assert_eq!(parse_u64("18446744073709551615"), Some(u64::MAX));
    assert_eq!(parse_u64("18446744073709551616"), None);
    assert_eq!(parse_u64(""), None);
    assert_eq!(parse_u64("+"), None);
    assert_eq!(parse_u64("1 2"), None);
}

#[test]
fn plus_signs_parse_as_in_standard_numerals() {
    assert_eq!(ByteRangeSpec::from_str("+5-+7"), Ok(ByteRangeSpec::FromTo(5, 7)));
}

#[test]
fn byte_range_spec_display() {
    assert_eq!(ByteRangeSpec::FromTo(1, 100).display(), "1-100");
    assert_eq!(ByteRangeSpec::AllFrom(200).display(), "200-");
    assert_eq!(ByteRangeSpec::Last(512).display(), "-512");
}
