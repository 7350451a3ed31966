use recodeck_audio::range::parse_range;

#[test]
fn full_and_open_ranges() {
    assert_eq!(parse_range("bytes=0-99", 1000), Some((0, 100)));
    assert_eq!(parse_range("bytes=500-", 1000), Some((500, 1000)));
    assert_eq!(parse_range("  Bytes= 10 - 19 ", 1000), Some((10, 20)));
    assert_eq!(parse_range("BYTES=+5-+6", 1000), Some((5, 7)));
}

#[test]
fn end_is_cut_to_the_body() {
    assert_eq!(parse_range("bytes=900-5000", 1000), Some((900, 1000)));
    assert_eq!(parse_range("bytes=0-18446744073709551615", 10), Some((0, 10)));
}

#[test]
fn unsatisfiable_and_malformed_ranges() {
    assert_eq!(parse_range("bytes=1000-", 1000), None);
    assert_eq!(parse_range("bytes=5-3", 1000), None);
    assert_eq!(parse_range("bytes=-500", 1000), None);
    assert_eq!(parse_range("items=0-1", 1000), None);
    assert_eq!(parse_range("bytes=a-1", 1000), None);
    assert_eq!(parse_range("bytes=0-x", 1000), None);
    assert_eq!(parse_range("bytes=", 1000), None);
    assert_eq!(parse_range("", 1000), None);
    assert_eq!(parse_range("bytes=99999999999999999999999-", 1000), None);
}

#[test]
fn extra_fields_are_ignored() {
    assert_eq!(parse_range("bytes=1-2-3", 1000), Some((1, 3)));
    assert_eq!(parse_range("bytes=1", 1000), Some((1, 1000)));
}
