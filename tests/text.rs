use corvus::parse_integer;

#[test]
fn integers_are_read_exactly() {
    assert_eq!(parse_integer("20"), Some(20));
    assert_eq!(parse_integer("-73"), Some(-73));
    assert_eq!(parse_integer("007"), Some(7));
    assert_eq!(parse_integer("999999999999999999"), Some(999_999_999_999_999_999));
    assert_eq!(parse_integer("1000000000000000000"), None);
    assert_eq!(parse_integer(""), None);
    assert_eq!(parse_integer("-"), None);
    assert_eq!(parse_integer("1.5"), None);
    assert_eq!(parse_integer(" 1"), None);
}
