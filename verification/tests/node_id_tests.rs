use nexus_cli::node_id::{parse_node_id, resolve_node_id, NodeIdParseError};

#[test]
fn parses_plain_decimal() {
    assert_eq!(parse_node_id("123"), Ok(123));
    assert_eq!(parse_node_id("0"), Ok(0));
    assert_eq!(parse_node_id("007"), Ok(7));
}

#[test]
fn parses_leading_plus() {
    assert_eq!(parse_node_id("+7"), Ok(7));
}

#[test]
fn empty_text_is_refused() {
    assert_eq!(parse_node_id(""), Err(NodeIdParseError::Empty));
}

#[test]
fn lone_signs_and_minus_are_invalid_digits() {
    assert_eq!(parse_node_id("+"), Err(NodeIdParseError::InvalidDigit));
    assert_eq!(parse_node_id("-"), Err(NodeIdParseError::InvalidDigit));
    assert_eq!(parse_node_id("-5"), Err(NodeIdParseError::InvalidDigit));
    assert_eq!(parse_node_id("++5"), Err(NodeIdParseError::InvalidDigit));
}

#[test]
fn stray_characters_are_invalid_digits() {
    assert_eq!(parse_node_id("12a"), Err(NodeIdParseError::InvalidDigit));
    assert_eq!(parse_node_id(" 12"), Err(NodeIdParseError::InvalidDigit));
    assert_eq!(parse_node_id("1x9999999999999999999999"), Err(NodeIdParseError::InvalidDigit));
}

#[test]
fn largest_id_and_overflow() {
    assert_eq!(parse_node_id("18446744073709551615"), Ok(u64::MAX));
    assert_eq!(parse_node_id("18446744073709551616"), Err(NodeIdParseError::PosOverflow));
    assert_eq!(parse_node_id("99999999999999999999x"), Err(NodeIdParseError::PosOverflow));
}

#[test]
fn agrees_with_std_parse() {
    let cases = [
        "", "+", "-", "0", "42", "+42", "-42", "4 2", "18446744073709551615",
        "18446744073709551616", "99999999999999999999x", "1x99999999999999999999", "٣",
    ];
    for case in cases {
        let ours = parse_node_id(case).map_err(|e| e.reason().to_string());
        let expected = case.parse::<u64>().map_err(|e| e.to_string());
        assert_eq!(ours, expected, "case {:?}", case);
    }
}

#[test]
fn reasons_match_std_wording() {
    assert_eq!(NodeIdParseError::Empty.reason(), "cannot parse integer from empty string");
    assert_eq!(NodeIdParseError::InvalidDigit.reason(), "invalid digit found in string");
    assert_eq!(NodeIdParseError::PosOverflow.reason(), "number too large to fit in target type");
}

#[test]
fn given_node_id_wins_over_configuration() {
    assert_eq!(resolve_node_id(Some(5), Some("abc")), Ok(Some(5)));
    assert_eq!(resolve_node_id(None, Some("42")), Ok(Some(42)));
    assert_eq!(resolve_node_id(None, None), Ok(None));
    assert_eq!(resolve_node_id(None, Some("abc")), Err(NodeIdParseError::InvalidDigit));
    assert_eq!(resolve_node_id(None, Some("")), Err(NodeIdParseError::Empty));
}
