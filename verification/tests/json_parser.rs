use crossfury::json_parser::parse_json;

#[test]
fn test_parse_json_reads_a_document() {
    let mut data = br#"{"e":"depthUpdate","b":[["1.0","2.0"]]}"#.to_vec();
    assert!(parse_json(&mut data, true).is_ok());
}

#[test]
fn test_parse_json_refuses_bad_text() {
    let mut data = b"{not json".to_vec();
    assert!(parse_json(&mut data, true).is_err());
}

#[test]
fn test_parse_json_without_vector_parser_is_refused() {
    let mut data = br#"{"a":1}"#.to_vec();
    assert!(parse_json(&mut data, false).is_err());
}
