use sleet::json::read_json_bool;

#[test]
fn a_boolean_document_is_true_or_false_between_whitespace() {
    assert_eq!(read_json_bool("true"), Some(true));
    assert_eq!(read_json_bool(" \t false\r\n"), Some(false));
    assert_eq!(read_json_bool("True"), None);
    assert_eq!(read_json_bool("\"true\""), None);
    assert_eq!(read_json_bool("true false"), None);
    assert_eq!(read_json_bool(""), None);
    assert_eq!(read_json_bool("\u{a0}true"), None);
    for text in ["true", " true ", "false\n", "1", "null", "tru", "\u{a0}true"] {
        let expected = serde_json::from_str::<serde_json::Value>(text).ok().and_then(|v| v.as_bool());
        assert_eq!(read_json_bool(text), expected, "{text:?}");
    }
}
