use unsealer::codec::CodecError;
use unsealer::envmap::json_to_env;

fn entries_of(text: &str) -> Vec<(String, String)> {
    json_to_env(text).unwrap().entries().clone()
}

#[test]
fn scenario_secret_world_maps_to_uppercase_secret() {
    let entries = entries_of("{\"secret\":\"world\"}");
    assert_eq!(entries.len(), 1);
    assert_eq!(entries[0].0, "SECRET");
    assert_eq!(entries[0].1, "world");
}

#[test]
fn scalar_values_keep_their_literal_text() {
    let entries = entries_of("{\"a\":1,\"b\":true,\"c\":null,\"pi\":3.14,\"big\":-2e3}");
    assert_eq!(
        entries,
        vec![
            ("A".to_string(), "1".to_string()),
            ("B".to_string(), "true".to_string()),
            ("C".to_string(), "null".to_string()),
            ("PI".to_string(), "3.14".to_string()),
            ("BIG".to_string(), "-2e3".to_string()),
        ]
    );
}

#[test]
fn later_entries_overwrite_earlier_names() {
    let entries = entries_of("{\"a\":\"x\",\"A\":\"y\"}");
    assert_eq!(entries, vec![("A".to_string(), "y".to_string())]);
}

#[test]
fn whitespace_and_empty_object_are_fine() {
    assert_eq!(entries_of("  { }  ").len(), 0);
    assert_eq!(entries_of("{}").len(), 0);
    let entries = entries_of(" {\t\"k\" : \"v\" ,\n \"w\" : 0 } ");
    assert_eq!(
        entries,
        vec![("K".to_string(), "v".to_string()), ("W".to_string(), "0".to_string())]
    );
}

#[test]
fn string_escapes_are_resolved() {
    let entries = entries_of("{\"tab\":\"a\\tb\",\"quote\":\"x\\\"y\",\"slash\":\"p\\\\q\"}");
    assert_eq!(
        entries,
        vec![
            ("TAB".to_string(), "a\tb".to_string()),
            ("QUOTE".to_string(), "x\"y".to_string()),
            ("SLASH".to_string(), "p\\q".to_string()),
        ]
    );
}

#[test]
fn environment_length_counts_names() {
    let env = json_to_env("{\"a\":1,\"b\":2,\"a\":3}").unwrap();
    assert_eq!(env.len(), 2);
}

#[test]
fn non_objects_are_rejected() {
    for bad in ["[1,2]", "\"text\"", "42", "true", "null", "not json at all", ""] {
        assert_eq!(json_to_env(bad).unwrap_err(), CodecError::Encoding);
    }
}

#[test]
fn nested_values_are_rejected() {
    for bad in ["{\"a\":{}}", "{\"a\":[1]}", "{\"a\":{\"b\":1}}"] {
        assert_eq!(json_to_env(bad).unwrap_err(), CodecError::Encoding);
    }
}

#[test]
fn unicode_escapes_are_resolved() {
    let entries = entries_of(
        "{\"a\":\"\\u0041\",\"acc\":\"caf\\u00e9\",\"ctl\":\"\\u0001\",\"smile\":\"\\ud83d\\ude00\"}",
    );
    assert_eq!(
        entries,
        vec![
            ("A".to_string(), "A".to_string()),
            ("ACC".to_string(), "caf\u{e9}".to_string()),
            ("CTL".to_string(), "\u{1}".to_string()),
            ("SMILE".to_string(), "\u{1f600}".to_string()),
        ]
    );
}

#[test]
fn bad_unicode_escapes_are_rejected() {
    for bad in [
        "{\"a\":\"\\ud800\"}",
        "{\"a\":\"\\udc00 alone\"}",
        "{\"a\":\"\\ud83d\\u0041\"}",
        "{\"a\":\"\\uzzzz\"}",
        "{\"a\":\"\\u12\"}",
    ] {
        assert_eq!(json_to_env(bad).unwrap_err(), CodecError::Encoding);
    }
}

#[test]
fn malformed_objects_are_rejected() {
    for bad in [
        "{\"a\":1,}",
        "{\"a\" 1}",
        "{\"a\":}",
        "{\"a\":01}",
        "{\"a\":1} trailing",
        "{\"a\":\"unterminated}",
        "{'a':1}",
    ] {
        assert_eq!(json_to_env(bad).unwrap_err(), CodecError::Encoding);
    }
}
