use codex_tui::text_formatting::{format_and_truncate_tool_result, format_json_compact, truncate_text};

#[test]
fn test_truncate_text() {
    assert_eq!(truncate_text("Hello, world!", 8), "Hello...");
}

#[test]
fn test_truncate_empty_string() {
    assert_eq!(truncate_text("", 5), "");
}

#[test]
fn test_truncate_max_graphemes_zero() {
    assert_eq!(truncate_text("Hello", 0), "");
}

#[test]
fn test_truncate_max_graphemes_one() {
    assert_eq!(truncate_text("Hello", 1), "H");
}

#[test]
fn test_truncate_max_graphemes_two() {
    assert_eq!(truncate_text("Hello", 2), "He");
}

#[test]
fn test_truncate_max_graphemes_three_boundary() {
    assert_eq!(truncate_text("Hello", 3), "...");
}

#[test]
fn test_truncate_text_shorter_than_limit() {
    assert_eq!(truncate_text("Hi", 10), "Hi");
}

#[test]
fn test_truncate_text_exact_length() {
    assert_eq!(truncate_text("Hello", 5), "Hello");
}

#[test]
fn test_truncate_emoji() {
    let text = "👋🌍🚀✨💫";
    assert_eq!(truncate_text(text, 3), "...");
    assert_eq!(truncate_text(text, 4), "👋...");
}

#[test]
fn test_truncate_unicode_combining_characters() {
    let text = "é́ñ̃";
    assert_eq!(truncate_text(text, 2), "é́ñ̃");
}

#[test]
fn test_truncate_very_long_text() {
    let text = "a".repeat(1000);
    let truncated = truncate_text(&text, 10);
    assert_eq!(truncated, "aaaaaaa...");
    assert_eq!(truncated.len(), 10);
}

#[test]
fn test_format_json_compact_simple_object() {
    let json = r#"{ "name": "John", "age": 30 }"#;
    assert_eq!(format_json_compact(json).unwrap(), r#"{"name": "John", "age": 30}"#);
}

#[test]
fn test_format_json_compact_nested_object() {
    let json = r#"{ "user": { "name": "John", "details": { "age": 30, "city": "NYC" } } }"#;
    assert_eq!(
        format_json_compact(json).unwrap(),
        r#"{"user": {"name": "John", "details": {"age": 30, "city": "NYC"}}}"#
    );
}

#[test]
fn test_format_json_compact_array() {
    let json = r#"[ 1, 2, { "key": "value" }, "string" ]"#;
    assert_eq!(format_json_compact(json).unwrap(), r#"[1, 2, {"key": "value"}, "string"]"#);
}

#[test]
fn test_format_json_compact_already_compact() {
    assert_eq!(format_json_compact(r#"{"compact":true}"#).unwrap(), r#"{"compact": true}"#);
}

#[test]
fn test_format_json_compact_with_whitespace() {
    let json = r#"
        {
            "name": "John",
            "hobbies": [
                "reading",
                "coding"
            ]
        }
        "#;
    assert_eq!(
        format_json_compact(json).unwrap(),
        r#"{"name": "John", "hobbies": ["reading", "coding"]}"#
    );
}

#[test]
fn test_format_json_compact_invalid_json() {
    assert!(format_json_compact(r#"{"invalid": json syntax}"#).is_none());
}

#[test]
fn test_format_json_compact_empty_object() {
    assert_eq!(format_json_compact(r#"{}"#).unwrap(), "{}");
}

#[test]
fn test_format_json_compact_empty_array() {
    assert_eq!(format_json_compact(r#"[]"#).unwrap(), "[]");
}

#[test]
fn test_format_json_compact_primitive_values() {
    assert_eq!(format_json_compact("42").unwrap(), "42");
    assert_eq!(format_json_compact("true").unwrap(), "true");
    assert_eq!(format_json_compact("false").unwrap(), "false");
    assert_eq!(format_json_compact("null").unwrap(), "null");
    assert_eq!(format_json_compact(r#""string""#).unwrap(), r#""string""#);
}

#[test]
fn tool_result_json_is_compacted_then_truncated() {
    let json = r#"{ "a": 1, "b": [ 1, 2 ] }"#;
    assert_eq!(format_and_truncate_tool_result(json, 5, 80), r#"{"a": 1, "b": [1, 2]}"#);
    let long = "x".repeat(50);
    assert_eq!(format_and_truncate_tool_result(&long, 2, 10), "x".repeat(15) + "...");
}

#[test]
fn tool_result_plain_text_is_truncated() {
    assert_eq!(format_and_truncate_tool_result("not json", 1, 6), "no...");
}
