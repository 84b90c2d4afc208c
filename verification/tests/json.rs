use rich_rs::console::{Console, ConsoleOptions};
use rich_rs::json::{format_json, Json};
use rich_rs::Renderable;


#[test]
fn test_format_json_object() {
    let json = r#"{"name": "Alice", "age": 30}"#;
    let formatted = format_json(json, 2, false);
    assert!(formatted.contains("\"name\": \"Alice\""));
    assert!(formatted.contains("\"age\": 30"));
    assert!(formatted.contains('\n'));
}

#[test]
fn test_format_json_array() {
    let json = r#"[1, 2, 3]"#;
    let formatted = format_json(json, 2, false);
    assert!(formatted.contains("1"));
    assert!(formatted.contains("2"));
    assert!(formatted.contains("3"));
}

#[test]
fn test_format_json_nested() {
    let json = r#"{"users": [{"name": "Alice"}, {"name": "Bob"}]}"#;
    let formatted = format_json(json, 2, false);
    assert!(formatted.contains("Alice"));
    assert!(formatted.contains("Bob"));
}

#[test]
fn test_format_json_sort_keys() {
    let json = r#"{"b": 2, "a": 1}"#;
    let formatted = format_json(json, 2, true);
    let a_pos = formatted.find("\"a\"").unwrap();
    let b_pos = formatted.find("\"b\"").unwrap();
    assert!(a_pos < b_pos);
}

#[test]
fn test_format_json_empty_object() {
    let json = "{}";
    let formatted = format_json(json, 2, false);
    assert_eq!(formatted, "{}");
}

#[test]
fn test_format_json_empty_array() {
    let json = "[]";
    let formatted = format_json(json, 2, false);
    assert_eq!(formatted, "[]");
}

#[test]
fn test_format_json_booleans_and_null() {
    let json = r#"{"flag": true, "other": false, "val": null}"#;
    let formatted = format_json(json, 2, false);
    assert!(formatted.contains("true"));
    assert!(formatted.contains("false"));
    assert!(formatted.contains("null"));
}

#[test]
fn test_json_renderable() {
    let json = Json::new(r#"{"name": "Alice"}"#, 2, true, false);
    let console = Console::new();
    let options = ConsoleOptions::default();
    let segments = json.render(&console, &options);
    assert!(!segments.is_empty());
}

#[test]
fn test_format_json_exact_layout() {
    let formatted = format_json(r#"{"a": [1, {"b": null}], "c": "x\"y"}"#, 2, false);
    assert_eq!(
        formatted,
        "{\n  \"a\": [\n    1,\n    {\n      \"b\": null\n    }\n  ],\n  \"c\": \"x\\\"y\"\n}"
    );
}

#[test]
fn test_format_json_sorted_stable_and_fallback() {
    let formatted = format_json(r#"{"b": 1, "a": 2, "b": 3}"#, 1, true);
    assert_eq!(formatted, "{\n \"a\": 2,\n \"b\": 1,\n \"b\": 3\n}");
    assert_eq!(format_json("  oops", 2, false), "  oops");
    assert_eq!(format_json("[1, 2", 4, false), "[\n    1,\n    2\n]");
}

#[test]
fn test_json_highlight_styles_keys() {
    let json = Json::new(r#"{"k": true}"#, 2, true, false);
    let console = Console::new();
    let options = ConsoleOptions::default();
    let text: String = json
        .render(&console, &options)
        .iter()
        .map(|s| s.text.to_string())
        .collect();
    assert!(text.contains("\"k\": true"));
}
