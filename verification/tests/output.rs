use atlassian_cli::output::{JsonKind, JsonValue, OutputFormat, OutputRenderer};
use serde_json::Value;

fn model(value: &Value) -> JsonValue {
    let kind = match value {
        Value::Null => JsonKind::Null,
        Value::Bool(b) => JsonKind::Bool(*b),
        Value::Number(_) => JsonKind::Number,
        Value::String(s) => JsonKind::Text(s.clone()),
        Value::Array(items) => JsonKind::Array(items.iter().map(model).collect()),
        Value::Object(members) => {
            JsonKind::Object(members.iter().map(|(k, v)| (k.clone(), model(v))).collect())
        }
    };
    JsonValue { kind, compact: value.to_string() }
}

fn json(text: &str) -> JsonValue {
    model(&serde_json::from_str::<Value>(text).expect("valid JSON"))
}

fn quiet(value: &JsonValue) -> (bool, Vec<String>) {
    let renderer = OutputRenderer::new(OutputFormat::Quiet);
    let mut lines = Vec::new();
    let printed = renderer.render_quiet(value, &mut lines);
    (printed, lines)
}

#[test]
fn test_output_format_default() {
    assert_eq!(OutputFormat::default(), OutputFormat::Table);
}

#[test]
fn test_renderer_new() {
    let renderer = OutputRenderer::new(OutputFormat::Json);
    assert_eq!(renderer.format(), OutputFormat::Json);
}

#[test]
fn test_coerce_rows_empty_array() {
    let value = json("[]");
    assert!(OutputRenderer::coerce_rows(&value).is_none());
}

#[test]
fn test_coerce_rows_single_object() {
    let value = json(r#"[{"id": "1", "name": "Alice"}, {"id": "2", "name": "Bob"}]"#);

    let (headers, rows) = OutputRenderer::coerce_rows(&value).unwrap();
    assert_eq!(headers.len(), 2);
    assert!(headers.contains(&"id".to_string()));
    assert!(headers.contains(&"name".to_string()));
    assert_eq!(rows.len(), 2);
}

#[test]
fn test_coerce_rows_mixed_keys() {
    let value = json(r#"[{"id": "1", "name": "Alice"}, {"id": "2", "email": "bob@example.com"}]"#);

    let (headers, rows) = OutputRenderer::coerce_rows(&value).unwrap();
    assert_eq!(headers.len(), 3);
    assert!(headers.contains(&"id".to_string()));
    assert!(headers.contains(&"name".to_string()));
    assert!(headers.contains(&"email".to_string()));

    assert_eq!(
        rows[0][headers.iter().position(|h| h == "id").unwrap()],
        "1"
    );
    assert_eq!(
        rows[0][headers.iter().position(|h| h == "name").unwrap()],
        "Alice"
    );
    assert_eq!(
        rows[0][headers.iter().position(|h| h == "email").unwrap()],
        ""
    );
}

#[test]
fn test_coerce_rows_not_array() {
    let value = json(r#"{"id": "1", "name": "Alice"}"#);
    assert!(OutputRenderer::coerce_rows(&value).is_none());
}

#[test]
fn test_coerce_rows_array_of_primitives() {
    let value = json(r#"["one", "two", "three"]"#);
    assert!(OutputRenderer::coerce_rows(&value).is_none());
}

#[test]
fn test_value_to_string_string() {
    let value = json(r#""hello""#);
    assert_eq!(OutputRenderer::value_to_string(&value), "hello");
}

#[test]
fn test_value_to_string_number() {
    let value = json("42");
    assert_eq!(OutputRenderer::value_to_string(&value), "42");
}

#[test]
fn test_value_to_string_bool() {
    let value = json("true");
    assert_eq!(OutputRenderer::value_to_string(&value), "true");
}

#[test]
fn test_value_to_string_null() {
    let value = json("null");
    assert_eq!(OutputRenderer::value_to_string(&value), "");
}

#[test]
fn test_value_to_string_object() {
    let value = json(r#"{"key": "value"}"#);
    let result = OutputRenderer::value_to_string(&value);
    assert!(result.contains("key"));
    assert!(result.contains("value"));
}

#[test]
fn test_render_quiet_object_with_id() {
    let value = json(r#"{"id": "123", "name": "Test"}"#);
    assert!(quiet(&value).0);
}

#[test]
fn test_render_quiet_object_without_id() {
    let value = json(r#"{"name": "Test"}"#);
    assert!(!quiet(&value).0);
}

#[test]
fn test_render_quiet_array_with_ids() {
    let value = json(r#"[{"id": "1", "name": "Alice"}, {"id": "2", "name": "Bob"}]"#);
    assert!(quiet(&value).0);
}

#[test]
fn test_render_quiet_primitive() {
    let value = json(r#""simple""#);
    assert!(quiet(&value).0);
}

#[test]
fn test_render_quiet_null() {
    let value = json("null");
    assert!(!quiet(&value).0);
}

#[test]
fn test_render_quiet_array_with_nulls() {
    let value = json("[null, null]");
    assert!(!quiet(&value).0);
}

#[test]
fn test_render_csv() {
    let value = json(
        r#"[{"id": "1", "name": "Alice", "count": 10}, {"id": "2", "name": "Bob", "count": 20}]"#,
    );
    let renderer = OutputRenderer::new(OutputFormat::Csv);
    let mut lines = Vec::new();
    assert!(renderer.render_csv(&value, &mut lines));
    assert_eq!(lines, vec!["count,id,name", "10,1,Alice", "20,2,Bob"]);
}

#[test]
fn csv_of_what_is_no_table_adds_nothing() {
    let renderer = OutputRenderer::new(OutputFormat::Csv);
    let mut lines = vec![String::from("kept")];
    assert!(!renderer.render_csv(&json(r#"{"id": "1"}"#), &mut lines));
    assert!(!renderer.render_csv(&json("[1, 2]"), &mut lines));
    assert!(!renderer.render_csv(&json("[{}, {}]"), &mut lines));
    assert_eq!(lines, vec!["kept"]);
}

#[test]
fn headers_are_sorted_and_rows_follow_them() {
    let value = json(
        r#"[{"b": 1, "a": "x"}, "stray", {"c": [1, 2], "a": null, "Z": {"k": true}}, {}]"#,
    );
    let (headers, rows) = OutputRenderer::coerce_rows(&value).unwrap();
    assert_eq!(headers, vec!["Z", "a", "b", "c"]);
    assert_eq!(
        rows,
        vec![
            vec!["", "x", "1", ""],
            vec![],
            vec![r#"{"k":true}"#, "", "", "[1,2]"],
            vec!["", "", "", ""],
        ]
    );
}

#[test]
fn headers_order_by_character() {
    let value = json(r#"[{"é": 1, "z": 2, "ab": 3, "a": 4, "": 5, "😀": 6, "ﬀ": 7}]"#);
    let (headers, _) = OutputRenderer::coerce_rows(&value).unwrap();
    let mut expected = vec!["é", "z", "ab", "a", "", "😀", "ﬀ"];
    expected.sort();
    assert_eq!(headers, expected);
}

#[test]
fn quiet_lines_in_full() {
    let value = json(
        r#"[{"id": "A-1", "x": 1}, {"id": 7, "a": "first"}, {"name": "n"}, {}, null, 3, "s", [1]]"#,
    );
    let (printed, lines) = quiet(&value);
    assert!(printed);
    assert_eq!(lines, vec!["A-1", r#""first""#, r#""n""#, "3", r#""s""#, "[1]"]);
    assert_eq!(quiet(&json(r#"{"id": "X"}"#)), (true, vec![String::from("X")]));
    assert_eq!(quiet(&json(r#"{"id": 5}"#)), (false, vec![]));
    assert_eq!(quiet(&json("12.5")), (true, vec![String::from("12.5")]));
    assert_eq!(quiet(&json("false")), (true, vec![String::from("false")]));
    assert_eq!(quiet(&json("[]")), (false, vec![]));
}

#[test]
fn cell_texts() {
    assert_eq!(OutputRenderer::value_to_string(&json("false")), "false");
    assert_eq!(OutputRenderer::value_to_string(&json("-1.5e3")), "-1500.0");
    assert_eq!(OutputRenderer::value_to_string(&json(r#""a \"b\"""#)), "a \"b\"");
    assert_eq!(OutputRenderer::value_to_string(&json("[1, \"two\"]")), r#"[1,"two"]"#);
}
