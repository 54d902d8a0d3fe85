use serde_json::Value;
use transcriber_api::llm::schema::{
    JsonMember, JsonValue, clone_json, find_member, gemini_to_json_schema, set_member,
    without_member,
};

fn from_value(v: Value) -> JsonValue {
    match v {
        Value::Null => JsonValue::Null,
        Value::Bool(b) => JsonValue::Bool(b),
        Value::Number(n) => JsonValue::Number(n.to_string()),
        Value::String(s) => JsonValue::Str(s),
        Value::Array(items) => JsonValue::Array(items.into_iter().map(from_value).collect()),
        Value::Object(map) => JsonValue::Object(
            map.into_iter().map(|(key, value)| JsonMember { key, value: from_value(value) }).collect(),
        ),
    }
}

fn to_value(v: JsonValue) -> Value {
    match v {
        JsonValue::Null => Value::Null,
        JsonValue::Bool(b) => Value::Bool(b),
        JsonValue::Number(n) => serde_json::from_str(&n).unwrap(),
        JsonValue::Str(s) => Value::String(s),
        JsonValue::Array(items) => Value::Array(items.into_iter().map(to_value).collect()),
        JsonValue::Object(members) => {
            Value::Object(members.into_iter().map(|m| (m.key, to_value(m.value))).collect())
        }
    }
}

fn parse(text: &str) -> Value {
    serde_json::from_str(text).unwrap()
}

fn convert(text: &str) -> Value {
    to_value(gemini_to_json_schema(from_value(parse(text))))
}

fn keys(v: &JsonValue) -> Vec<String> {
    match v {
        JsonValue::Object(ms) => ms.iter().map(|m| m.key.clone()).collect(),
        _ => Vec::new(),
    }
}

fn member(key: &str, value: JsonValue) -> JsonMember {
    JsonMember { key: key.to_string(), value }
}

#[test]
fn converts_object_schema_to_strict_form() {
    let got = convert(
        r#"{"type": "OBJECT", "nullable": true,
            "properties": {"name": {"type": "STRING"}, "age": {"type": "INTEGER", "nullable": true}}}"#,
    );
    let want = parse(
        r#"{"type": "object",
            "properties": {"name": {"type": "string"}, "age": {"type": "integer"}},
            "required": ["age", "name"],
            "additionalProperties": false}"#,
    );
    assert_eq!(got, want);
}

#[test]
fn converts_array_items_recursively() {
    let got = convert(
        r#"{"type": "ARRAY", "items": {"type": "OBJECT", "properties": {"id": {"type": "NUMBER"}}}}"#,
    );
    let want = parse(
        r#"{"type": "array", "items": {"type": "object", "properties": {"id": {"type": "number"}},
            "required": ["id"], "additionalProperties": false}}"#,
    );
    assert_eq!(got, want);
}

#[test]
fn non_object_values_are_unchanged() {
    assert_eq!(convert(r#""STRING""#), parse(r#""STRING""#));
    assert_eq!(convert("[1, 2]"), parse("[1, 2]"));
    assert_eq!(convert("null"), Value::Null);
    assert_eq!(convert("true"), Value::Bool(true));
    assert_eq!(convert("3.5"), parse("3.5"));
}

#[test]
fn properties_that_are_not_an_object_are_dropped() {
    let got = convert(r#"{"type": "OBJECT", "properties": ["a"], "description": "x"}"#);
    assert_eq!(got, parse(r#"{"type": "object", "description": "x"}"#));
}

#[test]
fn non_string_type_is_kept() {
    let got = convert(r#"{"type": ["STRING", "NULL"]}"#);
    assert_eq!(got, parse(r#"{"type": ["STRING", "NULL"]}"#));
}

#[test]
fn other_members_are_not_converted() {
    let got = convert(r#"{"anyOf": [{"type": "STRING", "nullable": true}]}"#);
    assert_eq!(got, parse(r#"{"anyOf": [{"type": "STRING", "nullable": true}]}"#));
}

#[test]
fn existing_required_is_replaced() {
    let got = convert(r#"{"required": ["zzz"], "properties": {"b": {}, "a": {}}}"#);
    assert_eq!(
        got,
        parse(r#"{"required": ["a", "b"], "properties": {"a": {}, "b": {}}, "additionalProperties": false}"#)
    );
}

#[test]
fn member_order_follows_the_rules() {
    let input = JsonValue::Object(vec![
        member("type", JsonValue::Str("OBJECT".to_string())),
        member("properties", JsonValue::Object(vec![member("x", JsonValue::Object(vec![]))])),
        member("nullable", JsonValue::Bool(true)),
        member("description", JsonValue::Str("d".to_string())),
    ]);
    let out = gemini_to_json_schema(input);
    assert_eq!(keys(&out), vec!["type", "description", "properties", "required", "additionalProperties"]);
}

#[test]
fn member_helpers_find_remove_and_set() {
    let mut ms = vec![
        member("a", JsonValue::Null),
        member("b", JsonValue::Bool(true)),
        member("a", JsonValue::Bool(false)),
    ];
    assert_eq!(find_member(&ms, "a"), Some(0));
    assert_eq!(find_member(&ms, "b"), Some(1));
    assert_eq!(find_member(&ms, "c"), None);
    let without = without_member(&ms, "a");
    assert_eq!(without.len(), 1);
    assert_eq!(without[0].key, "b");
    set_member(&mut ms, "b", JsonValue::Null);
    assert!(matches!(ms[1].value, JsonValue::Null));
    assert_eq!(ms.len(), 3);
    set_member(&mut ms, "c", JsonValue::Str("new".to_string()));
    assert_eq!(ms.len(), 4);
    assert_eq!(ms[3].key, "c");
}

#[test]
fn clone_json_copies_deeply() {
    let v = from_value(parse(r#"{"a": [1, {"b": "c"}], "d": null}"#));
    let c = clone_json(&v);
    assert_eq!(to_value(c), to_value(v));
}
