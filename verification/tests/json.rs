use wa_api_rs::JsonValue;

#[test]
fn json_text_is_compact_and_escaped() {
    let v = JsonValue::Object(vec![
        ("a".to_string(), JsonValue::String("q\"\\\n\t\u{1}é".to_string())),
        ("b".to_string(), JsonValue::Array(vec![JsonValue::Null, JsonValue::Bool(true), JsonValue::Number("-1.5".to_string())])),
        ("c".to_string(), JsonValue::Object(vec![])),
        ("d".to_string(), JsonValue::Array(vec![])),
    ]);
    assert_eq!(v.to_json_text(), "{\"a\":\"q\\\"\\\\\\n\\t\\u0001é\",\"b\":[null,true,-1.5],\"c\":{},\"d\":[]}");
}

#[test]
fn json_lookup_and_copy() {
    let v = JsonValue::Object(vec![
        ("k".to_string(), JsonValue::Bool(false)),
        ("k".to_string(), JsonValue::Null),
    ]);
    assert_eq!(v.get("k"), Some(&JsonValue::Null));
    assert_eq!(v.get("missing"), None);
    assert_eq!(JsonValue::Null.get("k"), None);
    assert!(v.is_object());
    assert!(!JsonValue::Array(vec![]).is_object());
    assert_eq!(v.duplicate(), v);
    assert_eq!(v.clone(), v);
}

fn to_serde(v: &JsonValue) -> serde_json::Value {
    match v {
        JsonValue::Null => serde_json::Value::Null,
        JsonValue::Bool(b) => serde_json::Value::Bool(*b),
        JsonValue::Number(n) => serde_json::from_str(n).unwrap(),
        JsonValue::String(s) => serde_json::Value::String(s.clone()),
        JsonValue::Array(items) => serde_json::Value::Array(items.iter().map(to_serde).collect()),
        JsonValue::Object(members) => serde_json::Value::Object(
            members.iter().map(|(k, v)| (k.clone(), to_serde(v))).collect(),
        ),
    }
}

fn sample() -> JsonValue {
    JsonValue::Object(vec![
        ("zeta".to_string(), JsonValue::Array(vec![JsonValue::Number("1".to_string()), JsonValue::Bool(false)])),
        ("b".to_string(), JsonValue::String("old".to_string())),
        ("alpha".to_string(), JsonValue::Object(vec![("y".to_string(), JsonValue::Null), ("x".to_string(), JsonValue::String("q\"é\n".to_string()))])),
        ("ab".to_string(), JsonValue::Array(vec![])),
        ("b".to_string(), JsonValue::String("new".to_string())),
        ("é".to_string(), JsonValue::Object(vec![])),
        ("B".to_string(), JsonValue::Number("-2.5".to_string())),
    ])
}

#[test]
fn json_debug_text_matches_serde_value_debug() {
    let v = sample();
    assert_eq!(v.debug_text(), format!("{:?}", to_serde(&v)));
    assert_eq!(
        v.debug_text(),
        "Object {\"B\": Number(-2.5), \"ab\": Array [], \"alpha\": Object {\"x\": String(\"q\\\"é\\n\"), \"y\": Null}, \"b\": String(\"new\"), \"zeta\": Array [Number(1), Bool(false)], \"é\": Object {}}"
    );
    assert_eq!(JsonValue::Null.debug_text(), "Null");
    assert_eq!(JsonValue::Bool(true).debug_text(), "Bool(true)");
}

#[test]
fn json_text_matches_serde_to_string() {
    let v = sample();
    assert_eq!(v.to_json_text(), to_serde(&v).to_string());
    assert_eq!(v.get("b"), Some(&JsonValue::String("new".to_string())));
}
