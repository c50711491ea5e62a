use mcp_zero::json::JsonValue;

#[test]
fn canonical_encoding_escapes_and_orders() {
    let v = JsonValue::Object(vec![
        ("a".to_string(), JsonValue::Str("x\"y\n\\\u{1}".to_string())),
        ("n".to_string(), JsonValue::Int(-12)),
        ("b".to_string(), JsonValue::Bool(true)),
        ("z".to_string(), JsonValue::Null),
        (
            "arr".to_string(),
            JsonValue::Array(vec![JsonValue::Int(1), JsonValue::Str("s".to_string())]),
        ),
    ]);
    assert_eq!(
        String::from_utf8(v.encode()).unwrap(),
        "{\"a\":\"x\\\"y\\n\\\\\\u0001\",\"n\":-12,\"b\":true,\"z\":null,\"arr\":[1,\"s\"]}"
    );
}

#[test]
fn extreme_integers_encode() {
    assert_eq!(String::from_utf8(JsonValue::Int(i64::MIN).encode()).unwrap(), "-9223372036854775808");
    assert_eq!(String::from_utf8(JsonValue::Int(0).encode()).unwrap(), "0");
    assert_eq!(String::from_utf8(JsonValue::Array(vec![]).encode()).unwrap(), "[]");
}

#[test]
fn member_lookup_finds_first_match() {
    let v = JsonValue::Object(vec![
        ("k".to_string(), JsonValue::Int(1)),
        ("k".to_string(), JsonValue::Int(2)),
    ]);
    match v.get("k") {
        Some(JsonValue::Int(n)) => assert_eq!(*n, 1),
        other => panic!("unexpected {:?}", other),
    }
    assert!(v.get("missing").is_none());
    assert!(JsonValue::Null.get("k").is_none());
}

#[test]
fn duplicate_has_same_encoding() {
    let v = JsonValue::Object(vec![(
        "x".to_string(),
        JsonValue::Array(vec![JsonValue::Bool(false), JsonValue::Str("é".to_string())]),
    )]);
    assert_eq!(v.duplicate().encode(), v.encode());
}
