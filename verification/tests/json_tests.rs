use novel_platform::json::JsonValue;

#[test]
fn member_lookup_and_paths() {
    let v = JsonValue::Object(vec![(
        "data".to_string(),
        JsonValue::Object(vec![("list".to_string(), JsonValue::Array(vec![JsonValue::Null]))]),
    )]);
    assert!(v.get("data").is_some());
    assert!(v.get("nope").is_none());
    assert_eq!(v.get2("data", "list").unwrap().as_array().unwrap().len(), 1);
    assert!(v.get3("data", "list", "x").is_none());
    assert!(JsonValue::Bool(true).get("a").is_none());
}

#[test]
fn scalar_readers() {
    assert_eq!(JsonValue::Str("a".to_string()).as_str(), Some("a"));
    assert_eq!(JsonValue::Number(Some(3)).as_u64(), Some(3));
    assert_eq!(JsonValue::Number(None).as_u64(), None);
    assert_eq!(JsonValue::Null.as_str(), None);
}
