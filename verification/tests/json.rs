use animus_subject_sqlite::json::{CustomFields, JsonValue};
use serde_json::Value;

fn json(text: &str) -> JsonValue {
    JsonValue::of(serde_json::from_str(text).unwrap())
}

#[test]
fn fields_are_kept_in_the_order_of_their_names() {
    let mut fields = CustomFields::new();
    assert_eq!(fields.len(), 0);
    fields.insert("b".into(), JsonValue::Null);
    fields.insert("a".into(), JsonValue::Text("1".into()));
    fields.insert("ab".into(), json("2"));
    fields.insert("b".into(), json("3"));
    let names: Vec<&str> = fields.entries().iter().map(|(name, _)| name.as_str()).collect();
    assert_eq!(names, ["a", "ab", "b"]);
    assert_eq!(fields.get("b"), Some(&json("3")));
    assert_eq!(fields.get("c"), None);
    fields.remove("a");
    fields.remove("a");
    assert_eq!(fields.len(), 2);
    assert_eq!(fields.get("a"), None);
}

#[test]
fn fields_are_an_object_and_read_back() {
    let mut fields = CustomFields::new();
    fields.insert("text".into(), JsonValue::Text("\u{1F600}\u{7}\"".into()));
    fields.insert("none".into(), JsonValue::Null);
    fields.insert("big".into(), json("18446744073709551615"));
    fields.insert("deep".into(), json("{\"a\":[{}]}"));
    let text = fields.to_json().unwrap();
    assert_eq!(
        text,
        "{\"big\":18446744073709551615,\"deep\":{\"a\":[{}]},\"none\":null,\
         \"text\":\"\u{1F600}\\u0007\\\"\"}"
    );
    assert_eq!(CustomFields::from_json(&text), Ok(fields));
}

#[test]
fn values_are_told_apart() {
    assert_eq!(JsonValue::of(Value::Null), JsonValue::Null);
    assert!(JsonValue::of(Value::Null).is_null());
    assert_eq!(JsonValue::of(Value::from("x\"")), JsonValue::Text("x\"".into()));
    let value: Value = serde_json::from_str(" { \"b\" : [ 1 , null ] } ").unwrap();
    match JsonValue::of(value.clone()) {
        JsonValue::Other(data) => {
            assert_eq!(data.value(), &value);
            assert_eq!(data.text(), "{\"b\":[1,null]}");
        }
        other => panic!("{:?}", other),
    }
    for text in ["true", "0", "-1.5", "[]", "{}", "[\"x\"]"] {
        assert!(matches!(json(text), JsonValue::Other(_)));
        assert!(!json(text).is_null());
        assert!(json(text).lasts());
    }
}

#[test]
fn a_value_is_written_by_its_compact_text() {
    let mut fields = CustomFields::new();
    fields.insert("a".into(), json("[1, 0.30000000000000004]"));
    assert_eq!(fields.to_json().unwrap(), "{\"a\":[1,0.30000000000000004]}");
}

#[test]
fn a_value_with_the_name_of_a_raw_value_is_an_object() {
    let text = "{\"$serde_json::private::RawValue\":\"[1]\"}";
    assert!(json(text).lasts());
    let mut fields = CustomFields::new();
    fields.insert("a".into(), json(text));
    assert_eq!(CustomFields::from_json(&fields.to_json().unwrap()), Ok(fields));
}

#[test]
fn what_is_no_object_has_no_fields() {
    assert!(CustomFields::from_json("[]").is_err());
    assert!(CustomFields::from_json("").is_err());
    assert!(CustomFields::from_json("{\"a\":}").is_err());
    assert_eq!(CustomFields::from_json(" { } "), Ok(CustomFields::new()));
}

#[test]
fn a_value_nested_too_deep_does_not_read_back() {
    let nested = |depth: usize| {
        let mut value = Value::Array(vec![]);
        for _ in 1..depth {
            value = Value::Array(vec![value]);
        }
        JsonValue::of(value)
    };
    let mut fields = CustomFields::new();
    fields.insert("a".into(), nested(126));
    assert!(nested(126).lasts());
    assert_eq!(CustomFields::from_json(&fields.to_json().unwrap()), Ok(fields.clone()));
    for depth in [127, 128] {
        assert!(!nested(depth).lasts());
        fields.insert("a".into(), nested(depth));
        assert!(CustomFields::from_json(&fields.to_json().unwrap()).is_err());
    }
    assert!(JsonValue::Null.lasts());
    assert!(JsonValue::Text("[[".into()).lasts());
}

#[test]
fn the_last_of_two_members_counts() {
    let fields = CustomFields::from_json("{\"a\":1,\"a\":\"x\"}").unwrap();
    assert_eq!(fields.len(), 1);
    assert_eq!(fields.get("a"), Some(&JsonValue::Text("x".into())));
}
