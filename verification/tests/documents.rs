use chat_relay::record::read_record;
use serde_json::Value;

fn object(members: Vec<(&str, Value)>) -> Value {
    let mut map = serde_json::Map::new();
    for (key, value) in members {
        map.insert(key.to_string(), value);
    }
    Value::Object(map)
}

#[test]
fn object_with_a_string_response_is_a_record() {
    let document = object(vec![("response", Value::String("hi".to_string()))]);
    assert_eq!(read_record(&document).expect("a record").response, "hi");
}

#[test]
fn record_text_is_the_member_not_the_document() {
    let document = object(vec![
        ("model", Value::String("llama3".to_string())),
        ("response", Value::String("".to_string())),
        ("done", Value::Bool(true)),
    ]);
    assert_eq!(read_record(&document).expect("a record").response, "");
}

#[test]
fn object_without_the_member_is_no_record() {
    assert!(read_record(&object(vec![])).is_none());
    assert!(read_record(&object(vec![("Response", Value::String("hi".to_string()))])).is_none());
    assert!(read_record(&object(vec![("status", Value::String("success".to_string()))]))
        .is_none());
}

#[test]
fn member_of_another_kind_is_no_record() {
    assert!(read_record(&object(vec![("response", Value::Null)])).is_none());
    assert!(read_record(&object(vec![("response", Value::Bool(false))])).is_none());
    assert!(read_record(&object(vec![("response", Value::from(5))])).is_none());
    assert!(read_record(&object(vec![(
        "response",
        Value::Array(vec![Value::String("hi".to_string())])
    )]))
    .is_none());
    assert!(read_record(&object(vec![(
        "response",
        object(vec![("response", Value::String("hi".to_string()))])
    )]))
    .is_none());
}

#[test]
fn value_of_another_kind_is_no_record() {
    assert!(read_record(&Value::Null).is_none());
    assert!(read_record(&Value::Bool(true)).is_none());
    assert!(read_record(&Value::from(17)).is_none());
    assert!(read_record(&Value::String("response".to_string())).is_none());
    assert!(read_record(&Value::Array(vec![object(vec![(
        "response",
        Value::String("hi".to_string())
    )])]))
    .is_none());
}
