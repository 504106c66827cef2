use opentelemetry_sdk::attributes::{duplicate_attributes, find_key, same_attributes, KeyValue, Value};

fn kv(key: &str, value: Value) -> KeyValue {
    KeyValue::new(key.to_string(), value)
}

fn s(v: &str) -> Value {
    Value::String(v.to_string())
}

#[test]
fn order_of_attributes_does_not_matter() {
    let a = vec![kv("a", Value::I64(1)), kv("b", s("x"))];
    let b = vec![kv("b", s("x")), kv("a", Value::I64(1))];
    assert!(same_attributes(&a, &b));
}

#[test]
fn first_occurrence_of_a_key_wins() {
    let a = vec![kv("a", Value::I64(1)), kv("a", Value::I64(2))];
    let b = vec![kv("a", Value::I64(1))];
    let c = vec![kv("a", Value::I64(2))];
    assert!(same_attributes(&a, &b));
    assert!(!same_attributes(&a, &c));
}

#[test]
fn different_values_or_keys_differ() {
    let a = vec![kv("a", Value::I64(1))];
    assert!(!same_attributes(&a, &[kv("a", Value::Bool(true))]));
    assert!(!same_attributes(&a, &[kv("b", Value::I64(1))]));
    assert!(!same_attributes(&a, &[kv("a", Value::I64(1)), kv("b", Value::I64(1))]));
    assert!(!same_attributes(&a, &[]));
    assert!(same_attributes(&[], &[]));
    assert!(!same_attributes(&[kv("a", s("x"))], &[kv("a", s("y"))]));
}

#[test]
fn find_key_gives_the_first_position() {
    let a = vec![kv("a", Value::I64(1)), kv("b", Value::I64(2)), kv("b", Value::I64(3))];
    assert_eq!(find_key(&a, &"b".to_string()), Some(1));
    assert_eq!(find_key(&a, &"a".to_string()), Some(0));
    assert_eq!(find_key(&a, &"c".to_string()), None);
}

#[test]
fn duplicates_are_equal() {
    let a = vec![kv("a", Value::I64(1)), kv("b", s("x")), kv("c", Value::Bool(false))];
    let d = duplicate_attributes(&a);
    assert_eq!(d.len(), 3);
    assert_eq!(d[1].key, "b");
    assert!(d[1].value.equals(&s("x")));
    assert!(d[2].value.equals(&Value::Bool(false)));
    assert!(same_attributes(&a, &d));
}
