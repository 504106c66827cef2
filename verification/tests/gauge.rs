use opentelemetry_sdk::attributes::{KeyValue, Value};
use opentelemetry_sdk::gauge::Gauge;

fn kv(key: &str, value: &str) -> KeyValue {
    KeyValue::new(key.to_string(), Value::String(value.to_string()))
}

#[test]
fn gauge_keeps_the_last_value_per_attribute_set() {
    let mut g = Gauge::<u64>::new();
    g.record(5, &[kv("a", "x")]);
    g.record(3, &[kv("a", "x")]);
    g.record(9, &[kv("a", "y")]);
    let mut points = Vec::new();
    g.collect(&mut points);
    assert_eq!(points.len(), 2);
    assert_eq!(points[0].value, 3);
    assert_eq!(points[1].value, 9);
    g.collect(&mut points);
    assert_eq!(points.len(), 2);
}
