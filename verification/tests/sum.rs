use opentelemetry_sdk::attributes::{KeyValue, Value};
use opentelemetry_sdk::data::{self, DataPoint, Temporality};
use opentelemetry_sdk::sum::Sum;
use opentelemetry_sdk::value_map::CARDINALITY_LIMIT;

fn kv(key: &str, value: i64) -> KeyValue {
    KeyValue::new(key.to_string(), Value::I64(value))
}

fn value_for<T: Copy>(points: &[DataPoint<T>], attrs: &[KeyValue]) -> Option<T> {
    points
        .iter()
        .find(|p| opentelemetry_sdk::attributes::same_attributes(&p.attributes, attrs))
        .map(|p| p.value)
}

#[test]
fn cumulative_sums_per_attribute_set() {
    let mut sum = Sum::<u64>::new(true);
    sum.measure(3, &[kv("a", 1)]);
    sum.measure(4, &[kv("a", 1)]);
    sum.measure(10, &[kv("a", 2)]);
    sum.measure(5, &[]);
    let mut points = Vec::new();
    sum.cumulative(&mut points);
    assert_eq!(points.len(), 3);
    assert!(points[0].attributes.is_empty());
    assert_eq!(points[0].value, 5);
    assert_eq!(points[1].value, 7);
    assert_eq!(points[2].value, 10);
    assert_eq!(value_for(&points, &[kv("a", 2)]), Some(10));
    let t = points[0].time;
    assert!(points.iter().all(|p| p.time == t && p.start_time == points[0].start_time));
}

#[test]
fn cumulative_leaves_the_sums() {
    let mut sum = Sum::<i64>::new(false);
    sum.measure(-3, &[kv("a", 1)]);
    let mut first = Vec::new();
    sum.cumulative(&mut first);
    let mut second = vec![DataPoint { attributes: vec![], start_time: first[0].start_time, time: first[0].time, value: 99 }];
    sum.cumulative(&mut second);
    assert_eq!(second.len(), 1);
    assert_eq!(second[0].value, -3);
    assert_eq!(second[0].start_time, first[0].start_time);
}

#[test]
fn delta_resets_and_chains_windows() {
    let mut sum = Sum::<u64>::new(true);
    sum.measure(2, &[kv("a", 1)]);
    sum.measure(2, &[kv("a", 1)]);
    let mut points = Vec::new();
    sum.delta(&mut points);
    assert_eq!(points.len(), 1);
    assert_eq!(points[0].value, 4);
    let end_of_first = points[0].time;
    sum.delta(&mut points);
    assert_eq!(points.len(), 0);
    sum.measure(6, &[kv("a", 1)]);
    sum.delta(&mut points);
    assert_eq!(points.len(), 1);
    assert_eq!(points[0].value, 6);
    assert!(points[0].start_time >= end_of_first);
}

#[test]
fn delta_reports_measurements_without_attributes_first() {
    let mut sum = Sum::<u64>::new(true);
    sum.measure(1, &[kv("b", 1)]);
    sum.measure(8, &[]);
    let mut points = Vec::new();
    sum.delta(&mut points);
    assert_eq!(points.len(), 2);
    assert!(points[0].attributes.is_empty());
    assert_eq!(points[0].value, 8);
    assert_eq!(points[1].value, 1);
}

#[test]
fn sums_wrap_around() {
    let mut sum = Sum::<u64>::new(true);
    sum.measure(u64::MAX, &[]);
    sum.measure(2, &[]);
    let mut points = Vec::new();
    sum.cumulative(&mut points);
    assert_eq!(points[0].value, 1);
    let mut signed = Sum::<i64>::new(false);
    signed.measure(i64::MIN, &[]);
    signed.measure(-1, &[]);
    let mut signed_points = Vec::new();
    signed.cumulative(&mut signed_points);
    assert_eq!(signed_points[0].value, i64::MAX);
}

#[test]
fn attribute_order_and_repetition_do_not_split_series() {
    let mut sum = Sum::<u64>::new(true);
    sum.measure(1, &[kv("a", 1), kv("b", 2)]);
    sum.measure(2, &[kv("b", 2), kv("a", 1)]);
    sum.measure(4, &[kv("a", 1), kv("b", 2), kv("a", 7)]);
    let mut points = Vec::new();
    sum.cumulative(&mut points);
    assert_eq!(points.len(), 1);
    assert_eq!(points[0].value, 7);
    assert_eq!(points[0].attributes.len(), 2);
    assert_eq!(points[0].attributes[0].key, "a");
}

#[test]
fn order_of_measurements_does_not_matter() {
    let mut first = Sum::<u64>::new(true);
    first.measure(3, &[kv("a", 1)]);
    first.measure(u64::MAX, &[kv("a", 1)]);
    let mut second = Sum::<u64>::new(true);
    second.measure(u64::MAX, &[kv("a", 1)]);
    second.measure(3, &[kv("a", 1)]);
    let mut p1 = Vec::new();
    let mut p2 = Vec::new();
    first.cumulative(&mut p1);
    second.cumulative(&mut p2);
    assert_eq!(p1[0].value, 2);
    assert_eq!(p1[0].value, p2[0].value);
}

#[test]
fn new_attribute_sets_beyond_the_limit_overflow() {
    let mut sum = Sum::<u64>::new(true);
    for i in 0..CARDINALITY_LIMIT as i64 {
        sum.measure(1, &[kv("k", i)]);
    }
    sum.measure(5, &[kv("k", -1)]);
    sum.measure(6, &[kv("k", -2)]);
    sum.measure(1, &[kv("k", 0)]);
    let mut points = Vec::new();
    sum.cumulative(&mut points);
    assert_eq!(points.len(), CARDINALITY_LIMIT + 1);
    assert_eq!(points[0].value, 2);
    let overflow = &points[CARDINALITY_LIMIT];
    assert_eq!(overflow.value, 11);
    assert_eq!(overflow.attributes.len(), 1);
    assert_eq!(overflow.attributes[0].key, "otel.metric.overflow");
    assert!(overflow.attributes[0].value.equals(&Value::Bool(true)));
    let mut delta = Sum::<u64>::new(true);
    for i in 0..CARDINALITY_LIMIT as i64 {
        delta.measure(1, &[kv("k", i)]);
    }
    delta.measure(1, &[kv("k", -1)]);
    delta.delta(&mut points);
    assert_eq!(points.len(), CARDINALITY_LIMIT + 1);
    delta.measure(1, &[kv("k", -1)]);
    delta.delta(&mut points);
    assert_eq!(points.len(), 1);
    assert_eq!(points[0].attributes[0].key, "k");
}

#[test]
fn create_new_and_init_existing() {
    let sum = Sum::<u64>::new(true);
    let created = sum.create_new(Temporality::Delta);
    assert!(created.data_points.is_empty());
    assert_eq!(created.temporality, Temporality::Delta);
    assert!(created.is_monotonic);
    let mut existing = data::Sum::<u64> {
        data_points: vec![DataPoint { attributes: vec![], start_time: std::time::SystemTime::now(), time: std::time::SystemTime::now(), value: 4 }],
        temporality: Temporality::Delta,
        is_monotonic: false,
    };
    sum.init_existing(&mut existing, Temporality::Cumulative);
    assert!(existing.data_points.is_empty());
    assert_eq!(existing.temporality, Temporality::Cumulative);
    assert!(existing.is_monotonic);
}

#[test]
fn delta_sums_add_up_to_the_cumulative_sum() {
    let segments: Vec<Vec<(u64, i64)>> = vec![vec![(3, 1), (4, 2)], vec![], vec![(5, 1), (6, 1), (7, 2)]];
    let mut delta = Sum::<u64>::new(true);
    let mut cumulative = Sum::<u64>::new(true);
    let mut totals = [0u64; 3];
    let mut points = Vec::new();
    for segment in &segments {
        for &(v, k) in segment {
            delta.measure(v, &[kv("k", k)]);
            cumulative.measure(v, &[kv("k", k)]);
        }
        delta.delta(&mut points);
        for k in 1..3 {
            totals[k as usize] += value_for(&points, &[kv("k", k)]).unwrap_or(0);
        }
    }
    let mut c = Vec::new();
    cumulative.cumulative(&mut c);
    assert_eq!(value_for(&c, &[kv("k", 1)]), Some(totals[1]));
    assert_eq!(value_for(&c, &[kv("k", 2)]), Some(totals[2]));
    assert_eq!(totals[1], 14);
    assert_eq!(totals[2], 11);
}

#[test]
fn cumulative_sums_never_decrease() {
    let mut sum = Sum::<i64>::new(true);
    sum.measure(2, &[kv("k", 1)]);
    sum.measure(0, &[kv("k", 2)]);
    let mut c1 = Vec::new();
    sum.cumulative(&mut c1);
    sum.measure(5, &[kv("k", 1)]);
    sum.measure(0, &[kv("k", 2)]);
    sum.measure(1, &[kv("k", 3)]);
    let mut c2 = Vec::new();
    sum.cumulative(&mut c2);
    for p in &c1 {
        let later = value_for(&c2, &p.attributes).expect("still reported");
        assert!(later >= p.value);
    }
    assert_eq!(value_for(&c2, &[kv("k", 1)]), Some(7));
    assert_eq!(value_for(&c2, &[kv("k", 2)]), Some(0));
}
