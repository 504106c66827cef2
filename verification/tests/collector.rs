use opentelemetry_sdk::attributes::{KeyValue, Value};
use opentelemetry_sdk::collector::{create_aggregation, AttributeSetFilter, CumulativeValueMap, DeltaValueMap};
use opentelemetry_sdk::data::{self, Aggregation, DataPoint, Gauge, Temporality};
use opentelemetry_sdk::gauge::{LastValue, LastValueAggregation};
use opentelemetry_sdk::sum::{Increment, SumAggregation};

fn kv(key: &str, value: i64) -> KeyValue {
    KeyValue::new(key.to_string(), Value::I64(value))
}

fn sum_of(agg: &Aggregation<u64>) -> &data::Sum<u64> {
    match agg {
        Aggregation::Sum(s) => s,
        Aggregation::Gauge(_) => panic!("not a sum"),
    }
}

#[test]
fn delta_collector_creates_a_new_sum_and_resets() {
    let mut c = create_aggregation::<Increment<u64>, SumAggregation, DeltaValueMap<Increment<u64>>>(
        SumAggregation { monotonic: true },
        DeltaValueMap::new(),
        AttributeSetFilter::new(None),
    );
    c.measure(2, &[kv("a", 1)]);
    c.measure(3, &[kv("a", 1)]);
    let (n, created) = c.collect(None);
    assert_eq!(n, 1);
    let created = created.expect("a new aggregation");
    let s = sum_of(&created);
    assert_eq!(s.temporality, Temporality::Delta);
    assert!(s.is_monotonic);
    assert_eq!(s.data_points[0].value, 5);
    let (n, created) = c.collect(None);
    assert_eq!(n, 0);
    assert!(sum_of(created.as_ref().unwrap()).data_points.is_empty());
}

#[test]
fn delta_windows_follow_each_other() {
    let mut c = create_aggregation::<Increment<u64>, SumAggregation, DeltaValueMap<Increment<u64>>>(
        SumAggregation { monotonic: false },
        DeltaValueMap::new(),
        AttributeSetFilter::new(None),
    );
    c.measure(1, &[]);
    let (_, first) = c.collect(None);
    c.measure(1, &[]);
    let (_, second) = c.collect(None);
    let first = sum_of(first.as_ref().unwrap());
    let second = sum_of(second.as_ref().unwrap());
    assert_eq!(second.data_points[0].start_time, first.data_points[0].time);
}

#[test]
fn cumulative_collector_reuses_an_existing_sum() {
    let mut c = create_aggregation::<Increment<u64>, SumAggregation, CumulativeValueMap<Increment<u64>>>(
        SumAggregation { monotonic: false },
        CumulativeValueMap::new(),
        AttributeSetFilter::new(None),
    );
    c.measure(4, &[kv("a", 1)]);
    let mut existing = Aggregation::Sum(data::Sum {
        data_points: vec![],
        temporality: Temporality::Delta,
        is_monotonic: true,
    });
    let (n, created) = c.collect(Some(&mut existing));
    assert_eq!(n, 1);
    assert!(created.is_none());
    let s = sum_of(&existing);
    assert_eq!(s.temporality, Temporality::Cumulative);
    assert!(!s.is_monotonic);
    assert_eq!(s.data_points[0].value, 4);
    c.measure(1, &[kv("a", 1)]);
    let (n, _) = c.collect(Some(&mut existing));
    assert_eq!(n, 1);
    let s = sum_of(&existing);
    assert_eq!(s.data_points[0].value, 5);
    let start = s.data_points[0].start_time;
    let (_, _) = c.collect(Some(&mut existing));
    assert_eq!(sum_of(&existing).data_points[0].start_time, start);
}

#[test]
fn a_destination_of_another_kind_is_left_alone() {
    let mut c = create_aggregation::<Increment<u64>, SumAggregation, CumulativeValueMap<Increment<u64>>>(
        SumAggregation { monotonic: true },
        CumulativeValueMap::new(),
        AttributeSetFilter::new(None),
    );
    c.measure(4, &[]);
    let now = std::time::SystemTime::now();
    let mut gauge = Aggregation::Gauge(Gauge {
        data_points: vec![DataPoint { attributes: vec![], start_time: now, time: now, value: 9 }],
    });
    let (n, created) = c.collect(Some(&mut gauge));
    assert_eq!(n, 1);
    assert_eq!(sum_of(created.as_ref().unwrap()).data_points[0].value, 4);
    match &gauge {
        Aggregation::Gauge(g) => assert_eq!(g.data_points[0].value, 9),
        Aggregation::Sum(_) => panic!("changed"),
    }
}

#[test]
fn filter_keeps_allowed_keys_in_order() {
    let filter = AttributeSetFilter::new(Some(vec!["b".to_string(), "a".to_string()]));
    let kept = filter.apply(&[kv("a", 1), kv("c", 2), kv("b", 3), kv("a", 4)]);
    assert_eq!(kept.len(), 3);
    assert_eq!(kept[0].key, "a");
    assert_eq!(kept[1].key, "b");
    assert_eq!(kept[2].key, "a");
    let again = filter.apply(&kept);
    assert_eq!(again.len(), 3);
    let all = AttributeSetFilter::new(None).apply(&[kv("c", 2)]);
    assert_eq!(all.len(), 1);
    let none = AttributeSetFilter::new(Some(vec![])).apply(&[kv("c", 2)]);
    assert!(none.is_empty());
}

#[test]
fn collector_filters_attributes_before_aggregating() {
    let mut c = create_aggregation::<Increment<i64>, SumAggregation, CumulativeValueMap<Increment<i64>>>(
        SumAggregation { monotonic: false },
        CumulativeValueMap::new(),
        AttributeSetFilter::new(Some(vec!["a".to_string()])),
    );
    c.measure(2, &[kv("a", 1), kv("b", 1)]);
    c.measure(-5, &[kv("a", 1), kv("b", 2)]);
    c.measure(7, &[kv("b", 3)]);
    let (n, created) = c.collect(None);
    assert_eq!(n, 2);
    let agg = created.unwrap();
    let s = match &agg {
        Aggregation::Sum(s) => s,
        Aggregation::Gauge(_) => panic!("not a sum"),
    };
    assert!(s.data_points[0].attributes.is_empty());
    assert_eq!(s.data_points[0].value, 7);
    assert_eq!(s.data_points[1].value, -3);
    assert_eq!(s.data_points[1].attributes.len(), 1);
}

#[test]
fn last_value_collector_fills_gauges() {
    let mut c = create_aggregation::<LastValue<u64>, LastValueAggregation, CumulativeValueMap<LastValue<u64>>>(
        LastValueAggregation,
        CumulativeValueMap::new(),
        AttributeSetFilter::new(None),
    );
    c.measure(4, &[kv("a", 1)]);
    c.measure(2, &[kv("a", 1)]);
    let mut sum = Aggregation::Sum(data::Sum { data_points: vec![], temporality: Temporality::Delta, is_monotonic: true });
    let (n, created) = c.collect(Some(&mut sum));
    assert_eq!(n, 1);
    match created {
        Some(Aggregation::Gauge(g)) => assert_eq!(g.data_points[0].value, 2),
        _ => panic!("expected a new gauge"),
    }
    let mut gauge = Aggregation::Gauge(Gauge { data_points: vec![] });
    let (n, created) = c.collect(Some(&mut gauge));
    assert_eq!(n, 1);
    assert!(created.is_none());
    match &gauge {
        Aggregation::Gauge(g) => assert_eq!(g.data_points[0].value, 2),
        Aggregation::Sum(_) => panic!("changed kind"),
    }
}
