use opentelemetry_sdk::gauge::Gauge;
use opentelemetry_sdk::stress::Test;
use rand::rngs::SmallRng;
use rand::SeedableRng;

const VALUES: [&str; 10] = [
    "value1", "value2", "value3", "value4", "value5", "value6", "value7", "value8", "value9", "value10",
];

#[test]
fn run_records_one_under_three_drawn_attributes() {
    let mut test = Test { gauges: (0..5).map(|_| Gauge::<u64>::new()).collect(), values: VALUES };
    let mut rng = SmallRng::seed_from_u64(7);
    for _ in 0..50 {
        test.run(&mut rng);
    }
    let mut points = Vec::new();
    test.gauges[0].collect(&mut points);
    assert!(!points.is_empty());
    assert!(points.len() <= 50);
    for p in &points {
        assert_eq!(p.value, 1);
        assert_eq!(p.attributes.len(), 3);
        for (i, a) in p.attributes.iter().enumerate() {
            assert_eq!(a.key, format!("attribute{}", i + 1));
            match &a.value {
                opentelemetry_sdk::attributes::Value::String(v) => assert!(VALUES.contains(&v.as_str())),
                _ => panic!("not a string"),
            }
        }
    }
    let mut other = Vec::new();
    test.gauges[1].collect(&mut other);
    assert!(other.is_empty());
}

#[test]
fn record_drawn_records_under_the_chosen_values() {
    let mut test = Test { gauges: (0..2).map(|_| Gauge::<u64>::new()).collect(), values: VALUES };
    test.record_drawn(0, 9, 4);
    test.record_drawn(0, 9, 4);
    let mut points = Vec::new();
    test.gauges[0].collect(&mut points);
    assert_eq!(points.len(), 1);
    assert_eq!(points[0].value, 1);
    let expected = ["value1", "value10", "value5"];
    for (a, e) in points[0].attributes.iter().zip(expected.iter()) {
        match &a.value {
            opentelemetry_sdk::attributes::Value::String(v) => assert_eq!(v, e),
            _ => panic!("not a string"),
        }
    }
}
