use opentelemetry_sdk::data::{
    Aggregation, Gauge, InstrumentationScope, Metric, MetricData, Resource, ScopeMetrics, Temporality,
};
use opentelemetry_sdk::exporter::{MetricBatch, OTelSdkError, OTelSdkResult, PushMetricExporter};
use std::sync::Mutex;
use std::time::Duration;

fn scope(name: &str) -> InstrumentationScope {
    InstrumentationScope { name: name.to_string(), version: None, schema_url: None, attributes: vec![] }
}

fn metric(name: &str) -> Metric {
    Metric {
        name: name.to_string(),
        description: String::new(),
        unit: String::new(),
        data: MetricData::U64(Aggregation::Gauge(Gauge { data_points: vec![] })),
    }
}

#[test]
fn batch_yields_every_metric_with_its_scope_in_order() {
    let batches = vec![
        ScopeMetrics { scope: scope("s1"), metrics: vec![metric("m1"), metric("m2")] },
        ScopeMetrics { scope: scope("s2"), metrics: vec![] },
        ScopeMetrics { scope: scope("s3"), metrics: vec![metric("m3")] },
    ];
    let mut batch = MetricBatch::new(&batches);
    let mut seen = Vec::new();
    while let Some((m, s)) = batch.next() {
        seen.push((m.name.clone(), s.name.clone()));
    }
    assert_eq!(
        seen,
        vec![
            ("m1".to_string(), "s1".to_string()),
            ("m2".to_string(), "s1".to_string()),
            ("m3".to_string(), "s3".to_string())
        ]
    );
    assert!(batch.next().is_none());
}

#[test]
fn empty_batch_yields_nothing() {
    let batches: Vec<ScopeMetrics> = vec![ScopeMetrics { scope: scope("s"), metrics: vec![] }];
    let mut batch = MetricBatch::new(&batches);
    assert!(batch.next().is_none());
    let none: Vec<ScopeMetrics> = vec![];
    assert!(MetricBatch::new(&none).next().is_none());
}

#[derive(Debug)]
struct Recorder {
    timeouts: Mutex<Vec<Duration>>,
}

impl PushMetricExporter for Recorder {
    fn export(&self, batch: MetricBatch<'_>) -> OTelSdkResult {
        let mut batch = batch;
        match batch.next() {
            Some(_) => Ok(()),
            None => Err(OTelSdkError::InternalFailure("empty".to_string())),
        }
    }

    fn force_flush(&self) -> OTelSdkResult {
        Ok(())
    }

    fn shutdown_with_timeout(&self, timeout: Duration) -> OTelSdkResult {
        self.timeouts.lock().unwrap().push(timeout);
        Err(OTelSdkError::Timeout(timeout))
    }

    fn temporality(&self) -> Temporality {
        Temporality::Cumulative
    }
}

#[test]
fn shutdown_uses_a_five_second_timeout() {
    let mut exporter = Recorder { timeouts: Mutex::new(vec![]) };
    match exporter.shutdown() {
        Err(OTelSdkError::Timeout(t)) => assert_eq!(t, Duration::from_secs(5)),
        _ => panic!("unexpected result"),
    }
    assert_eq!(*exporter.timeouts.lock().unwrap(), vec![Duration::from_secs(5)]);
    exporter.set_resource(&Resource { attributes: vec![], schema_url: None });
    assert!(exporter.force_flush().is_ok());
    let batches = vec![ScopeMetrics { scope: scope("s"), metrics: vec![metric("m")] }];
    assert!(exporter.export(MetricBatch::new(&batches)).is_ok());
    assert!(exporter.export(MetricBatch::new(&[])).is_err());
}
