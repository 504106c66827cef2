//! Verified core of an OpenTelemetry metrics and logs SDK: log severities,
//! attribute sets, sum and last-value aggregation over attribute sets, the
//! collector that turns aggregated series into data points, and the batch
//! that hands collected metrics to an exporter.

pub mod attributes;
pub mod collector;
pub mod data;
pub mod exporter;
pub mod gauge;
pub mod number;
pub mod severity;
pub mod stress;
pub mod sum;
pub mod time;
pub mod value_map;
