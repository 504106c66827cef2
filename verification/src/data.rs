//! The data that a collection produces: data points and the aggregations
//! that hold them.

use crate::attributes::{attrs_view, AttributeView, KeyValue};
use std::time::SystemTime;
use vstd::prelude::*;

verus! {

/// Defines the window that an aggregation was calculated over.
#[derive(Debug, Clone, Copy, PartialEq, Eq)]
pub enum Temporality {
    /// A measurement interval that continues to expand forward in time from a
    /// starting point.
    Cumulative,
    /// A measurement interval that resets each cycle.
    Delta,
    /// Delta for synchronous counters and histograms, cumulative for the
    /// rest.
    LowMemory,
}

/// A single data point in a time series.
#[derive(Debug)]
pub struct DataPoint<T> {
    /// The attributes that identify the time series.
    pub attributes: Vec<KeyValue>,
    /// The time the aggregation of this data point started.
    pub start_time: SystemTime,
    /// The time the data point was collected.
    pub time: SystemTime,
    /// The value of this data point.
    pub value: T,
}

/// A data point taken by its attributes' views, its two time stamps and its value.
pub type DataPointView<T> = (Seq<AttributeView>, SystemTime, SystemTime, T);

impl<T> View for DataPoint<T> {
    type V = DataPointView<T>;

    open spec fn view(&self) -> DataPointView<T> {
        (attrs_view(self.attributes@), self.start_time, self.time, self.value)
    }
}

/// The views of a list of data points, in order.
pub open spec fn points_view<T>(s: Seq<DataPoint<T>>) -> Seq<DataPointView<T>> {
    s.map_values(|p: DataPoint<T>| p@)
}

/// The sum of all measurements of values from an instrument.
#[derive(Debug)]
pub struct Sum<T> {
    /// Individual aggregated measurements with unique attributes.
    pub data_points: Vec<DataPoint<T>>,
    /// Describes if the aggregation is reported as the change from the last
    /// report time, or the cumulative changes since a fixed start time.
    pub temporality: Temporality,
    /// Whether this aggregation only increases or decreases.
    pub is_monotonic: bool,
}

/// A measurement of the current value of an instrument.
#[derive(Debug)]
pub struct Gauge<T> {
    /// Individual last-value measurements with unique attributes.
    pub data_points: Vec<DataPoint<T>>,
}

/// The aggregated data of a metric.
#[derive(Debug)]
pub enum Aggregation<T> {
    /// A sum of measurements.
    Sum(Sum<T>),
    /// The last value of measurements.
    Gauge(Gauge<T>),
}

/// What an aggregation holds: its kind, its data points and, for a sum, its
/// temporality and monotonicity.
pub enum AggregationView<T> {
    Sum(Seq<DataPointView<T>>, Temporality, bool),
    Gauge(Seq<DataPointView<T>>),
}

impl<T> View for Aggregation<T> {
    type V = AggregationView<T>;

    open spec fn view(&self) -> AggregationView<T> {
        match self {
            Aggregation::Sum(s) => AggregationView::Sum(points_view(s.data_points@), s.temporality, s.is_monotonic),
            Aggregation::Gauge(g) => AggregationView::Gauge(points_view(g.data_points@)),
        }
    }
}

/// The aggregation `a` with its data points replaced by `points`.
pub open spec fn with_points<T>(a: AggregationView<T>, points: Seq<DataPointView<T>>) -> AggregationView<T> {
    match a {
        AggregationView::Sum(_, temporality, is_monotonic) => AggregationView::Sum(points, temporality, is_monotonic),
        AggregationView::Gauge(_) => AggregationView::Gauge(points),
    }
}

/// The data points of the aggregation `a`.
pub open spec fn points_of<T>(a: AggregationView<T>) -> Seq<DataPointView<T>> {
    match a {
        AggregationView::Sum(points, _, _) => points,
        AggregationView::Gauge(points) => points,
    }
}

impl<T> Aggregation<T> {
    /// Replaces the data points of the aggregation, whatever its kind.
    pub fn set_points(&mut self, points: Vec<DataPoint<T>>)
        ensures
            final(self)@ == with_points(old(self)@, points_view(points@)),
    {
        match self {
            Aggregation::Sum(s) => {
                s.data_points = points;
            },
            Aggregation::Gauge(g) => {
                g.data_points = points;
            },
        }
    }

    /// The number of data points of the aggregation.
    pub fn points_len(&self) -> (r: usize)
        ensures
            r == points_of(self@).len(),
    {
        match self {
            Aggregation::Sum(s) => s.data_points.len(),
            Aggregation::Gauge(g) => g.data_points.len(),
        }
    }
}


/// The aggregated data of a metric, in the numeric type it was measured in.
#[derive(Debug)]
pub enum MetricData {
    /// Data of an instrument measured in unsigned integers.
    U64(Aggregation<u64>),
    /// Data of an instrument measured in signed integers.
    I64(Aggregation<i64>),
}

/// A collection of one or more aggregated time series from an instrument.
#[derive(Debug)]
pub struct Metric {
    /// The name of the instrument that created this data.
    pub name: String,
    /// The description of the instrument, which can be used in documentation.
    pub description: String,
    /// The unit in which the instrument reports.
    pub unit: String,
    /// The aggregated data from an instrument.
    pub data: MetricData,
}

/// The instrumentation scope that produced a set of metrics: a library or
/// a component of one.
#[derive(Debug)]
pub struct InstrumentationScope {
    /// The name of the scope.
    pub name: String,
    /// The version of the scope, if known.
    pub version: Option<String>,
    /// The schema URL of the scope, if known.
    pub schema_url: Option<String>,
    /// The attributes of the scope.
    pub attributes: Vec<KeyValue>,
}

/// A collection of metrics produced by one instrumentation scope.
#[derive(Debug)]
pub struct ScopeMetrics {
    /// The instrumentation scope that the metrics were produced with.
    pub scope: InstrumentationScope,
    /// The list of aggregations created by the scope.
    pub metrics: Vec<Metric>,
}

/// An entity that produces telemetry, described by its attributes.
#[derive(Debug)]
pub struct Resource {
    /// The attributes that describe the entity.
    pub attributes: Vec<KeyValue>,
    /// The schema URL of the attributes, if known.
    pub schema_url: Option<String>,
}

} // verus!
