//! The last-value aggregator and the gauge instrument that records through it.

use crate::attributes::{attrs_view, KeyValue};
use crate::collector::{AggregateTime, AggregationCollect};
use crate::data::{
    self, points_view, with_points, Aggregation, AggregationView, DataPoint, DataPointView, Temporality,
};
use crate::number::Number;
use crate::time::now;
use crate::value_map::{
    collected_points, empty_view, measured, view_wf, Aggregator, ValueMap, ValueMapView,
};
use std::time::SystemTime;
use vstd::prelude::*;

verus! {

/// The last measurement of one time series.
pub struct LastValue<T: Number> {
    value: T,
}

impl<T: Number> Aggregator for LastValue<T> {
    type Value = T;

    closed spec fn current(&self) -> T {
        self.value
    }

    open spec fn initial() -> T {
        T::spec_zero()
    }

    open spec fn combine(current: T, measurement: T) -> T {
        measurement
    }

    fn create() -> (r: Self) {
        LastValue { value: T::zero() }
    }

    fn update(&mut self, measurement: T) {
        self.value = measurement;
    }

    fn clone_and_reset(&mut self) -> (r: Self) {
        let value = self.value;
        self.value = T::zero();
        LastValue { value }
    }

    fn get_value(&self) -> (r: T) {
        self.value
    }
}

/// The kind of aggregation that last values are collected into.
pub struct LastValueAggregation;

impl<T> AggregationCollect<T> for LastValueAggregation {
    open spec fn spec_is_kind(agg: AggregationView<T>) -> bool {
        agg is Gauge
    }

    open spec fn spec_empty(&self, temporality: Temporality) -> AggregationView<T> {
        AggregationView::Gauge(Seq::empty())
    }

    fn is_kind(agg: &Aggregation<T>) -> (r: bool) {
        match agg {
            Aggregation::Gauge(_) => true,
            Aggregation::Sum(_) => false,
        }
    }

    fn create_new(&self, temporality: Temporality, time: &AggregateTime) -> (r: Aggregation<T>) {
        let r = Aggregation::Gauge(data::Gauge { data_points: Vec::new() });
        assert(points_view(Seq::<DataPoint<T>>::empty()) =~= Seq::empty());
        r
    }

    fn reset_existing(&self, existing: &mut Aggregation<T>, temporality: Temporality, time: &AggregateTime) {
        match existing {
            Aggregation::Gauge(g) => {
                g.data_points.clear();
                assert(points_view(g.data_points@) =~= Seq::empty());
            },
            Aggregation::Sum(_) => {},
        }
    }
}

/// A collector of last values fills gauge aggregations that carry exactly
/// the collected points, whatever the temporality.
pub proof fn lemma_last_value_aggregation_fills<T>(
    agg: LastValueAggregation,
    temporality: Temporality,
    points: Seq<DataPointView<T>>,
)
    ensures
        <LastValueAggregation as AggregationCollect<T>>::spec_is_kind(
            <LastValueAggregation as AggregationCollect<T>>::spec_empty(&agg, temporality),
        ),
        with_points(<LastValueAggregation as AggregationCollect<T>>::spec_empty(&agg, temporality), points)
            == AggregationView::Gauge(points),
{
}

/// An instrument that records the current value of something, per attribute set.
pub struct Gauge<T: Number> {
    value_map: ValueMap<LastValue<T>>,
    start: SystemTime,
}

impl<T: Number> Gauge<T> {
    /// The gauge's series are well formed.
    pub closed spec fn wf(&self) -> bool {
        self.value_map.wf()
    }

    /// The last value recorded per attribute set.
    pub closed spec fn series(&self) -> ValueMapView<T> {
        self.value_map@
    }

    /// The time the gauge was created at.
    pub closed spec fn start_time(&self) -> SystemTime {
        self.start
    }

    /// The last values of a well-formed gauge are kept under distinct
    /// attribute sets, at most as many as the cardinality limit plus the
    /// overflow series.
    pub proof fn lemma_series_wf(&self)
        requires
            self.wf(),
        ensures
            view_wf(self.series()),
    {
        self.value_map.lemma_wf_bounds();
    }

    /// A gauge that has recorded nothing.
    pub fn new() -> (r: Self)
        ensures
            r.wf(),
            r.series() == empty_view::<T>(),
    {
        Gauge { value_map: ValueMap::new(), start: now() }
    }

    /// Records the current value for the given attributes.
    pub fn record(&mut self, value: T, attributes: &[KeyValue])
        requires
            old(self).wf(),
        ensures
            final(self).wf(),
            final(self).series() == measured::<LastValue<T>>(old(self).series(), value, attrs_view(attributes@)),
            final(self).start_time() == old(self).start_time(),
    {
        self.value_map.measure(value, attributes);
    }

    /// Replaces the contents of `data_points` with the last value of each
    /// attribute set, all stamped with the same collection time.
    pub fn collect(&self, data_points: &mut Vec<DataPoint<T>>)
        requires
            self.wf(),
        ensures
            exists|t: SystemTime|
                points_view(final(data_points)@) == #[trigger] collected_points(self.series(), self.start_time(), t),
    {
        let t = now();
        self.value_map.collect_readonly(data_points, self.start, t);
        assert(points_view(data_points@) == collected_points(self.series(), self.start_time(), t));
    }
}

} // verus!
