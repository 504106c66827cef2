//! The sum aggregator: summarizes the measurements of each time series as
//! their arithmetic sum.

use crate::attributes::{attrs_view, same_attribute_set, AttributeView, KeyValue};
use crate::collector::{AggregateTime, AggregationCollect};
use crate::data::{
    self, points_of, points_view, with_points, Aggregation, AggregationView, DataPoint, DataPointView,
    Temporality,
};
use crate::number::Number;
use crate::time::now;
use crate::value_map::{
    collected_points, empty_view, fold_measurements, lemma_collected_points_are_summaries, lemma_fold_measurements, lemma_measure_read_back,
    lemma_measured_all_summaries, lemma_measured_sets, lemma_measured_sets_concat,
    lemma_recorded_attributes_stable, measured, measured_all, measured_sets, recorded_attributes,
    lemma_summary_same_set, series_sets, summary_of, touches, view_wf, Aggregator, ValueMap, ValueMapView, CARDINALITY_LIMIT,
};
use std::time::SystemTime;
use vstd::prelude::*;

verus! {

/// The running sum of the measurements of one time series.
pub struct Increment<T: Number> {
    value: T,
}

impl<T: Number> Aggregator for Increment<T> {
    type Value = T;

    closed spec fn current(&self) -> T {
        self.value
    }

    open spec fn initial() -> T {
        T::spec_zero()
    }

    open spec fn combine(current: T, measurement: T) -> T {
        T::spec_add(current, measurement)
    }

    fn create() -> (r: Self) {
        Increment { value: T::zero() }
    }

    fn update(&mut self, measurement: T) {
        self.value = self.value.add_wrapping(measurement);
    }

    fn clone_and_reset(&mut self) -> (r: Self) {
        let value = self.value;
        self.value = T::zero();
        Increment { value }
    }

    fn get_value(&self) -> (r: T) {
        self.value
    }
}

/// Summarizes a set of measurements made as their arithmetic sum.
pub struct Sum<T: Number> {
    value_map: ValueMap<Increment<T>>,
    monotonic: bool,
    start: SystemTime,
}

impl<T: Number> Sum<T> {
    /// The aggregator's series are well formed.
    pub closed spec fn wf(&self) -> bool {
        self.value_map.wf()
    }

    /// The sums per attribute set since the start of the current aggregation cycle.
    pub closed spec fn series(&self) -> ValueMapView<T> {
        self.value_map@
    }

    /// The start of the current aggregation cycle.
    pub closed spec fn start_time(&self) -> SystemTime {
        self.start
    }

    /// Whether the sum only increases.
    pub closed spec fn is_monotonic(&self) -> bool {
        self.monotonic
    }

    /// The sums of a well-formed aggregator are kept under distinct attribute
    /// sets, at most as many as the cardinality limit plus the overflow series.
    pub proof fn lemma_series_wf(&self)
        requires
            self.wf(),
        ensures
            view_wf(self.series()),
    {
        self.value_map.lemma_wf_bounds();
    }

    /// Returns an aggregator that summarizes a set of measurements as their
    /// arithmetic sum.
    ///
    /// Each sum is scoped by attributes and the aggregation cycle the measurements
    /// were made in.
    pub fn new(monotonic: bool) -> (r: Self)
        ensures
            r.wf(),
            r.series() == empty_view::<T>(),
            r.is_monotonic() == monotonic,
    {
        Sum { value_map: ValueMap::new(), monotonic, start: now() }
    }

    /// Adds a measurement to the sum of its attribute set.
    pub fn measure(&mut self, measurement: T, attrs: &[KeyValue])
        requires
            old(self).wf(),
        ensures
            final(self).wf(),
            final(self).series() == measured::<Increment<T>>(old(self).series(), measurement, attrs_view(attrs@)),
            final(self).start_time() == old(self).start_time(),
            final(self).is_monotonic() == old(self).is_monotonic(),
    {
        self.value_map.measure(measurement, attrs);
    }

    /// Replaces the contents of `data_points` with the sums of the cycle that
    /// ends now, and starts a new cycle: the points run from the start of
    /// the ended cycle to the start of the new one, and all sums start over.
    pub fn delta(&mut self, data_points: &mut Vec<DataPoint<T>>)
        requires
            old(self).wf(),
        ensures
            final(self).wf(),
            points_view(final(data_points)@) == collected_points(
                old(self).series(),
                old(self).start_time(),
                final(self).start_time(),
            ),
            final(self).series() == empty_view::<T>(),
            final(self).is_monotonic() == old(self).is_monotonic(),
    {
        let t = now();
        let prev_start = self.start;
        self.start = t;
        self.value_map.collect_and_reset(data_points, prev_start, t);
    }

    /// Replaces the contents of `data_points` with the sums since the start
    /// of the current cycle, all stamped with the same collection time, and
    /// leaves the aggregator as it is.
    pub fn cumulative(&self, data_points: &mut Vec<DataPoint<T>>)
        requires
            self.wf(),
        ensures
            exists|t: SystemTime|
                points_view(final(data_points)@) == #[trigger] collected_points(self.series(), self.start_time(), t),
    {
        let t = now();
        let prev_start = self.start;
        self.value_map.collect_readonly(data_points, prev_start, t);
        assert(points_view(data_points@) == collected_points(self.series(), self.start_time(), t));
    }

    /// A new, empty sum aggregation of the given temporality.
    pub fn create_new(&self, temporality: Temporality) -> (r: data::Sum<T>)
        ensures
            r.data_points@.len() == 0,
            r.temporality == temporality,
            r.is_monotonic == self.is_monotonic(),
    {
        data::Sum { data_points: Vec::new(), temporality, is_monotonic: self.monotonic }
    }

    /// Prepares an existing sum aggregation for reuse: its points are
    /// cleared and its temporality and monotonicity set.
    pub fn init_existing(&self, existing: &mut data::Sum<T>, temporality: Temporality)
        ensures
            final(existing).data_points@.len() == 0,
            final(existing).temporality == temporality,
            final(existing).is_monotonic == self.is_monotonic(),
    {
        existing.is_monotonic = self.monotonic;
        existing.temporality = temporality;
        existing.data_points.clear();
    }
}


/// The kind of aggregation that sums are collected into.
pub struct SumAggregation {
    /// Whether the sums only increase.
    pub monotonic: bool,
}

impl<T> AggregationCollect<T> for SumAggregation {
    open spec fn spec_is_kind(agg: AggregationView<T>) -> bool {
        agg is Sum
    }

    open spec fn spec_empty(&self, temporality: Temporality) -> AggregationView<T> {
        AggregationView::Sum(Seq::empty(), temporality, self.monotonic)
    }

    fn is_kind(agg: &Aggregation<T>) -> (r: bool) {
        match agg {
            Aggregation::Sum(_) => true,
            Aggregation::Gauge(_) => false,
        }
    }

    fn create_new(&self, temporality: Temporality, time: &AggregateTime) -> (r: Aggregation<T>) {
        let r = Aggregation::Sum(data::Sum { data_points: Vec::new(), temporality, is_monotonic: self.monotonic });
        assert(points_view(Seq::<DataPoint<T>>::empty()) =~= Seq::empty());
        r
    }

    fn reset_existing(&self, existing: &mut Aggregation<T>, temporality: Temporality, time: &AggregateTime) {
        match existing {
            Aggregation::Sum(s) => {
                s.is_monotonic = self.monotonic;
                s.temporality = temporality;
                s.data_points.clear();
                assert(points_view(s.data_points@) =~= Seq::empty());
            },
            Aggregation::Gauge(_) => {},
        }
    }
}

/// A collector of sums fills sum aggregations that carry the collected
/// points, the temporality of the collection, and the monotonicity the sum
/// aggregation was configured with, whatever the temporality: a monotonic
/// counter is reported as monotonic by delta and cumulative collections alike.
pub proof fn lemma_sum_aggregation_fills<T>(
    agg: SumAggregation,
    temporality: Temporality,
    points: Seq<DataPointView<T>>,
)
    ensures
        <SumAggregation as AggregationCollect<T>>::spec_is_kind(
            <SumAggregation as AggregationCollect<T>>::spec_empty(&agg, temporality),
        ),
        with_points(<SumAggregation as AggregationCollect<T>>::spec_empty(&agg, temporality), points)
            == AggregationView::Sum(points, temporality, agg.monotonic),
        points_of(<SumAggregation as AggregationCollect<T>>::spec_empty(&agg, temporality)).len() == 0,
{
}

/// The order of two measurements does not matter to a sum: measuring `a`
/// then `b` with the same attributes leaves every attribute set with the
/// same sum as measuring `b` then `a`.
pub proof fn lemma_sum_order_irrelevant<T: Number>(vm: ValueMapView<T>, a: T, b: T, attrs: Seq<AttributeView>)
    requires
        view_wf(vm),
    ensures
        forall|q: Seq<AttributeView>|
            #[trigger] summary_of(
                measured::<Increment<T>>(measured::<Increment<T>>(vm, a, attrs), b, attrs),
                q,
            ) == summary_of(measured::<Increment<T>>(measured::<Increment<T>>(vm, b, attrs), a, attrs), q),
{
    let key = recorded_attributes(vm, attrs);
    let va = measured::<Increment<T>>(vm, a, attrs);
    let vb = measured::<Increment<T>>(vm, b, attrs);
    let vab = measured::<Increment<T>>(va, b, attrs);
    let vba = measured::<Increment<T>>(vb, a, attrs);
    lemma_measure_read_back::<Increment<T>>(vm, a, attrs);
    lemma_measure_read_back::<Increment<T>>(vm, b, attrs);
    lemma_recorded_attributes_stable::<Increment<T>>(vm, a, attrs);
    lemma_recorded_attributes_stable::<Increment<T>>(vm, b, attrs);
    lemma_measure_read_back::<Increment<T>>(va, b, attrs);
    lemma_measure_read_back::<Increment<T>>(vb, a, attrs);
    let ka = recorded_attributes(va, attrs);
    let kb = recorded_attributes(vb, attrs);
    let s = match summary_of(vm, key) {
        Some(v) => v,
        None => T::spec_zero(),
    };
    assert(summary_of(va, ka) == Some(T::spec_add(s, a)));
    assert(summary_of(vb, kb) == Some(T::spec_add(s, b)));
    T::lemma_add_associative(s, a, b);
    T::lemma_add_associative(s, b, a);
    T::lemma_add_commutative(a, b);
    assert forall|q: Seq<AttributeView>| #[trigger] summary_of(vab, q) == summary_of(vba, q) by {
        if same_attribute_set(q, key) {
            assert(same_attribute_set(q, ka));
            assert(same_attribute_set(q, kb));
        } else {
            assert(!same_attribute_set(q, ka));
            assert(!same_attribute_set(q, kb));
        }
    }
}

/// Folding sums over measurements adds their total to the start value.
pub proof fn lemma_fold_sum<T: Number>(current: T, ms: Seq<(T, Seq<AttributeView>)>, q: Seq<AttributeView>)
    ensures
        fold_measurements::<Increment<T>>(current, ms, q) == T::spec_add(
            current,
            fold_measurements::<Increment<T>>(T::spec_zero(), ms, q),
        ),
    decreases ms.len(),
{
    T::lemma_add_zero(current);
    if ms.len() > 0 {
        let m = ms[0].0;
        let rest = ms.drop_first();
        if same_attribute_set(ms[0].1, q) {
            lemma_fold_sum::<T>(T::spec_add(current, m), rest, q);
            lemma_fold_sum::<T>(T::spec_add(T::spec_zero(), m), rest, q);
            let f = fold_measurements::<Increment<T>>(T::spec_zero(), rest, q);
            T::lemma_add_zero(m);
            T::lemma_add_commutative(T::spec_zero(), m);
            T::lemma_add_associative(current, m, f);
        } else {
            lemma_fold_sum::<T>(current, rest, q);
        }
    }
}

/// The sum an aggregation holds for the attribute set of `q`, or zero
/// where it holds none.
pub open spec fn sum_or_zero<T: Number>(vm: ValueMapView<T>, q: Seq<AttributeView>) -> T {
    match summary_of(vm, q) {
        Some(v) => v,
        None => T::spec_zero(),
    }
}

/// The measurements of all segments, segment after segment.
pub open spec fn flatten_segments<T>(segments: Seq<Seq<(T, Seq<AttributeView>)>>) -> Seq<(T, Seq<AttributeView>)>
    decreases segments.len(),
{
    if segments.len() == 0 {
        Seq::empty()
    } else {
        segments[0] + flatten_segments(segments.drop_first())
    }
}

/// The total of the sums that delta collections report for the attribute
/// set of `q`, one collection after the measurements of each segment.
pub open spec fn sum_of_deltas<T: Number>(segments: Seq<Seq<(T, Seq<AttributeView>)>>, q: Seq<AttributeView>) -> T
    decreases segments.len(),
{
    if segments.len() == 0 {
        T::spec_zero()
    } else {
        T::spec_add(
            sum_or_zero(measured_all::<Increment<T>>(empty_view::<T>(), segments[0]), q),
            sum_of_deltas(segments.drop_first(), q),
        )
    }
}

/// The sum that a fresh aggregation reports for the attribute set of `q`
/// after the measurements of `ms`, under the cardinality limit, is the
/// total of the measurements made with that set.
proof fn lemma_fresh_sum<T: Number>(ms: Seq<(T, Seq<AttributeView>)>, q: Seq<AttributeView>)
    requires
        measured_sets(ms).len() <= CARDINALITY_LIMIT,
    ensures
        sum_or_zero(measured_all::<Increment<T>>(empty_view::<T>(), ms), q) == fold_measurements::<Increment<T>>(
            T::spec_zero(),
            ms,
            q,
        ),
{
    let e = empty_view::<T>();
    assert(series_sets(e.series).to_set().union(measured_sets(ms)) =~= measured_sets(ms));
    lemma_measured_all_summaries::<Increment<T>>(e, ms);
    lemma_fold_measurements::<Increment<T>>(T::spec_zero(), ms, Seq::empty(), q);
    assert(summary_of(measured_all::<Increment<T>>(e, ms), q) == if summary_of(e, q) is Some || touches(ms, q) {
        Some(fold_measurements::<Increment<T>>(T::spec_zero(), ms, q))
    } else {
        None
    });
}

/// Delta sums partition the cumulative sum: where one aggregation is
/// collected as deltas after each segment of measurements and another,
/// fed the same measurements, is collected cumulatively at the end, the
/// delta sums reported for each attribute set add up to the cumulative sum
/// for it. This holds while the measured attribute sets stay within the
/// cardinality limit.
pub proof fn lemma_deltas_partition_cumulative<T: Number>(
    segments: Seq<Seq<(T, Seq<AttributeView>)>>,
    q: Seq<AttributeView>,
)
    requires
        measured_sets(flatten_segments(segments)).len() <= CARDINALITY_LIMIT,
    ensures
        sum_of_deltas(segments, q) == sum_or_zero(
            measured_all::<Increment<T>>(empty_view::<T>(), flatten_segments(segments)),
            q,
        ),
    decreases segments.len(),
{
    let all = flatten_segments(segments);
    lemma_fresh_sum::<T>(all, q);
    if segments.len() == 0 {
        T::lemma_add_zero(T::spec_zero());
        assert(!touches(all, q));
        lemma_fold_measurements::<Increment<T>>(T::spec_zero(), all, Seq::empty(), q);
    } else {
        let first = segments[0];
        let rest = flatten_segments(segments.drop_first());
        lemma_measured_sets(all);
        lemma_measured_sets_concat(first, rest);
        vstd::set_lib::lemma_len_subset(measured_sets(first), measured_sets(all));
        vstd::set_lib::lemma_len_subset(measured_sets(rest), measured_sets(all));
        lemma_deltas_partition_cumulative::<T>(segments.drop_first(), q);
        lemma_fresh_sum::<T>(first, q);
        lemma_fresh_sum::<T>(rest, q);
        lemma_fold_measurements::<Increment<T>>(T::spec_zero(), first, rest, q);
        lemma_fold_sum::<T>(fold_measurements::<Increment<T>>(T::spec_zero(), first, q), rest, q);
    }
}

/// The total of the values of the measurements of `ms`.
pub open spec fn total_u64(ms: Seq<(u64, Seq<AttributeView>)>) -> int
    decreases ms.len(),
{
    if ms.len() == 0 {
        0
    } else {
        ms[0].0 + total_u64(ms.drop_first())
    }
}

/// Cumulative sums never decrease: after further measurements that are
/// not negative and do not make any sum exceed the largest `u64`, every
/// attribute set that had a sum still has one, at least as large.
pub proof fn lemma_cumulative_never_decreases_u64(vm: ValueMapView<u64>, ms: Seq<(u64, Seq<AttributeView>)>)
    requires
        view_wf(vm),
        forall|i: int| 0 <= i < ms.len() ==> (#[trigger] ms[i]).0 >= 0,
        total_u64(ms) <= u64::MAX,
        forall|q: Seq<AttributeView>|
            #[trigger] summary_of(vm, q) matches Some(v) ==> v + total_u64(ms) <= u64::MAX,
    ensures
        view_wf(measured_all::<Increment<u64>>(vm, ms)),
        forall|q: Seq<AttributeView>|
            #[trigger] summary_of(vm, q) matches Some(v) ==> (summary_of(
                measured_all::<Increment<u64>>(vm, ms),
                q,
            ) matches Some(w) && v <= w),
    decreases ms.len(),
{
    if ms.len() > 0 {
        let m = ms[0].0;
        let attrs = ms[0].1;
        let rest = ms.drop_first();
        let vm1 = measured::<Increment<u64>>(vm, m, attrs);
        let key = recorded_attributes(vm, attrs);
        assert(ms[0].0 >= 0);
        assert forall|i: int| 0 <= i < rest.len() implies (#[trigger] rest[i]).0 >= 0 by {
            assert(rest[i] == ms[i + 1]);
        }
        lemma_total_u64_non_negative(rest);
        lemma_measure_read_back::<Increment<u64>>(vm, m, attrs);
        let old_key = sum_or_zero(vm, key);
        assert(old_key + total_u64(ms) <= u64::MAX) by {
            if summary_of(vm, key) is Some {
                assert(summary_of(vm, key) matches Some(v) ==> v + total_u64(ms) <= u64::MAX);
            }
        }
        assert forall|q: Seq<AttributeView>|
            #[trigger] summary_of(vm1, q) matches Some(w) ==> w + total_u64(rest) <= u64::MAX by {
            if !same_attribute_set(q, key) {
                assert(summary_of(vm1, q) == summary_of(vm, q));
                if summary_of(vm, q) is Some {
                    assert(summary_of(vm, q) matches Some(v) ==> v + total_u64(ms) <= u64::MAX);
                }
            }
        }
        lemma_cumulative_never_decreases_u64(vm1, rest);
        assert forall|q: Seq<AttributeView>|
            #[trigger] summary_of(vm, q) matches Some(v) ==> (summary_of(
                measured_all::<Increment<u64>>(vm, ms),
                q,
            ) matches Some(w) && v <= w) by {
            assert(measured_all::<Increment<u64>>(vm, ms) == measured_all::<Increment<u64>>(vm1, rest));
            if summary_of(vm, q) is Some {
                if same_attribute_set(q, key) {
                    lemma_summary_same_set(vm, q, key);
                }
                assert(summary_of(vm1, q) is Some);
            }
        }
    }
}

/// The total of measurements that are not negative is not negative.
proof fn lemma_total_u64_non_negative(ms: Seq<(u64, Seq<AttributeView>)>)
    requires
        forall|i: int| 0 <= i < ms.len() ==> (#[trigger] ms[i]).0 >= 0,
    ensures
        total_u64(ms) >= 0,
    decreases ms.len(),
{
    if ms.len() > 0 {
        let rest = ms.drop_first();
        assert(ms[0].0 >= 0);
        assert forall|i: int| 0 <= i < rest.len() implies (#[trigger] rest[i]).0 >= 0 by {
            assert(rest[i] == ms[i + 1]);
        }
        lemma_total_u64_non_negative(rest);
    }
}

/// The total of the values of the measurements of `ms`.
pub open spec fn total_i64(ms: Seq<(i64, Seq<AttributeView>)>) -> int
    decreases ms.len(),
{
    if ms.len() == 0 {
        0
    } else {
        ms[0].0 + total_i64(ms.drop_first())
    }
}

/// Cumulative sums never decrease: after further measurements that are
/// not negative and do not make any sum exceed the largest `i64`, every
/// attribute set that had a sum still has one, at least as large.
pub proof fn lemma_cumulative_never_decreases_i64(vm: ValueMapView<i64>, ms: Seq<(i64, Seq<AttributeView>)>)
    requires
        view_wf(vm),
        forall|i: int| 0 <= i < ms.len() ==> (#[trigger] ms[i]).0 >= 0,
        total_i64(ms) <= i64::MAX,
        forall|q: Seq<AttributeView>|
            #[trigger] summary_of(vm, q) matches Some(v) ==> v + total_i64(ms) <= i64::MAX,
    ensures
        view_wf(measured_all::<Increment<i64>>(vm, ms)),
        forall|q: Seq<AttributeView>|
            #[trigger] summary_of(vm, q) matches Some(v) ==> (summary_of(
                measured_all::<Increment<i64>>(vm, ms),
                q,
            ) matches Some(w) && v <= w),
    decreases ms.len(),
{
    if ms.len() > 0 {
        let m = ms[0].0;
        let attrs = ms[0].1;
        let rest = ms.drop_first();
        let vm1 = measured::<Increment<i64>>(vm, m, attrs);
        let key = recorded_attributes(vm, attrs);
        assert(ms[0].0 >= 0);
        assert forall|i: int| 0 <= i < rest.len() implies (#[trigger] rest[i]).0 >= 0 by {
            assert(rest[i] == ms[i + 1]);
        }
        lemma_total_i64_non_negative(rest);
        lemma_measure_read_back::<Increment<i64>>(vm, m, attrs);
        let old_key = sum_or_zero(vm, key);
        assert(old_key + total_i64(ms) <= i64::MAX) by {
            if summary_of(vm, key) is Some {
                assert(summary_of(vm, key) matches Some(v) ==> v + total_i64(ms) <= i64::MAX);
            }
        }
        assert forall|q: Seq<AttributeView>|
            #[trigger] summary_of(vm1, q) matches Some(w) ==> w + total_i64(rest) <= i64::MAX by {
            if !same_attribute_set(q, key) {
                assert(summary_of(vm1, q) == summary_of(vm, q));
                if summary_of(vm, q) is Some {
                    assert(summary_of(vm, q) matches Some(v) ==> v + total_i64(ms) <= i64::MAX);
                }
            }
        }
        lemma_cumulative_never_decreases_i64(vm1, rest);
        assert forall|q: Seq<AttributeView>|
            #[trigger] summary_of(vm, q) matches Some(v) ==> (summary_of(
                measured_all::<Increment<i64>>(vm, ms),
                q,
            ) matches Some(w) && v <= w) by {
            assert(measured_all::<Increment<i64>>(vm, ms) == measured_all::<Increment<i64>>(vm1, rest));
            if summary_of(vm, q) is Some {
                if same_attribute_set(q, key) {
                    lemma_summary_same_set(vm, q, key);
                }
                assert(summary_of(vm1, q) is Some);
            }
        }
    }
}

/// The total of measurements that are not negative is not negative.
proof fn lemma_total_i64_non_negative(ms: Seq<(i64, Seq<AttributeView>)>)
    requires
        forall|i: int| 0 <= i < ms.len() ==> (#[trigger] ms[i]).0 >= 0,
    ensures
        total_i64(ms) >= 0,
    decreases ms.len(),
{
    if ms.len() > 0 {
        let rest = ms.drop_first();
        assert(ms[0].0 >= 0);
        assert forall|i: int| 0 <= i < rest.len() implies (#[trigger] rest[i]).0 >= 0 by {
            assert(rest[i] == ms[i + 1]);
        }
        lemma_total_i64_non_negative(rest);
    }
}

/// Some data point of `points` for the attribute set of `a` holds at least `v`.
pub open spec fn has_point_at_least_u64(points: Seq<DataPointView<u64>>, a: Seq<AttributeView>, v: u64) -> bool {
    exists|j: int| 0 <= j < points.len() && same_attribute_set(#[trigger] points[j].0, a) && v <= points[j].3
}

/// Cumulative collections never report a smaller sum: every attribute set
/// with a data point in an earlier cumulative collection has one in a later
/// collection, after further measurements that are not negative and make no
/// sum exceed the largest `u64`, with a value at least as large.
pub proof fn lemma_cumulative_points_never_decrease_u64(
    vm: ValueMapView<u64>,
    ms: Seq<(u64, Seq<AttributeView>)>,
    start_time: SystemTime,
    earlier: SystemTime,
    later: SystemTime,
)
    requires
        view_wf(vm),
        forall|i: int| 0 <= i < ms.len() ==> (#[trigger] ms[i]).0 >= 0,
        total_u64(ms) <= u64::MAX,
        forall|q: Seq<AttributeView>|
            #[trigger] summary_of(vm, q) matches Some(v) ==> v + total_u64(ms) <= u64::MAX,
    ensures
        forall|i: int|
            0 <= i < collected_points(vm, start_time, earlier).len() ==> has_point_at_least_u64(
                collected_points(measured_all::<Increment<u64>>(vm, ms), start_time, later),
                #[trigger] collected_points(vm, start_time, earlier)[i].0,
                collected_points(vm, start_time, earlier)[i].3,
            ),
{
    let after = measured_all::<Increment<u64>>(vm, ms);
    let c1 = collected_points(vm, start_time, earlier);
    let c2 = collected_points(after, start_time, later);
    lemma_cumulative_never_decreases_u64(vm, ms);
    lemma_collected_points_are_summaries(vm, start_time, earlier);
    lemma_collected_points_are_summaries(after, start_time, later);
    assert forall|i: int| 0 <= i < c1.len() implies has_point_at_least_u64(c2, #[trigger] c1[i].0, c1[i].3) by {
        let a = c1[i].0;
        assert(summary_of(vm, a) == Some(c1[i].3));
        assert(summary_of(after, a) is Some);
        let j = choose|j: int| 0 <= j < c2.len() && same_attribute_set(#[trigger] c2[j].0, a);
        lemma_summary_same_set(after, c2[j].0, a);
        assert(summary_of(after, c2[j].0) == Some(c2[j].3));
    }
}

/// Some data point of `points` for the attribute set of `a` holds at least `v`.
pub open spec fn has_point_at_least_i64(points: Seq<DataPointView<i64>>, a: Seq<AttributeView>, v: i64) -> bool {
    exists|j: int| 0 <= j < points.len() && same_attribute_set(#[trigger] points[j].0, a) && v <= points[j].3
}

/// Cumulative collections never report a smaller sum: every attribute set
/// with a data point in an earlier cumulative collection has one in a later
/// collection, after further measurements that are not negative and make no
/// sum exceed the largest `i64`, with a value at least as large.
pub proof fn lemma_cumulative_points_never_decrease_i64(
    vm: ValueMapView<i64>,
    ms: Seq<(i64, Seq<AttributeView>)>,
    start_time: SystemTime,
    earlier: SystemTime,
    later: SystemTime,
)
    requires
        view_wf(vm),
        forall|i: int| 0 <= i < ms.len() ==> (#[trigger] ms[i]).0 >= 0,
        total_i64(ms) <= i64::MAX,
        forall|q: Seq<AttributeView>|
            #[trigger] summary_of(vm, q) matches Some(v) ==> v + total_i64(ms) <= i64::MAX,
    ensures
        forall|i: int|
            0 <= i < collected_points(vm, start_time, earlier).len() ==> has_point_at_least_i64(
                collected_points(measured_all::<Increment<i64>>(vm, ms), start_time, later),
                #[trigger] collected_points(vm, start_time, earlier)[i].0,
                collected_points(vm, start_time, earlier)[i].3,
            ),
{
    let after = measured_all::<Increment<i64>>(vm, ms);
    let c1 = collected_points(vm, start_time, earlier);
    let c2 = collected_points(after, start_time, later);
    lemma_cumulative_never_decreases_i64(vm, ms);
    lemma_collected_points_are_summaries(vm, start_time, earlier);
    lemma_collected_points_are_summaries(after, start_time, later);
    assert forall|i: int| 0 <= i < c1.len() implies has_point_at_least_i64(c2, #[trigger] c1[i].0, c1[i].3) by {
        let a = c1[i].0;
        assert(summary_of(vm, a) == Some(c1[i].3));
        assert(summary_of(after, a) is Some);
        let j = choose|j: int| 0 <= j < c2.len() && same_attribute_set(#[trigger] c2[j].0, a);
        lemma_summary_same_set(after, c2[j].0, a);
        assert(summary_of(after, c2[j].0) == Some(c2[j].3));
    }
}

} // verus!
