//! Aggregation of measurements per attribute set: the map from each time
//! series, identified by its attribute set, to the aggregator that
//! summarizes the measurements made for it.

use crate::attributes::{
    attrs_view, duplicate_attributes, same_attribute_set, same_attributes, AttributeView,
    KeyValue, Value, ValueView, attribute_map, lemma_attribute_map,
};
use crate::data::{points_view, DataPoint, DataPointView};
use std::time::SystemTime;
use vstd::prelude::*;

verus! {

/// Summarizes the measurements made for one time series.
pub trait Aggregator: Sized {
    /// The type of a measurement and of the summary.
    type Value: Copy;

    /// The summary of the measurements that the aggregator has seen.
    spec fn current(&self) -> Self::Value;

    /// The summary of no measurement.
    spec fn initial() -> Self::Value;

    /// The summary after one more measurement.
    spec fn combine(current: Self::Value, measurement: Self::Value) -> Self::Value;

    /// A new aggregator that has seen no measurement.
    fn create() -> (r: Self)
        ensures
            r.current() == Self::initial(),
    ;

    /// Adds a measurement to the summary.
    fn update(&mut self, measurement: Self::Value)
        ensures
            final(self).current() == Self::combine(old(self).current(), measurement),
    ;

    /// Hands out the summary so far and starts over.
    fn clone_and_reset(&mut self) -> (r: Self)
        ensures
            r.current() == old(self).current(),
            final(self).current() == Self::initial(),
    ;

    /// The summary so far.
    fn get_value(&self) -> (r: Self::Value)
        ensures
            r == self.current(),
    ;
}

/// The number of distinct attribute sets that a value map tracks before it
/// folds all further ones into the overflow series.
pub const CARDINALITY_LIMIT: usize = 2000;

/// What a value map holds: the summary of the measurements made without
/// attributes, if any was made, and each tracked series with the attributes
/// it was first measured with and its summary, in the order the series
/// were first measured.
pub struct ValueMapView<V> {
    pub no_attribute: Option<V>,
    pub series: Seq<(Seq<AttributeView>, V)>,
}

/// The attribute set of the series that takes the measurements of attribute
/// sets beyond the cardinality limit.
pub open spec fn overflow_attributes_view() -> Seq<AttributeView> {
    seq![("otel.metric.overflow"@, ValueView::Bool(true))]
}

/// The position of the series whose attribute set is that of `attrs`, if any.
pub open spec fn find_series<V>(series: Seq<(Seq<AttributeView>, V)>, attrs: Seq<AttributeView>) -> Option<int> {
    if exists|i: int| 0 <= i < series.len() && same_attribute_set(#[trigger] series[i].0, attrs) {
        Some(choose|i: int| 0 <= i < series.len() && same_attribute_set(#[trigger] series[i].0, attrs))
    } else {
        None
    }
}

/// The summary so far of the measurements without attributes.
pub open spec fn no_attribute_summary<A: Aggregator>(vm: ValueMapView<A::Value>) -> A::Value {
    match vm.no_attribute {
        Some(v) => v,
        None => A::initial(),
    }
}

/// The attributes under which a measurement made with `attrs` is recorded:
/// its own, unless its attribute set is new and the map already tracks
/// as many series as the cardinality limit allows.
pub open spec fn recorded_attributes<V>(vm: ValueMapView<V>, attrs: Seq<AttributeView>) -> Seq<AttributeView> {
    if attrs.len() == 0 || find_series(vm.series, attrs) is Some || vm.series.len() < CARDINALITY_LIMIT {
        attrs
    } else {
        overflow_attributes_view()
    }
}

/// The value map after one more measurement `m` with attributes `attrs`.
pub open spec fn measured<A: Aggregator>(
    vm: ValueMapView<A::Value>,
    m: A::Value,
    attrs: Seq<AttributeView>,
) -> ValueMapView<A::Value> {
    if attrs.len() == 0 {
        ValueMapView {
            no_attribute: Some(A::combine(no_attribute_summary::<A>(vm), m)),
            series: vm.series,
        }
    } else {
        let key = recorded_attributes(vm, attrs);
        match find_series(vm.series, key) {
            Some(i) => ValueMapView {
                no_attribute: vm.no_attribute,
                series: vm.series.update(i, (vm.series[i].0, A::combine(vm.series[i].1, m))),
            },
            None => ValueMapView {
                no_attribute: vm.no_attribute,
                series: vm.series.push((key, A::combine(A::initial(), m))),
            },
        }
    }
}

/// A value map that tracks nothing.
pub open spec fn empty_view<V>() -> ValueMapView<V> {
    ValueMapView { no_attribute: None, series: Seq::empty() }
}

/// The data points that a collection of the value map produces, stamped with
/// the given start and collection times: first the point without attributes,
/// if a measurement without attributes was made, then one point per series,
/// in the order of the series.
pub open spec fn collected_points<V>(vm: ValueMapView<V>, start_time: SystemTime, time: SystemTime) -> Seq<DataPointView<V>> {
    let lead: Seq<DataPointView<V>> = match vm.no_attribute {
        Some(v) => seq![(Seq::empty(), start_time, time, v)],
        None => Seq::empty(),
    };
    lead + vm.series.map_values(|s: (Seq<AttributeView>, V)| (s.0, start_time, time, s.1))
}

/// No two series share an attribute set.
pub open spec fn series_distinct<V>(series: Seq<(Seq<AttributeView>, V)>) -> bool {
    forall|i: int, j: int|
        0 <= i < j < series.len() ==> !same_attribute_set(#[trigger] series[i].0, #[trigger] series[j].0)
}

/// The series are identified by non-empty, pairwise distinct attribute sets,
/// and there are no more of them than the cardinality limit, plus the
/// overflow series.
pub open spec fn view_wf<V>(vm: ValueMapView<V>) -> bool {
    &&& forall|i: int| 0 <= i < vm.series.len() ==> (#[trigger] vm.series[i]).0.len() > 0
    &&& series_distinct(vm.series)
    &&& vm.series.len() <= CARDINALITY_LIMIT
        || (vm.series.len() == CARDINALITY_LIMIT + 1 && find_series(vm.series, overflow_attributes_view()) is Some)
}

/// One tracked time series.
pub struct Series<A> {
    attributes: Vec<KeyValue>,
    tracker: A,
}

/// The aggregators of all time series of an instrument, keyed by attribute set.
pub struct ValueMap<A: Aggregator> {
    series: Vec<Series<A>>,
    has_no_attribute_value: bool,
    no_attribute_tracker: A,
}

/// A series taken by its attributes' views and its summary.
pub closed spec fn series_view<A: Aggregator>(s: Series<A>) -> (Seq<AttributeView>, A::Value) {
    (attrs_view(s.attributes@), s.tracker.current())
}

impl<A: Aggregator> View for ValueMap<A> {
    type V = ValueMapView<A::Value>;

    closed spec fn view(&self) -> ValueMapView<A::Value> {
        ValueMapView {
            no_attribute: if self.has_no_attribute_value {
                Some(self.no_attribute_tracker.current())
            } else {
                None
            },
            series: self.series@.map_values(|s: Series<A>| series_view(s)),
        }
    }
}

/// The attribute list of the overflow series.
fn overflow_attributes() -> (r: Vec<KeyValue>)
    ensures
        attrs_view(r@) == overflow_attributes_view(),
{
    let mut r: Vec<KeyValue> = Vec::new();
    r.push(KeyValue { key: String::from_str("otel.metric.overflow"), value: Value::Bool(true) });
    assert(attrs_view(r@) =~= overflow_attributes_view());
    r
}

/// Two series positions with the same attribute set are one position.
proof fn lemma_find_series_unique<V>(series: Seq<(Seq<AttributeView>, V)>, attrs: Seq<AttributeView>, i: int)
    requires
        series_distinct(series),
        0 <= i < series.len(),
        same_attribute_set(series[i].0, attrs),
    ensures
        find_series(series, attrs) == Some(i),
{
    let c = choose|c: int| 0 <= c < series.len() && same_attribute_set(#[trigger] series[c].0, attrs);
    assert(same_attribute_set(series[c].0, attrs));
    if c < i {
        assert(!same_attribute_set(series[c].0, series[i].0));
    } else if i < c {
        assert(!same_attribute_set(series[i].0, series[c].0));
    }
}

impl<A: Aggregator> ValueMap<A> {
    /// The value map holds no more series than the cardinality limit allows,
    /// each under its own attribute set, and its tracker of measurements
    /// without attributes has seen none while none is recorded.
    pub closed spec fn wf(&self) -> bool {
        &&& view_wf(self@)
        &&& !self.has_no_attribute_value ==> self.no_attribute_tracker.current() == A::initial()
    }

    /// A value map that tracks nothing.
    pub fn new() -> (r: Self)
        ensures
            r.wf(),
            r@ == empty_view::<A::Value>(),
    {
        let r = ValueMap { series: Vec::new(), has_no_attribute_value: false, no_attribute_tracker: A::create() };
        assert(r@.series =~= Seq::<(Seq<AttributeView>, A::Value)>::empty());
        r
    }

    /// The position of the series whose attribute set is that of `attrs`, if any.
    fn find(&self, attrs: &[KeyValue]) -> (r: Option<usize>)
        requires
            self.wf(),
        ensures
            match r {
                Some(i) => find_series(self@.series, attrs_view(attrs@)) == Some(i as int),
                None => find_series(self@.series, attrs_view(attrs@)) is None,
            },
    {
        let ghost sv = self@.series;
        let mut i: usize = 0;
        while i < self.series.len()
            invariant
                self.wf(),
                sv == self@.series,
                0 <= i <= self.series@.len(),
                forall|j: int| 0 <= j < i ==> !same_attribute_set(#[trigger] sv[j].0, attrs_view(attrs@)),
            decreases self.series@.len() - i,
        {
            assert(sv[i as int] == series_view(self.series@[i as int]));
            if same_attributes(self.series[i].attributes.as_slice(), attrs) {
                proof {
                    lemma_find_series_unique(self@.series, attrs_view(attrs@), i as int);
                }
                return Some(i);
            }
            i = i + 1;
        }
        None
    }
}


impl<A: Aggregator> ValueMap<A> {
    /// Adds a measurement to the series at position `i`.
    fn update_series(&mut self, i: usize, measurement: A::Value)
        requires
            old(self).wf(),
            i < old(self)@.series.len(),
        ensures
            final(self).wf(),
            final(self)@ == (ValueMapView {
                no_attribute: old(self)@.no_attribute,
                series: old(self)@.series.update(
                    i as int,
                    (old(self)@.series[i as int].0, A::combine(old(self)@.series[i as int].1, measurement)),
                ),
            }),
    {
        self.series[i].tracker.update(measurement);
        proof {
            let ghost nv = self@.series;
            let ghost ov = old(self)@.series;
            assert(nv =~= ov.update(i as int, (ov[i as int].0, A::combine(ov[i as int].1, measurement))));
            assert forall|x: int, y: int| 0 <= x < y < nv.len() implies !same_attribute_set(
                #[trigger] nv[x].0,
                #[trigger] nv[y].0,
            ) by {
                assert(nv[x].0 == ov[x].0 && nv[y].0 == ov[y].0);
            }
            if ov.len() == CARDINALITY_LIMIT + 1 {
                let c = find_series(ov, overflow_attributes_view()).unwrap();
                assert(nv[c].0 == ov[c].0);
                assert(same_attribute_set(nv[c].0, overflow_attributes_view()));
            }
        }
    }

    /// Starts a new series under `attributes` with one measurement.
    fn insert_series(&mut self, attributes: Vec<KeyValue>, measurement: A::Value)
        requires
            old(self).wf(),
            attributes@.len() > 0,
            find_series(old(self)@.series, attrs_view(attributes@)) is None,
            old(self)@.series.len() < CARDINALITY_LIMIT || (old(self)@.series.len() == CARDINALITY_LIMIT
                && attrs_view(attributes@) == overflow_attributes_view()),
        ensures
            final(self).wf(),
            final(self)@ == (ValueMapView {
                no_attribute: old(self)@.no_attribute,
                series: old(self)@.series.push((attrs_view(attributes@), A::combine(A::initial(), measurement))),
            }),
    {
        let ghost key = attrs_view(attributes@);
        let mut tracker = A::create();
        tracker.update(measurement);
        self.series.push(Series { attributes, tracker });
        proof {
            let ghost nv = self@.series;
            let ghost ov = old(self)@.series;
            assert(nv =~= ov.push((key, A::combine(A::initial(), measurement))));
            assert(key.len() > 0);
            assert forall|x: int, y: int| 0 <= x < y < nv.len() implies !same_attribute_set(
                #[trigger] nv[x].0,
                #[trigger] nv[y].0,
            ) by {
                if y == ov.len() {
                    assert(!same_attribute_set(ov[x].0, key));
                } else {
                    assert(nv[x] == ov[x] && nv[y] == ov[y]);
                }
            }
            if nv.len() == CARDINALITY_LIMIT + 1 {
                let last = ov.len() as int;
                assert(same_attribute_set(nv[last].0, overflow_attributes_view()));
            }
        }
    }

    /// Records one measurement made with the given attributes.
    pub fn measure(&mut self, measurement: A::Value, attrs: &[KeyValue])
        requires
            old(self).wf(),
        ensures
            final(self).wf(),
            final(self)@ == measured::<A>(old(self)@, measurement, attrs_view(attrs@)),
    {
        if attrs.len() == 0 {
            self.no_attribute_tracker.update(measurement);
            self.has_no_attribute_value = true;
            proof {
                assert(self@.series == old(self)@.series);
            }
            return;
        }
        let ghost key = attrs_view(attrs@);
        assert(key.len() > 0);
        match self.find(attrs) {
            Some(i) => {
                self.update_series(i, measurement);
            },
            None => {
                if self.series.len() < CARDINALITY_LIMIT {
                    let copy = duplicate_attributes(attrs);
                    self.insert_series(copy, measurement);
                } else {
                    let overflow = overflow_attributes();
                    match self.find(overflow.as_slice()) {
                        Some(j) => {
                            self.update_series(j, measurement);
                        },
                        None => {
                            assert(self@.series.len() == CARDINALITY_LIMIT);
                            assert(attrs_view(overflow@).len() == overflow@.len());
                            self.insert_series(overflow, measurement);
                        },
                    }
                }
            },
        }
    }
}


impl<A: Aggregator> ValueMap<A> {
    /// Replaces the contents of `dest` with one data point per series,
    /// stamped with the given times, and leaves the value map as it is.
    pub fn collect_readonly(&self, dest: &mut Vec<DataPoint<A::Value>>, start_time: SystemTime, time: SystemTime)
        requires
            self.wf(),
        ensures
            points_view(final(dest)@) == collected_points(self@, start_time, time),
    {
        dest.clear();
        if self.has_no_attribute_value {
            dest.push(DataPoint {
                attributes: Vec::new(),
                start_time,
                time,
                value: self.no_attribute_tracker.get_value(),
            });
        }
        let ghost lead = dest@.len();
        let ghost sv = self@.series;
        let mut i: usize = 0;
        while i < self.series.len()
            invariant
                0 <= i <= self.series@.len(),
                sv == self@.series,
                lead == (if self.has_no_attribute_value { 1int } else { 0int }),
                dest@.len() == lead + i,
                lead == 1 ==> dest@[0]@ == (Seq::<AttributeView>::empty(), start_time, time,
                    self.no_attribute_tracker.current()),
                forall|j: int|
                    0 <= j < i ==> #[trigger] dest@[lead + j]@ == (sv[j].0, start_time, time, sv[j].1),
            decreases self.series@.len() - i,
        {
            assert(sv[i as int] == series_view(self.series@[i as int]));
            let attributes = duplicate_attributes(self.series[i].attributes.as_slice());
            let value = self.series[i].tracker.get_value();
            dest.push(DataPoint { attributes, start_time, time, value });
            i = i + 1;
        }
        proof {
            let ghost expected = collected_points(self@, start_time, time);
            assert(attrs_view(Seq::<KeyValue>::empty()) =~= Seq::<AttributeView>::empty());
            assert(expected.len() == dest@.len());
            assert forall|k: int| 0 <= k < dest@.len() implies points_view(dest@)[k] == expected[k] by {
                if k >= lead {
                    assert(dest@[lead + (k - lead)]@ == (sv[k - lead].0, start_time, time, sv[k - lead].1));
                }
            }
            assert(points_view(dest@) =~= expected);
        }
    }

    /// Replaces the contents of `dest` with one data point per series,
    /// stamped with the given times, and empties the value map.
    pub fn collect_and_reset(
        &mut self,
        dest: &mut Vec<DataPoint<A::Value>>,
        start_time: SystemTime,
        time: SystemTime,
    )
        requires
            old(self).wf(),
        ensures
            final(self).wf(),
            final(self)@ == empty_view::<A::Value>(),
            points_view(final(dest)@) == collected_points(old(self)@, start_time, time),
    {
        dest.clear();
        let had_no_attribute_value = self.has_no_attribute_value;
        if had_no_attribute_value {
            self.has_no_attribute_value = false;
            let tracker = self.no_attribute_tracker.clone_and_reset();
            dest.push(DataPoint { attributes: Vec::new(), start_time, time, value: tracker.get_value() });
        }
        let mut taken: Vec<Series<A>> = Vec::new();
        std::mem::swap(&mut taken, &mut self.series);
        let ghost lead = dest@.len();
        let ghost sv = old(self)@.series;
        assert(sv =~= taken@.map_values(|s: Series<A>| series_view(s)));
        let ghost all = taken@;
        for s in it: taken.into_iter()
            invariant
                all == it.seq(),
                sv == all.map_values(|s: Series<A>| series_view(s)),
                lead == (if had_no_attribute_value { 1int } else { 0int }),
                dest@.len() == lead + it.index(),
                lead == 1 ==> dest@[0]@ == (Seq::<AttributeView>::empty(), start_time, time,
                    old(self).no_attribute_tracker.current()),
                forall|j: int|
                    0 <= j < it.index() ==> #[trigger] dest@[lead + j]@ == (sv[j].0, start_time, time, sv[j].1),
        {
            assert(sv[it.index() as int] == series_view(s));
            let value = s.tracker.get_value();
            dest.push(DataPoint { attributes: s.attributes, start_time, time, value });
        }
        proof {
            let ghost expected = collected_points(old(self)@, start_time, time);
            assert(attrs_view(Seq::<KeyValue>::empty()) =~= Seq::<AttributeView>::empty());
            assert(expected.len() == dest@.len());
            assert forall|k: int| 0 <= k < dest@.len() implies points_view(dest@)[k] == expected[k] by {
                if k >= lead {
                    assert(dest@[lead + (k - lead)]@ == (sv[k - lead].0, start_time, time, sv[k - lead].1));
                }
            }
            assert(points_view(dest@) =~= expected);
            assert(self@.series =~= Seq::<(Seq<AttributeView>, A::Value)>::empty());
        }
    }
}


/// The summary that the value map holds for the attribute set of `attrs`:
/// for an empty list, that of the measurements made without attributes.
pub open spec fn summary_of<V>(vm: ValueMapView<V>, attrs: Seq<AttributeView>) -> Option<V> {
    if attrs.len() == 0 {
        vm.no_attribute
    } else {
        match find_series(vm.series, attrs) {
            Some(i) => Some(vm.series[i].1),
            None => None,
        }
    }
}

/// A list of attributes denotes the empty attribute set exactly when it is empty.
proof fn lemma_empty_attribute_set(s: Seq<AttributeView>)
    ensures
        (attribute_map(s) == Map::<Seq<char>, ValueView>::empty()) <==> s.len() == 0,
{
    if s.len() > 0 {
        lemma_attribute_map(s, s[0].0);
        assert(attribute_map(s).dom().contains(s[0].0));
    }
}

/// Adding to the summary of one series finds every attribute set where it was.
proof fn lemma_find_series_after_update<V>(
    series: Seq<(Seq<AttributeView>, V)>,
    i: int,
    v: V,
    q: Seq<AttributeView>,
)
    requires
        series_distinct(series),
        0 <= i < series.len(),
    ensures
        series_distinct(series.update(i, (series[i].0, v))),
        find_series(series.update(i, (series[i].0, v)), q) == find_series(series, q),
{
    let t = series.update(i, (series[i].0, v));
    assert forall|k: int| 0 <= k < t.len() implies #[trigger] t[k].0 == series[k].0 by {}
    assert forall|x: int, y: int| 0 <= x < y < t.len() implies !same_attribute_set(
        #[trigger] t[x].0,
        #[trigger] t[y].0,
    ) by {
        assert(t[x].0 == series[x].0 && t[y].0 == series[y].0);
    }
    if exists|k: int| 0 <= k < series.len() && same_attribute_set(#[trigger] series[k].0, q) {
        let k = choose|k: int| 0 <= k < series.len() && same_attribute_set(#[trigger] series[k].0, q);
        lemma_find_series_unique(series, q, k);
        assert(t[k].0 == series[k].0);
        lemma_find_series_unique(t, q, k);
    } else {
        assert forall|k: int| 0 <= k < t.len() implies !same_attribute_set(#[trigger] t[k].0, q) by {
            assert(t[k].0 == series[k].0);
        }
    }
}

/// A new series under an attribute set not yet tracked is found under that
/// set, and leaves every other set where it was.
proof fn lemma_find_series_after_push<V>(
    series: Seq<(Seq<AttributeView>, V)>,
    key: Seq<AttributeView>,
    v: V,
    q: Seq<AttributeView>,
)
    requires
        series_distinct(series),
        find_series(series, key) is None,
    ensures
        series_distinct(series.push((key, v))),
        same_attribute_set(key, q) ==> find_series(series.push((key, v)), q) == Some(series.len() as int),
        !same_attribute_set(key, q) ==> find_series(series.push((key, v)), q) == find_series(series, q),
{
    let t = series.push((key, v));
    assert forall|x: int, y: int| 0 <= x < y < t.len() implies !same_attribute_set(
        #[trigger] t[x].0,
        #[trigger] t[y].0,
    ) by {
        if y == series.len() {
            assert(!same_attribute_set(series[x].0, key));
        } else {
            assert(t[x] == series[x] && t[y] == series[y]);
        }
    }
    if same_attribute_set(key, q) {
        lemma_find_series_unique(t, q, series.len() as int);
    } else if exists|k: int| 0 <= k < series.len() && same_attribute_set(#[trigger] series[k].0, q) {
        let k = choose|k: int| 0 <= k < series.len() && same_attribute_set(#[trigger] series[k].0, q);
        lemma_find_series_unique(series, q, k);
        assert(t[k] == series[k]);
        lemma_find_series_unique(t, q, k);
    } else {
        assert forall|k: int| 0 <= k < t.len() implies !same_attribute_set(#[trigger] t[k].0, q) by {
            if k < series.len() {
                assert(t[k] == series[k]);
            }
        }
    }
}

/// What a measurement does to a value map. The summary of the attribute set
/// the measurement is recorded under (see [`recorded_attributes`]) becomes
/// the old one, or the initial one where there was none, combined with the
/// measurement; it is read back through any list of attributes that denotes
/// that set. The summary of every other attribute set stays as it was. The
/// map stays well formed: distinct attribute sets, and no more series than
/// the cardinality limit plus the overflow series.
pub proof fn lemma_measure_read_back<A: Aggregator>(vm: ValueMapView<A::Value>, m: A::Value, attrs: Seq<AttributeView>)
    requires
        view_wf(vm),
    ensures
        view_wf(measured::<A>(vm, m, attrs)),
        measured::<A>(vm, m, attrs).series.len() <= CARDINALITY_LIMIT + 1,
        forall|q: Seq<AttributeView>|
            same_attribute_set(q, recorded_attributes(vm, attrs)) ==> #[trigger] summary_of(
                measured::<A>(vm, m, attrs),
                q,
            ) == Some(A::combine(
                match summary_of(vm, recorded_attributes(vm, attrs)) {
                    Some(v) => v,
                    None => A::initial(),
                },
                m,
            )),
        forall|q: Seq<AttributeView>|
            !same_attribute_set(q, recorded_attributes(vm, attrs)) ==> #[trigger] summary_of(
                measured::<A>(vm, m, attrs),
                q,
            ) == summary_of(vm, q),
{
    let key = recorded_attributes(vm, attrs);
    let after = measured::<A>(vm, m, attrs);
    lemma_empty_attribute_set(key);
    assert forall|q: Seq<AttributeView>| same_attribute_set(q, key) implies (q.len() == 0 <==> key.len() == 0) by {
        lemma_empty_attribute_set(q);
    }
    if attrs.len() == 0 {
        assert(after.series == vm.series);
    } else {
        assert(key.len() > 0);
        match find_series(vm.series, key) {
            Some(i) => {
                assert(same_attribute_set(vm.series[i].0, key));
                lemma_find_series_after_update(vm.series, i, A::combine(vm.series[i].1, m), key);
                assert forall|q: Seq<AttributeView>| same_attribute_set(q, key) implies #[trigger] summary_of(after, q)
                    == Some(A::combine(vm.series[i].1, m)) by {
                    lemma_find_series_unique(vm.series, q, i);
                    lemma_find_series_after_update(vm.series, i, A::combine(vm.series[i].1, m), q);
                }
                assert forall|q: Seq<AttributeView>| !same_attribute_set(q, key) implies #[trigger] summary_of(after, q)
                    == summary_of(vm, q) by {
                    if q.len() > 0 {
                        lemma_find_series_after_update(vm.series, i, A::combine(vm.series[i].1, m), q);
                        if find_series(vm.series, q) == Some(i) {
                            assert(same_attribute_set(vm.series[i].0, q));
                            assert(same_attribute_set(q, key));
                        }
                    }
                }
                if vm.series.len() == CARDINALITY_LIMIT + 1 {
                    lemma_find_series_after_update(vm.series, i, A::combine(vm.series[i].1, m), overflow_attributes_view());
                }
                assert forall|k: int| 0 <= k < after.series.len() implies (#[trigger] after.series[k]).0.len() > 0 by {
                    assert(after.series[k].0 == vm.series[k].0);
                }
            },
            None => {
                let v = A::combine(A::initial(), m);
                assert forall|q: Seq<AttributeView>| same_attribute_set(q, key) implies #[trigger] summary_of(after, q)
                    == Some(v) by {
                    lemma_find_series_after_push(vm.series, key, v, q);
                }
                assert forall|q: Seq<AttributeView>| !same_attribute_set(q, key) implies #[trigger] summary_of(after, q)
                    == summary_of(vm, q) by {
                    lemma_find_series_after_push(vm.series, key, v, q);
                }
                lemma_find_series_after_push(vm.series, key, v, key);
                assert forall|k: int| 0 <= k < after.series.len() implies (#[trigger] after.series[k]).0.len() > 0 by {
                    if k < vm.series.len() {
                        assert(after.series[k] == vm.series[k]);
                    }
                }
                if find_series(vm.series, attrs) is None && vm.series.len() >= CARDINALITY_LIMIT {
                    assert(key == overflow_attributes_view());
                    assert(vm.series.len() == CARDINALITY_LIMIT);
                    lemma_find_series_after_push(vm.series, key, v, overflow_attributes_view());
                }
            },
        }
    }
}

/// A value map that was just emptied yields no data points, whatever the times.
pub proof fn lemma_reset_collects_nothing<V>(start_time: SystemTime, time: SystemTime)
    ensures
        collected_points(empty_view::<V>(), start_time, time).len() == 0,
{
}

/// A collection reports exactly the summaries the value map holds: each
/// data point carries the summary of its attribute set and the given times,
/// and every attribute set with a summary has a data point.
pub proof fn lemma_collected_points_are_summaries<V>(vm: ValueMapView<V>, start_time: SystemTime, time: SystemTime)
    requires
        view_wf(vm),
    ensures
        forall|i: int|
            0 <= i < collected_points(vm, start_time, time).len() ==> {
                let p = #[trigger] collected_points(vm, start_time, time)[i];
                &&& summary_of(vm, p.0) == Some(p.3)
                &&& p.1 == start_time
                &&& p.2 == time
            },
        forall|q: Seq<AttributeView>|
            #[trigger] summary_of(vm, q) is Some ==> exists|i: int|
                0 <= i < collected_points(vm, start_time, time).len() && same_attribute_set(
                    #[trigger] collected_points(vm, start_time, time)[i].0,
                    q,
                ),
{
    let pts = collected_points(vm, start_time, time);
    let lead: int = if vm.no_attribute is Some { 1 } else { 0 };
    assert forall|i: int| 0 <= i < pts.len() implies {
        let p = #[trigger] pts[i];
        &&& summary_of(vm, p.0) == Some(p.3)
        &&& p.1 == start_time
        &&& p.2 == time
    } by {
        if i >= lead {
            let j = i - lead;
            assert(pts[i] == (vm.series[j].0, start_time, time, vm.series[j].1));
            lemma_find_series_unique(vm.series, vm.series[j].0, j);
        }
    }
    assert forall|q: Seq<AttributeView>| #[trigger] summary_of(vm, q) is Some implies exists|i: int|
        0 <= i < pts.len() && same_attribute_set(#[trigger] pts[i].0, q) by {
        if q.len() == 0 {
            assert(pts[0].0 == q);
        } else {
            let j = find_series(vm.series, q).unwrap();
            assert(pts[lead + j] == (vm.series[j].0, start_time, time, vm.series[j].1));
            assert(same_attribute_set(pts[lead + j].0, q));
        }
    }
}

/// A second measurement with the same attributes is recorded under the
/// same attribute set as the first.
pub proof fn lemma_recorded_attributes_stable<A: Aggregator>(
    vm: ValueMapView<A::Value>,
    m: A::Value,
    attrs: Seq<AttributeView>,
)
    requires
        view_wf(vm),
    ensures
        same_attribute_set(
            recorded_attributes(measured::<A>(vm, m, attrs), attrs),
            recorded_attributes(vm, attrs),
        ),
{
    let key = recorded_attributes(vm, attrs);
    let after = measured::<A>(vm, m, attrs);
    lemma_measure_read_back::<A>(vm, m, attrs);
    if attrs.len() > 0 {
        if same_attribute_set(attrs, key) {
            assert(summary_of(after, attrs) is Some);
        } else {
            assert(summary_of(after, attrs) == summary_of(vm, attrs));
            assert(find_series(vm.series, attrs) is None);
            assert(vm.series.len() >= CARDINALITY_LIMIT);
            assert(after.series.len() >= vm.series.len());
        }
    }
}


/// Lists that denote the same attribute set find the same series.
proof fn lemma_find_series_same_set<V>(series: Seq<(Seq<AttributeView>, V)>, x: Seq<AttributeView>, y: Seq<AttributeView>)
    requires
        series_distinct(series),
        same_attribute_set(x, y),
    ensures
        find_series(series, x) == find_series(series, y),
{
    if exists|k: int| 0 <= k < series.len() && same_attribute_set(#[trigger] series[k].0, x) {
        let k = choose|k: int| 0 <= k < series.len() && same_attribute_set(#[trigger] series[k].0, x);
        lemma_find_series_unique(series, x, k);
        lemma_find_series_unique(series, y, k);
    } else {
        assert forall|k: int| 0 <= k < series.len() implies !same_attribute_set(#[trigger] series[k].0, y) by {}
    }
}

/// The order and the repetitions of attributes do not matter: measuring
/// with two lists of attributes that denote the same attribute set leaves
/// every attribute set with the same summary.
pub proof fn lemma_same_set_same_effect<A: Aggregator>(
    vm: ValueMapView<A::Value>,
    m: A::Value,
    a: Seq<AttributeView>,
    b: Seq<AttributeView>,
)
    requires
        view_wf(vm),
        same_attribute_set(a, b),
    ensures
        forall|q: Seq<AttributeView>|
            #[trigger] summary_of(measured::<A>(vm, m, a), q) == summary_of(measured::<A>(vm, m, b), q),
{
    lemma_empty_attribute_set(a);
    lemma_empty_attribute_set(b);
    lemma_find_series_same_set(vm.series, a, b);
    let ka = recorded_attributes(vm, a);
    let kb = recorded_attributes(vm, b);
    assert(same_attribute_set(ka, kb));
    lemma_empty_attribute_set(ka);
    lemma_empty_attribute_set(kb);
    lemma_find_series_same_set(vm.series, ka, kb);
    assert(summary_of(vm, ka) == summary_of(vm, kb));
    lemma_measure_read_back::<A>(vm, m, a);
    lemma_measure_read_back::<A>(vm, m, b);
    assert forall|q: Seq<AttributeView>|
        #[trigger] summary_of(measured::<A>(vm, m, a), q) == summary_of(measured::<A>(vm, m, b), q) by {
        if same_attribute_set(q, ka) {
            assert(same_attribute_set(q, kb));
        } else {
            assert(!same_attribute_set(q, kb));
        }
    }
}

impl<A: Aggregator> ValueMap<A> {
    /// A well-formed value map tracks distinct attribute sets, and at most
    /// as many as the cardinality limit, plus the overflow series.
    pub proof fn lemma_wf_bounds(&self)
        requires
            self.wf(),
        ensures
            view_wf(self@),
            self@.series.len() <= CARDINALITY_LIMIT + 1,
    {
    }
}


/// Lists that denote the same attribute set read the same summary.
pub proof fn lemma_summary_same_set<V>(vm: ValueMapView<V>, x: Seq<AttributeView>, y: Seq<AttributeView>)
    requires
        view_wf(vm),
        same_attribute_set(x, y),
    ensures
        summary_of(vm, x) == summary_of(vm, y),
{
    lemma_empty_attribute_set(x);
    lemma_empty_attribute_set(y);
    lemma_find_series_same_set(vm.series, x, y);
}

/// The value map after the measurements of `ms`, made in order; each
/// measurement is a value and the attributes it was made with.
pub open spec fn measured_all<A: Aggregator>(
    vm: ValueMapView<A::Value>,
    ms: Seq<(A::Value, Seq<AttributeView>)>,
) -> ValueMapView<A::Value>
    decreases ms.len(),
{
    if ms.len() == 0 {
        vm
    } else {
        measured_all::<A>(measured::<A>(vm, ms[0].0, ms[0].1), ms.drop_first())
    }
}

/// The attribute sets of the tracked series, in order.
pub open spec fn series_sets<V>(series: Seq<(Seq<AttributeView>, V)>) -> Seq<Map<Seq<char>, ValueView>> {
    series.map_values(|s: (Seq<AttributeView>, V)| attribute_map(s.0))
}

/// The non-empty attribute sets that the measurements of `ms` are made with.
pub open spec fn measured_sets<V>(ms: Seq<(V, Seq<AttributeView>)>) -> Set<Map<Seq<char>, ValueView>>
    decreases ms.len(),
{
    if ms.len() == 0 {
        Set::empty()
    } else if ms[0].1.len() > 0 {
        measured_sets(ms.drop_first()).insert(attribute_map(ms[0].1))
    } else {
        measured_sets(ms.drop_first())
    }
}

/// The series the value map tracks, together with those the measurements
/// of `ms` start, have distinct attribute sets no more numerous than the
/// cardinality limit.
pub open spec fn stays_under_limit<V>(vm: ValueMapView<V>, ms: Seq<(V, Seq<AttributeView>)>) -> bool {
    series_sets(vm.series).to_set().union(measured_sets(ms)).len() <= CARDINALITY_LIMIT
}

/// The set of attribute sets that measurements are made with is finite,
/// and holds the set of each measurement with attributes.
pub proof fn lemma_measured_sets<V>(ms: Seq<(V, Seq<AttributeView>)>)
    ensures
        measured_sets(ms).finite(),
        forall|i: int| 0 <= i < ms.len() && ms[i].1.len() > 0 ==> measured_sets(ms).contains(attribute_map(#[trigger] ms[i].1)),
        ms.len() > 0 ==> measured_sets(ms.drop_first()).subset_of(measured_sets(ms)),
    decreases ms.len(),
{
    if ms.len() > 0 {
        lemma_measured_sets(ms.drop_first());
        assert forall|i: int| 0 <= i < ms.len() && ms[i].1.len() > 0 implies measured_sets(ms).contains(
            attribute_map(#[trigger] ms[i].1),
        ) by {
            if i > 0 {
                assert(ms.drop_first()[i - 1] == ms[i]);
            }
        }
    }
}

/// The series sets of a well-formed map are distinct, so there are as many
/// of them as series.
proof fn lemma_series_sets_len<V>(vm: ValueMapView<V>)
    requires
        view_wf(vm),
    ensures
        series_sets(vm.series).to_set().len() == vm.series.len(),
        series_sets(vm.series).to_set().finite(),
{
    let ss = series_sets(vm.series);
    assert forall|i: int, j: int| 0 <= i < ss.len() && 0 <= j < ss.len() && i != j implies ss[i] != ss[j] by {
        if i < j {
            assert(!same_attribute_set(vm.series[i].0, vm.series[j].0));
        } else {
            assert(!same_attribute_set(vm.series[j].0, vm.series[i].0));
        }
    }
    assert(ss.no_duplicates());
    ss.unique_seq_to_set();
    vstd::seq_lib::seq_to_set_is_finite(ss);
}

/// A measurement leaves the series sets as they were, plus the set it was
/// recorded under.
proof fn lemma_series_sets_after_measure<A: Aggregator>(vm: ValueMapView<A::Value>, m: A::Value, attrs: Seq<AttributeView>)
    requires
        view_wf(vm),
    ensures
        series_sets(measured::<A>(vm, m, attrs).series).to_set().subset_of(
            series_sets(vm.series).to_set().insert(attribute_map(recorded_attributes(vm, attrs))),
        ),
{
    let after = measured::<A>(vm, m, attrs);
    let key = recorded_attributes(vm, attrs);
    let before_sets = series_sets(vm.series);
    let after_sets = series_sets(after.series);
    assert forall|x: Map<Seq<char>, ValueView>| after_sets.to_set().contains(x) implies before_sets.to_set().insert(
        attribute_map(key),
    ).contains(x) by {
        let k = choose|k: int| 0 <= k < after_sets.len() && after_sets[k] == x;
        if k < vm.series.len() && after.series[k].0 == vm.series[k].0 {
            assert(before_sets[k] == x);
        } else {
            assert(after.series[k].0 == key);
        }
    }
}

/// While the map stays under the cardinality limit, every measurement is
/// recorded under its own attribute set.
proof fn lemma_no_overflow_routing<V>(vm: ValueMapView<V>, ms: Seq<(V, Seq<AttributeView>)>)
    requires
        view_wf(vm),
        ms.len() > 0,
        stays_under_limit(vm, ms),
    ensures
        recorded_attributes(vm, ms[0].1) == ms[0].1,
{
    let attrs = ms[0].1;
    if attrs.len() > 0 && find_series(vm.series, attrs) is None {
        let ss = series_sets(vm.series);
        lemma_series_sets_len(vm);
        lemma_measured_sets(ms);
        assert(ms[0].1 == attrs);
        assert(measured_sets(ms).contains(attribute_map(attrs)));
        assert(!ss.to_set().contains(attribute_map(attrs))) by {
            if ss.to_set().contains(attribute_map(attrs)) {
                let k = choose|k: int| 0 <= k < ss.len() && ss[k] == attribute_map(attrs);
                assert(same_attribute_set(vm.series[k].0, attrs));
            }
        }
        let u = ss.to_set().union(measured_sets(ms));
        assert(ss.to_set().insert(attribute_map(attrs)).subset_of(u));
        vstd::set_lib::lemma_len_union(ss.to_set(), measured_sets(ms));
        vstd::set_lib::lemma_len_subset(ss.to_set().insert(attribute_map(attrs)), u);
    }
}

/// The summary `current` after the measurements of `ms` with the
/// attribute set of `q`, made in order.
pub open spec fn fold_measurements<A: Aggregator>(
    current: A::Value,
    ms: Seq<(A::Value, Seq<AttributeView>)>,
    q: Seq<AttributeView>,
) -> A::Value
    decreases ms.len(),
{
    if ms.len() == 0 {
        current
    } else {
        let next = if same_attribute_set(ms[0].1, q) {
            A::combine(current, ms[0].0)
        } else {
            current
        };
        fold_measurements::<A>(next, ms.drop_first(), q)
    }
}

/// Some measurement of `ms` is made with the attribute set of `q`.
pub open spec fn touches<V>(ms: Seq<(V, Seq<AttributeView>)>, q: Seq<AttributeView>) -> bool {
    exists|i: int| 0 <= i < ms.len() && same_attribute_set(#[trigger] ms[i].1, q)
}

/// The summary after a sequence of measurements, while the map stays under
/// the cardinality limit: each attribute set gets its old summary, or the
/// initial one, combined in order with the measurements made with that set;
/// a set that had no summary and is not measured still has none.
pub proof fn lemma_measured_all_summaries<A: Aggregator>(
    vm: ValueMapView<A::Value>,
    ms: Seq<(A::Value, Seq<AttributeView>)>,
)
    requires
        view_wf(vm),
        stays_under_limit(vm, ms),
    ensures
        view_wf(measured_all::<A>(vm, ms)),
        forall|q: Seq<AttributeView>|
            #[trigger] summary_of(measured_all::<A>(vm, ms), q) == if summary_of(vm, q) is Some || touches(ms, q) {
                Some(
                    fold_measurements::<A>(
                        match summary_of(vm, q) {
                            Some(v) => v,
                            None => A::initial(),
                        },
                        ms,
                        q,
                    ),
                )
            } else {
                None
            },
    decreases ms.len(),
{
    if ms.len() == 0 {
        assert forall|q: Seq<AttributeView>| !touches(ms, q) by {}
    } else {
        let m = ms[0].0;
        let attrs = ms[0].1;
        let rest = ms.drop_first();
        let vm1 = measured::<A>(vm, m, attrs);
        lemma_no_overflow_routing(vm, ms);
        lemma_measure_read_back::<A>(vm, m, attrs);
        lemma_series_sets_after_measure::<A>(vm, m, attrs);
        lemma_measured_sets(ms);
        lemma_series_sets_len(vm);
        lemma_series_sets_len(vm1);
        let u0 = series_sets(vm.series).to_set().union(measured_sets(ms));
        let u1 = series_sets(vm1.series).to_set().union(measured_sets(rest));
        assert(u1.subset_of(u0)) by {
            assert forall|x: Map<Seq<char>, ValueView>| u1.contains(x) implies u0.contains(x) by {
                if series_sets(vm1.series).to_set().contains(x) && !series_sets(vm.series).to_set().contains(x) {
                    assert(x == attribute_map(attrs));
                    if attrs.len() == 0 {
                        lemma_empty_attribute_set(attrs);
                        assert(vm1.series == vm.series);
                    } else {
                        assert(ms[0].1.len() > 0);
                    }
                }
            }
        }
        vstd::set_lib::lemma_len_union(series_sets(vm.series).to_set(), measured_sets(ms));
        vstd::set_lib::lemma_len_subset(u1, u0);
        lemma_measured_all_summaries::<A>(vm1, rest);
        assert forall|q: Seq<AttributeView>|
            #[trigger] summary_of(measured_all::<A>(vm, ms), q) == if summary_of(vm, q) is Some || touches(ms, q) {
                Some(
                    fold_measurements::<A>(
                        match summary_of(vm, q) {
                            Some(v) => v,
                            None => A::initial(),
                        },
                        ms,
                        q,
                    ),
                )
            } else {
                None
            } by {
            assert(measured_all::<A>(vm, ms) == measured_all::<A>(vm1, rest));
            if touches(rest, q) {
                let i = choose|i: int| 0 <= i < rest.len() && same_attribute_set(#[trigger] rest[i].1, q);
                assert(ms[i + 1] == rest[i]);
            }
            if touches(ms, q) && !same_attribute_set(attrs, q) {
                let i = choose|i: int| 0 <= i < ms.len() && same_attribute_set(#[trigger] ms[i].1, q);
                assert(i != 0);
                assert(rest[i - 1] == ms[i]);
            }
            if same_attribute_set(attrs, q) {
                assert(same_attribute_set(ms[0].1, q));
                lemma_summary_same_set(vm, q, attrs);
                assert(same_attribute_set(q, recorded_attributes(vm, attrs)));
            } else {
                assert(!same_attribute_set(q, recorded_attributes(vm, attrs)));
            }
        }
    }
}

/// Folding measurements over two sequences in turn is folding them over
/// their concatenation; measurements with other attribute sets change nothing.
pub proof fn lemma_fold_measurements<A: Aggregator>(
    current: A::Value,
    a: Seq<(A::Value, Seq<AttributeView>)>,
    b: Seq<(A::Value, Seq<AttributeView>)>,
    q: Seq<AttributeView>,
)
    ensures
        fold_measurements::<A>(current, a + b, q) == fold_measurements::<A>(
            fold_measurements::<A>(current, a, q),
            b,
            q,
        ),
        !touches(a, q) ==> fold_measurements::<A>(current, a, q) == current,
    decreases a.len(),
{
    if a.len() == 0 {
        assert(a + b =~= b);
    } else {
        let next = if same_attribute_set(a[0].1, q) {
            A::combine(current, a[0].0)
        } else {
            current
        };
        lemma_fold_measurements::<A>(next, a.drop_first(), b, q);
        assert((a + b).drop_first() =~= a.drop_first() + b);
        assert((a + b)[0] == a[0]);
        if !touches(a, q) {
            assert(!same_attribute_set(a[0].1, q));
            assert forall|i: int| 0 <= i < a.drop_first().len() implies !same_attribute_set(
                #[trigger] a.drop_first()[i].1,
                q,
            ) by {
                assert(a.drop_first()[i] == a[i + 1]);
            }
        }
    }
}

/// The attribute sets measured over a concatenation are those measured
/// over either part.
pub proof fn lemma_measured_sets_concat<V>(a: Seq<(V, Seq<AttributeView>)>, b: Seq<(V, Seq<AttributeView>)>)
    ensures
        measured_sets(a + b) == measured_sets(a).union(measured_sets(b)),
    decreases a.len(),
{
    if a.len() == 0 {
        assert(a + b =~= b);
        assert(measured_sets(a).union(measured_sets(b)) =~= measured_sets(b));
    } else {
        lemma_measured_sets_concat(a.drop_first(), b);
        assert((a + b).drop_first() =~= a.drop_first() + b);
        assert((a + b)[0] == a[0]);
        if a[0].1.len() > 0 {
            assert(measured_sets(a + b) =~= measured_sets(a).union(measured_sets(b)));
        } else {
            assert(measured_sets(a + b) =~= measured_sets(a).union(measured_sets(b)));
        }
    }
}

} // verus!
