//! The collector: filters the attributes of each measurement, feeds it to
//! the map of time series, and turns the series into the data points of an
//! aggregation of the map's temporality.

use crate::attributes::{attrs_view, AttributeView, KeyValue};
use crate::data::{points_view, with_points, Aggregation, AggregationView, DataPoint, Temporality};
use crate::time::now;
use crate::value_map::{
    collected_points, empty_view, measured, view_wf, Aggregator, ValueMap, ValueMapView,
};
use std::time::SystemTime;
use vstd::prelude::*;

verus! {

/// The attributes of `s` whose keys `allows` admits, in order.
pub open spec fn filter_attributes(s: Seq<AttributeView>, allows: spec_fn(Seq<char>) -> bool) -> Seq<AttributeView>
    decreases s.len(),
{
    if s.len() == 0 {
        Seq::empty()
    } else {
        let rest = filter_attributes(s.drop_last(), allows);
        if allows(s.last().0) {
            rest.push(s.last())
        } else {
            rest
        }
    }
}

/// The characters of each string, in order.
pub open spec fn string_views(s: Seq<String>) -> Seq<Seq<char>> {
    s.map_values(|k: String| k@)
}

/// The filtered attributes are exactly those of `s` whose keys are allowed,
/// and filtering them again changes nothing.
pub proof fn lemma_filter_attributes(s: Seq<AttributeView>, allows: spec_fn(Seq<char>) -> bool)
    ensures
        forall|x: AttributeView| #[trigger] filter_attributes(s, allows).contains(x) <==> (s.contains(x) && allows(x.0)),
        filter_attributes(filter_attributes(s, allows), allows) == filter_attributes(s, allows),
        filter_attributes(s, allows).len() <= s.len(),
    decreases s.len(),
{
    if s.len() > 0 {
        let init = s.drop_last();
        lemma_filter_attributes(init, allows);
        let rest = filter_attributes(init, allows);
        assert forall|x: AttributeView| #[trigger] filter_attributes(s, allows).contains(x) <==> (s.contains(
            x,
        ) && allows(x.0)) by {
            if s.contains(x) && x != s.last() {
                let i = choose|i: int| 0 <= i < s.len() && s[i] == x;
                assert(init[i] == x);
            }
            if init.contains(x) {
                let i = choose|i: int| 0 <= i < init.len() && init[i] == x;
                assert(s[i] == x);
            }
            if allows(s.last().0) {
                assert(rest.push(s.last())[rest.len() as int] == s.last());
                if rest.contains(x) {
                    let i = choose|i: int| 0 <= i < rest.len() && rest[i] == x;
                    assert(rest.push(s.last())[i] == x);
                }
                if rest.push(s.last()).contains(x) && x != s.last() {
                    let i = choose|i: int| 0 <= i < rest.len() + 1 && rest.push(s.last())[i] == x;
                    assert(rest[i] == x);
                }
            }
            assert(s[s.len() - 1] == s.last());
        }
        if allows(s.last().0) {
            let f = rest.push(s.last());
            assert(f.drop_last() =~= rest);
            assert(f.last() == s.last());
        }
    }
}

/// Keeps, of the attributes of each measurement, those whose keys are allowed.
pub struct AttributeSetFilter {
    allowed_keys: Option<Vec<String>>,
}

impl AttributeSetFilter {
    /// The keys that the filter lets through: all of them, or those listed.
    pub closed spec fn allowed_keys(&self) -> Option<Seq<Seq<char>>> {
        match &self.allowed_keys {
            None => None,
            Some(keys) => Some(string_views(keys@)),
        }
    }

    /// Whether the filter lets attributes with key `key` through.
    pub open spec fn allows(&self, key: Seq<char>) -> bool {
        match self.allowed_keys() {
            None => true,
            Some(keys) => keys.contains(key),
        }
    }

    /// A filter that lets through the attributes whose keys are listed, or
    /// all attributes where no list is given.
    pub fn new(allowed_keys: Option<Vec<String>>) -> (r: Self)
        ensures
            r.allowed_keys() == match allowed_keys {
                None => None::<Seq<Seq<char>>>,
                Some(keys) => Some(string_views(keys@)),
            },
    {
        AttributeSetFilter { allowed_keys }
    }

    /// Whether the filter lets attributes with key `key` through.
    fn is_allowed(&self, key: &String) -> (r: bool)
        ensures
            r == self.allows(key@),
    {
        match &self.allowed_keys {
            None => true,
            Some(keys) => {
                let ghost kv = string_views(keys@);
                let mut i: usize = 0;
                while i < keys.len()
                    invariant
                        0 <= i <= keys@.len(),
                        kv == string_views(keys@),
                        self.allowed_keys() == Some(kv),
                        forall|j: int| 0 <= j < i ==> kv[j] != key@,
                    decreases keys@.len() - i,
                {
                    if keys[i] == *key {
                        assert(kv[i as int] == key@);
                        assert(kv.contains(key@));
                        return true;
                    }
                    i = i + 1;
                }
                assert(!kv.contains(key@));
                false
            },
        }
    }

    /// The attributes that the filter lets through, in order.
    pub fn apply(&self, attrs: &[KeyValue]) -> (r: Vec<KeyValue>)
        ensures
            attrs_view(r@) == filter_attributes(attrs_view(attrs@), |k: Seq<char>| self.allows(k)),
    {
        let ghost allows = |k: Seq<char>| self.allows(k);
        let ghost av = attrs_view(attrs@);
        let mut r: Vec<KeyValue> = Vec::new();
        let mut i: usize = 0;
        while i < attrs.len()
            invariant
                0 <= i <= attrs@.len(),
                av == attrs_view(attrs@),
                allows == (|k: Seq<char>| self.allows(k)),
                attrs_view(r@) == filter_attributes(av.take(i as int), allows),
            decreases attrs@.len() - i,
        {
            let ghost before = r@;
            assert(av.take(i as int + 1).drop_last() =~= av.take(i as int));
            assert(av.take(i as int + 1).last() == attrs@[i as int]@);
            if self.is_allowed(&attrs[i].key) {
                r.push(attrs[i].duplicate());
                assert(attrs_view(r@) =~= attrs_view(before).push(attrs@[i as int]@));
            }
            i = i + 1;
        }
        assert(av.take(attrs@.len() as int) =~= av);
        r
    }
}


/// The window of time that one collection covers.
pub struct AggregateTime {
    /// The start of the window.
    pub start: SystemTime,
    /// The end of the window: the time of the collection.
    pub current: SystemTime,
}

/// Hands out the time windows of successive collections.
pub struct AggregateTimeInitiator {
    start: SystemTime,
}

impl AggregateTimeInitiator {
    /// The start of the window of the next delta collection, and of every
    /// cumulative one.
    pub closed spec fn start_time(&self) -> SystemTime {
        self.start
    }

    /// An initiator whose first window starts now.
    pub fn default() -> (r: Self) {
        AggregateTimeInitiator { start: now() }
    }

    /// The window of a delta collection: from the end of the previous one
    /// until now. The next window starts where this one ends.
    pub fn delta(&mut self) -> (r: AggregateTime)
        ensures
            r.start == old(self).start_time(),
            r.current == final(self).start_time(),
    {
        let current = now();
        let start = self.start;
        self.start = current;
        AggregateTime { start, current }
    }

    /// The window of a cumulative collection: from the fixed start until now.
    pub fn cumulative(&self) -> (r: AggregateTime)
        ensures
            r.start == self.start_time(),
    {
        AggregateTime { start: self.start, current: now() }
    }
}

/// Aggregates measurements per attribute set and collects the aggregates
/// into data points of a fixed temporality.
pub trait AggregateMap<A: Aggregator>: Sized {
    /// The temporality of the collected data points.
    spec fn spec_temporality() -> Temporality;

    /// The map is well formed.
    spec fn wf(&self) -> bool;

    /// The aggregates per attribute set.
    spec fn series(&self) -> ValueMapView<A::Value>;

    /// The aggregates of a well-formed map are kept under distinct attribute sets.
    proof fn lemma_series_wf(&self)
        requires
            self.wf(),
        ensures
            view_wf(self.series()),
    ;

    /// The temporality of the collected data points.
    fn temporality() -> (r: Temporality)
        ensures
            r == Self::spec_temporality(),
    ;

    /// Adds a measurement to the aggregate of its attribute set.
    fn measure(&mut self, value: A::Value, attributes: &[KeyValue])
        requires
            old(self).wf(),
        ensures
            final(self).wf(),
            final(self).series() == measured::<A>(old(self).series(), value, attrs_view(attributes@)),
    ;

    /// Replaces the contents of `dest` with the data points of all
    /// aggregates, stamped with the given times. A delta map starts over
    /// afterwards; any other keeps its aggregates.
    fn collect_data_points(&mut self, dest: &mut Vec<DataPoint<A::Value>>, start_time: SystemTime, time: SystemTime)
        requires
            old(self).wf(),
        ensures
            final(self).wf(),
            points_view(final(dest)@) == collected_points(old(self).series(), start_time, time),
            final(self).series() == (if Self::spec_temporality() == Temporality::Delta {
                empty_view::<A::Value>()
            } else {
                old(self).series()
            }),
    ;
}

/// An aggregate map whose data points cover the time since the previous
/// collection.
pub struct DeltaValueMap<A: Aggregator>(ValueMap<A>);

impl<A: Aggregator> DeltaValueMap<A> {
    /// A delta map that tracks nothing.
    pub fn new() -> (r: Self)
        ensures
            r.wf(),
            r.series() == empty_view::<A::Value>(),
    {
        DeltaValueMap(ValueMap::new())
    }
}

impl<A: Aggregator> AggregateMap<A> for DeltaValueMap<A> {
    open spec fn spec_temporality() -> Temporality {
        Temporality::Delta
    }

    closed spec fn wf(&self) -> bool {
        self.0.wf()
    }

    closed spec fn series(&self) -> ValueMapView<A::Value> {
        self.0@
    }

    proof fn lemma_series_wf(&self) {
        self.0.lemma_wf_bounds();
    }

    fn temporality() -> (r: Temporality) {
        Temporality::Delta
    }

    fn measure(&mut self, value: A::Value, attributes: &[KeyValue]) {
        self.0.measure(value, attributes);
    }

    fn collect_data_points(&mut self, dest: &mut Vec<DataPoint<A::Value>>, start_time: SystemTime, time: SystemTime) {
        self.0.collect_and_reset(dest, start_time, time);
    }
}

/// An aggregate map whose data points cover the time since a fixed start.
pub struct CumulativeValueMap<A: Aggregator>(ValueMap<A>);

impl<A: Aggregator> CumulativeValueMap<A> {
    /// A cumulative map that tracks nothing.
    pub fn new() -> (r: Self)
        ensures
            r.wf(),
            r.series() == empty_view::<A::Value>(),
    {
        CumulativeValueMap(ValueMap::new())
    }
}

impl<A: Aggregator> AggregateMap<A> for CumulativeValueMap<A> {
    open spec fn spec_temporality() -> Temporality {
        Temporality::Cumulative
    }

    closed spec fn wf(&self) -> bool {
        self.0.wf()
    }

    closed spec fn series(&self) -> ValueMapView<A::Value> {
        self.0@
    }

    proof fn lemma_series_wf(&self) {
        self.0.lemma_wf_bounds();
    }

    fn temporality() -> (r: Temporality) {
        Temporality::Cumulative
    }

    fn measure(&mut self, value: A::Value, attributes: &[KeyValue]) {
        self.0.measure(value, attributes);
    }

    fn collect_data_points(&mut self, dest: &mut Vec<DataPoint<A::Value>>, start_time: SystemTime, time: SystemTime) {
        self.0.collect_readonly(dest, start_time, time);
    }
}


/// The kind of aggregation a collector fills, and how it starts one.
pub trait AggregationCollect<V>: Sized {
    /// Whether an aggregation is of the kind this one fills.
    spec fn spec_is_kind(agg: AggregationView<V>) -> bool;

    /// The aggregation, still without data points, that a collection of the
    /// given temporality fills.
    spec fn spec_empty(&self, temporality: Temporality) -> AggregationView<V>;

    /// Whether an aggregation is of the kind this one fills.
    fn is_kind(agg: &Aggregation<V>) -> (r: bool)
        ensures
            r == Self::spec_is_kind(agg@),
    ;

    /// A new aggregation, without data points, for a collection of the given
    /// temporality over the given window.
    fn create_new(&self, temporality: Temporality, time: &AggregateTime) -> (r: Aggregation<V>)
        ensures
            r@ == self.spec_empty(temporality),
    ;

    /// Prepares an aggregation of this kind for reuse by a collection of the
    /// given temporality over the given window: its points are cleared.
    fn reset_existing(&self, existing: &mut Aggregation<V>, temporality: Temporality, time: &AggregateTime)
        requires
            Self::spec_is_kind(old(existing)@),
        ensures
            final(existing)@ == self.spec_empty(temporality),
    ;
}

/// Filters the attributes of measurements, aggregates them per attribute
/// set, and collects the aggregates into aggregations of one kind.
pub struct Collector<Ag: Aggregator, A: AggregationCollect<Ag::Value>, AM: AggregateMap<Ag>> {
    filter: AttributeSetFilter,
    aggregation: A,
    aggregate_map: AM,
    time: AggregateTimeInitiator,
    aggregator: std::marker::PhantomData<Ag>,
}

impl<Ag: Aggregator, A: AggregationCollect<Ag::Value>, AM: AggregateMap<Ag>> Collector<Ag, A, AM> {
    /// The collector is well formed.
    pub closed spec fn wf(&self) -> bool {
        self.aggregate_map.wf()
    }

    /// The aggregates per attribute set since the start of the current window.
    pub closed spec fn series(&self) -> ValueMapView<Ag::Value> {
        self.aggregate_map.series()
    }

    /// The start of the window of the next delta collection, and of every
    /// cumulative one.
    pub closed spec fn start_time(&self) -> SystemTime {
        self.time.start_time()
    }

    /// The kind of aggregation the collector fills.
    pub closed spec fn aggregation(&self) -> A {
        self.aggregation
    }

    /// The filter applied to the attributes of each measurement.
    pub closed spec fn filter(&self) -> AttributeSetFilter {
        self.filter
    }

    /// The aggregates of a well-formed collector are kept under distinct attribute sets.
    pub proof fn lemma_series_wf(&self)
        requires
            self.wf(),
        ensures
            view_wf(self.series()),
    {
        self.aggregate_map.lemma_series_wf();
    }

    /// A collector that filters attributes with `filter`, aggregates into
    /// `aggregate_map` and fills aggregations of the kind of `aggregation`;
    /// its first window starts now.
    pub fn new(filter: AttributeSetFilter, aggregation: A, aggregate_map: AM) -> (r: Self)
        ensures
            r.filter() == filter,
            r.aggregation() == aggregation,
            r.series() == aggregate_map.series(),
            r.wf() == aggregate_map.wf(),
    {
        Collector {
            filter,
            aggregation,
            aggregate_map,
            time: AggregateTimeInitiator::default(),
            aggregator: std::marker::PhantomData,
        }
    }

    /// The window of the next collection: a delta collection runs from the
    /// end of the previous one until now, any other from the fixed start
    /// until now.
    fn init_time(&mut self) -> (r: AggregateTime)
        ensures
            r.start == old(self).start_time(),
            AM::spec_temporality() == Temporality::Delta ==> r.current == final(self).start_time(),
            AM::spec_temporality() != Temporality::Delta ==> final(self).start_time() == old(self).start_time(),
            final(self).series() == old(self).series(),
            final(self).wf() == old(self).wf(),
            final(self).aggregation() == old(self).aggregation(),
            final(self).filter() == old(self).filter(),
    {
        if let Temporality::Delta = AM::temporality() {
            self.time.delta()
        } else {
            self.time.cumulative()
        }
    }

    /// Records one measurement: its attributes are filtered, then it is
    /// added to the aggregate of the remaining attribute set.
    pub fn measure(&mut self, measurement: Ag::Value, attrs: &[KeyValue])
        requires
            old(self).wf(),
        ensures
            final(self).wf(),
            final(self).series() == measured::<Ag>(
                old(self).series(),
                measurement,
                filter_attributes(attrs_view(attrs@), |k: Seq<char>| old(self).filter().allows(k)),
            ),
            final(self).start_time() == old(self).start_time(),
            final(self).aggregation() == old(self).aggregation(),
            final(self).filter() == old(self).filter(),
    {
        let filtered = self.filter.apply(attrs);
        self.aggregate_map.measure(measurement, filtered.as_slice());
    }

    /// Collects the aggregates of the current window: into `dest` where it
    /// already is an aggregation of the collector's kind, which is then
    /// reused, else into a new one that is returned. Returns the number of
    /// data points, and the new aggregation if one was made.
    pub fn collect(&mut self, dest: Option<&mut Aggregation<Ag::Value>>) -> (r: (usize, Option<Aggregation<Ag::Value>>))
        requires
            old(self).wf(),
        ensures
            final(self).wf(),
            final(self).series() == (if AM::spec_temporality() == Temporality::Delta {
                empty_view::<Ag::Value>()
            } else {
                old(self).series()
            }),
            final(self).aggregation() == old(self).aggregation(),
            final(self).filter() == old(self).filter(),
            AM::spec_temporality() != Temporality::Delta ==> final(self).start_time() == old(self).start_time(),
            exists|end: SystemTime|
                #![trigger collected_points(old(self).series(), old(self).start_time(), end)]
                {
                let points = collected_points(old(self).series(), old(self).start_time(), end);
                let expected = with_points(old(self).aggregation().spec_empty(AM::spec_temporality()), points);
                &&& AM::spec_temporality() == Temporality::Delta ==> end == final(self).start_time()
                &&& r.0 == points.len()
                &&& match dest {
                    Some(d) => if A::spec_is_kind(d@) {
                        r.1 is None && final(d)@ == expected
                    } else {
                        *final(d) == *d && (r.1 matches Some(a) && a@ == expected)
                    },
                    None => r.1 matches Some(a) && a@ == expected,
                }
            },
    {
        let time = self.init_time();
        let temporality = AM::temporality();
        let mut points: Vec<DataPoint<Ag::Value>> = Vec::new();
        match dest {
            Some(existing) => {
                if A::is_kind(existing) {
                    self.aggregation.reset_existing(existing, temporality, &time);
                    self.aggregate_map.collect_data_points(&mut points, time.start, time.current);
                    existing.set_points(points);
                    return (existing.points_len(), None);
                }
            },
            None => {},
        }
        let mut created = self.aggregation.create_new(temporality, &time);
        self.aggregate_map.collect_data_points(&mut points, time.start, time.current);
        created.set_points(points);
        (created.points_len(), Some(created))
    }
}

/// A collector that fills aggregations of the kind of `aggregation` from
/// the aggregates of `aggregate_map`, after filtering attributes with `filter`.
pub fn create_aggregation<Ag: Aggregator, A: AggregationCollect<Ag::Value>, AM: AggregateMap<Ag>>(
    aggregation: A,
    aggregate_map: AM,
    filter: AttributeSetFilter,
) -> (r: Collector<Ag, A, AM>)
    ensures
        r.filter() == filter,
        r.aggregation() == aggregation,
        r.series() == aggregate_map.series(),
        r.wf() == aggregate_map.wf(),
{
    Collector::new(filter, aggregation, aggregate_map)
}

} // verus!
