//! One step of the gauge stress test: record a value for an attribute set
//! drawn at random.

use crate::attributes::{attrs_view, AttributeView, KeyValue, Value, ValueView};
use crate::gauge::{Gauge, LastValue};
use crate::value_map::measured;
use rand::rngs::SmallRng;
use rand::Rng;
use vstd::prelude::*;

verus! {

#[verifier::external_type_specification]
#[verifier::external_body]
pub struct ExSmallRng(SmallRng);

/// `rand::Rng::gen_range` over `0..len`: an index below `len`, drawn at random.
/// `len` must be positive, as `gen_range` panics on an empty range.
#[verifier::external_body]
fn random_index(rng: &mut SmallRng, len: usize) -> (r: usize)
    requires
        len > 0,
    ensures
        r < len,
{
    rng.gen_range(0..len)
}

/// The attribute set that the stress test records under, for the chosen values.
pub open spec fn stress_attributes(first: Seq<char>, second: Seq<char>, third: Seq<char>) -> Seq<AttributeView> {
    seq![
        ("attribute1"@, ValueView::Str(first)),
        ("attribute2"@, ValueView::Str(second)),
        ("attribute3"@, ValueView::Str(third)),
    ]
}

/// A stress test of gauges: each run records into the first gauge under
/// three attributes whose values are drawn from a fixed list.
pub struct Test {
    /// The gauges under test.
    pub gauges: Vec<Gauge<u64>>,
    /// The values the attributes are drawn from.
    pub values: [&'static str; 10],
}

impl Test {
    /// Records the value 1 into the first gauge, under `attribute1`,
    /// `attribute2` and `attribute3` set to values drawn at random from
    /// `values`. Each attribute has 10 possible values, so there are 1000
    /// possible attribute sets (time series).
    pub fn run(&mut self, rng: &mut SmallRng)
        requires
            old(self).gauges@.len() > 0,
            old(self).gauges@[0].wf(),
        ensures
            final(self).values == old(self).values,
            final(self).gauges@.len() == old(self).gauges@.len(),
            forall|g: int| 0 < g < old(self).gauges@.len() ==> final(self).gauges@[g] == old(self).gauges@[g],
            final(self).gauges@[0].wf(),
            final(self).gauges@[0].start_time() == old(self).gauges@[0].start_time(),
            exists|i: int, j: int, k: int|
                0 <= i < 10 && 0 <= j < 10 && 0 <= k < 10 && final(self).gauges@[0].series()
                    == #[trigger] measured::<LastValue<u64>>(
                    old(self).gauges@[0].series(),
                    1,
                    stress_attributes(old(self).values[i]@, old(self).values[j]@, old(self).values[k]@),
                ),
    {
        let len = self.values.len();
        let index_first_attribute = random_index(rng, len);
        let index_second_attribute = random_index(rng, len);
        let index_third_attribute = random_index(rng, len);
        self.record_drawn(index_first_attribute, index_second_attribute, index_third_attribute);
    }

    /// Records the value 1 into the first gauge, under `attribute1`,
    /// `attribute2` and `attribute3` set to the values at positions `first`,
    /// `second` and `third` of `values`.
    pub fn record_drawn(&mut self, first: usize, second: usize, third: usize)
        requires
            old(self).gauges@.len() > 0,
            old(self).gauges@[0].wf(),
            first < 10,
            second < 10,
            third < 10,
        ensures
            final(self).values == old(self).values,
            final(self).gauges@.len() == old(self).gauges@.len(),
            forall|g: int| 0 < g < old(self).gauges@.len() ==> final(self).gauges@[g] == old(self).gauges@[g],
            final(self).gauges@[0].wf(),
            final(self).gauges@[0].start_time() == old(self).gauges@[0].start_time(),
            final(self).gauges@[0].series() == measured::<LastValue<u64>>(
                old(self).gauges@[0].series(),
                1,
                stress_attributes(
                    old(self).values[first as int]@,
                    old(self).values[second as int]@,
                    old(self).values[third as int]@,
                ),
            ),
    {
        let mut attributes: Vec<KeyValue> = Vec::new();
        attributes.push(KeyValue {
            key: String::from_str("attribute1"),
            value: Value::String(String::from_str(self.values[first])),
        });
        attributes.push(KeyValue {
            key: String::from_str("attribute2"),
            value: Value::String(String::from_str(self.values[second])),
        });
        attributes.push(KeyValue {
            key: String::from_str("attribute3"),
            value: Value::String(String::from_str(self.values[third])),
        });
        let ghost expected = stress_attributes(
            self.values[first as int]@,
            self.values[second as int]@,
            self.values[third as int]@,
        );
        assert(attrs_view(attributes@) =~= expected);
        self.gauges[0].record(1, attributes.as_slice());
    }
}

} // verus!
