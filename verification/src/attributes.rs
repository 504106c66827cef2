//! Attributes: key-value pairs that identify a time series, and the
//! attribute set that a list of them denotes.

use vstd::prelude::*;

verus! {

/// The value of an attribute.
#[derive(Debug, Clone)]
pub enum Value {
    /// A boolean value
    Bool(bool),
    /// A signed integer value
    I64(i64),
    /// A string value
    String(String),
}

/// What a [`Value`] holds, with strings taken by their characters.
pub enum ValueView {
    Bool(bool),
    I64(i64),
    Str(Seq<char>),
}

impl View for Value {
    type V = ValueView;

    open spec fn view(&self) -> ValueView {
        match self {
            Value::Bool(b) => ValueView::Bool(*b),
            Value::I64(i) => ValueView::I64(*i),
            Value::String(s) => ValueView::Str(s@),
        }
    }
}

/// A key-value pair describing an attribute.
#[derive(Debug, Clone)]
pub struct KeyValue {
    /// The attribute name
    pub key: String,
    /// The attribute value
    pub value: Value,
}

/// An attribute taken by its key's characters and its value's view.
pub type AttributeView = (Seq<char>, ValueView);

impl View for KeyValue {
    type V = AttributeView;

    open spec fn view(&self) -> AttributeView {
        (self.key@, self.value@)
    }
}

/// The views of a list of attributes, in order.
pub open spec fn attrs_view(s: Seq<KeyValue>) -> Seq<AttributeView> {
    s.map_values(|kv: KeyValue| kv@)
}

/// The attribute set that a list of attributes denotes: each key mapped to
/// the value of its first occurrence. Two lists that denote the same set
/// identify the same time series, whatever their order or repetitions.
pub open spec fn attribute_map(s: Seq<AttributeView>) -> Map<Seq<char>, ValueView>
    decreases s.len(),
{
    if s.len() == 0 {
        Map::empty()
    } else {
        attribute_map(s.drop_first()).insert(s[0].0, s[0].1)
    }
}

/// `i` is the first position of `s` that holds the key `k`.
pub open spec fn is_first_key_index(s: Seq<AttributeView>, k: Seq<char>, i: int) -> bool {
    &&& 0 <= i < s.len()
    &&& s[i].0 == k
    &&& forall|j: int| 0 <= j < i ==> s[j].0 != k
}

/// A key belongs to the attribute set exactly when some attribute has it,
/// and the set maps it to the value of its first occurrence.
pub proof fn lemma_attribute_map(s: Seq<AttributeView>, k: Seq<char>)
    ensures
        attribute_map(s).dom().contains(k) <==> exists|i: int| 0 <= i < s.len() && s[i].0 == k,
        forall|i: int| is_first_key_index(s, k, i) ==> attribute_map(s)[k] == s[i].1,
    decreases s.len(),
{
    if s.len() > 0 {
        let t = s.drop_first();
        lemma_attribute_map(t, k);
        if s[0].0 != k {
            if exists|i: int| 0 <= i < s.len() && s[i].0 == k {
                let i = choose|i: int| 0 <= i < s.len() && s[i].0 == k;
                assert(t[i - 1].0 == k);
            }
            if exists|i: int| 0 <= i < t.len() && t[i].0 == k {
                let i = choose|i: int| 0 <= i < t.len() && t[i].0 == k;
                assert(s[i + 1].0 == k);
            }
            assert forall|i: int| is_first_key_index(s, k, i) implies attribute_map(s)[k] == s[i].1 by {
                assert(is_first_key_index(t, k, i - 1));
            }
        } else {
            assert forall|i: int| is_first_key_index(s, k, i) implies attribute_map(s)[k] == s[i].1 by {
                assert(i == 0);
            }
        }
    }
}

/// The key of the `x`-th attribute of `a` maps to the same value in the
/// attribute sets of `a` and `b`.
pub open spec fn key_agrees(a: Seq<AttributeView>, b: Seq<AttributeView>, x: int) -> bool {
    &&& attribute_map(b).dom().contains(a[x].0)
    &&& attribute_map(a).dom().contains(a[x].0)
    &&& attribute_map(b)[a[x].0] == attribute_map(a)[a[x].0]
}

/// Two lists of attributes denote the same attribute set.
pub open spec fn same_attribute_set(a: Seq<AttributeView>, b: Seq<AttributeView>) -> bool {
    attribute_map(a) == attribute_map(b)
}

impl Value {
    /// A copy of the value.
    pub fn duplicate(&self) -> (r: Value)
        ensures
            r@ == self@,
    {
        match self {
            Value::Bool(b) => Value::Bool(*b),
            Value::I64(i) => Value::I64(*i),
            Value::String(s) => Value::String(s.clone()),
        }
    }

    /// Whether two values are equal.
    pub fn equals(&self, other: &Value) -> (r: bool)
        ensures
            r == (self@ == other@),
    {
        match (self, other) {
            (Value::Bool(a), Value::Bool(b)) => *a == *b,
            (Value::I64(a), Value::I64(b)) => *a == *b,
            (Value::String(a), Value::String(b)) => {
                let eq = *a == *b;
                proof {
                    if eq {
                        assert(a@ == b@);
                    }
                }
                eq
            },
            _ => false,
        }
    }
}

impl KeyValue {
    /// Create a new `KeyValue` pair.
    pub fn new(key: String, value: Value) -> (r: KeyValue)
        ensures
            r.key == key,
            r.value == value,
    {
        KeyValue { key, value }
    }

    /// A copy of the attribute.
    pub fn duplicate(&self) -> (r: KeyValue)
        ensures
            r@ == self@,
    {
        KeyValue { key: self.key.clone(), value: self.value.duplicate() }
    }
}

/// A copy of a list of attributes.
pub fn duplicate_attributes(attrs: &[KeyValue]) -> (r: Vec<KeyValue>)
    ensures
        attrs_view(r@) == attrs_view(attrs@),
{
    let mut r: Vec<KeyValue> = Vec::new();
    for i in 0..attrs.len()
        invariant
            r@.len() == i,
            forall|j: int| 0 <= j < i ==> r@[j]@ == attrs@[j]@,
    {
        r.push(attrs[i].duplicate());
    }
    assert(attrs_view(r@) =~= attrs_view(attrs@));
    r
}

/// The first position in `attrs` whose key is `key`, if any.
pub fn find_key(attrs: &[KeyValue], key: &String) -> (r: Option<usize>)
    ensures
        match r {
            Some(i) => is_first_key_index(attrs_view(attrs@), key@, i as int),
            None => forall|j: int| 0 <= j < attrs@.len() ==> attrs@[j].key@ != key@,
        },
{
    for i in 0..attrs.len()
        invariant
            forall|j: int| 0 <= j < i ==> attrs@[j].key@ != key@,
    {
        if attrs[i].key == *key {
            return Some(i);
        }
    }
    None
}

/// Whether two lists of attributes denote the same attribute set.
pub fn same_attributes(a: &[KeyValue], b: &[KeyValue]) -> (r: bool)
    ensures
        r == same_attribute_set(attrs_view(a@), attrs_view(b@)),
{
    let ghost av = attrs_view(a@);
    let ghost bv = attrs_view(b@);
    let mut i: usize = 0;
    while i < a.len()
        invariant
            0 <= i <= a@.len(),
            av == attrs_view(a@),
            bv == attrs_view(b@),
            forall|j: int| 0 <= j < i ==> #[trigger] key_agrees(av, bv, j),
        decreases a@.len() - i,
    {
        let ghost k = av[i as int].0;
        proof {
            assert(av[i as int] == a@[i as int]@);
            lemma_attribute_map(av, k);
            lemma_attribute_map(bv, k);
        }
        match find_key(b, &a[i].key) {
            None => {
                assert forall|x: int| 0 <= x < bv.len() implies bv[x].0 != k by {
                    assert(bv[x] == b@[x]@);
                }
                assert(!attribute_map(bv).dom().contains(k));
                assert(attribute_map(av).dom().contains(k));
                return false;
            },
            Some(jb) => {
                let ja = find_key(a, &a[i].key);
                let ja = ja.unwrap();
                assert(av[ja as int] == a@[ja as int]@);
                assert(bv[jb as int] == b@[jb as int]@);
                assert(attribute_map(av)[k] == a@[ja as int].value@);
                assert(attribute_map(bv)[k] == b@[jb as int].value@);
                if !a[ja].value.equals(&b[jb].value) {
                    assert(attribute_map(av)[k] != attribute_map(bv)[k]);
                    return false;
                }
                assert(key_agrees(av, bv, i as int));
            },
        }
        i = i + 1;
    }
    let mut j: usize = 0;
    while j < b.len()
        invariant
            0 <= j <= b@.len(),
            av == attrs_view(a@),
            bv == attrs_view(b@),
            forall|x: int| 0 <= x < a@.len() ==> #[trigger] key_agrees(av, bv, x),
            forall|y: int| 0 <= y < j ==> #[trigger] attribute_map(av).dom().contains(bv[y].0),
        decreases b@.len() - j,
    {
        let ghost k = bv[j as int].0;
        proof {
            assert(bv[j as int] == b@[j as int]@);
            lemma_attribute_map(av, k);
            lemma_attribute_map(bv, k);
        }
        let found = find_key(a, &b[j].key);
        if found.is_none() {
            assert forall|x: int| 0 <= x < av.len() implies av[x].0 != k by {
                assert(av[x] == a@[x]@);
            }
            assert(!attribute_map(av).dom().contains(k));
            assert(attribute_map(bv).dom().contains(k));
            return false;
        }
        assert(av[found.unwrap() as int] == a@[found.unwrap() as int]@);
        j = j + 1;
    }
    assert forall|k: Seq<char>| #[trigger] attribute_map(av).dom().contains(k) implies attribute_map(bv).dom().contains(k)
        && attribute_map(bv)[k] == attribute_map(av)[k] by {
        lemma_attribute_map(av, k);
        let x = choose|x: int| 0 <= x < av.len() && av[x].0 == k;
        assert(key_agrees(av, bv, x));
    }
    assert forall|k: Seq<char>| #[trigger] attribute_map(bv).dom().contains(k) implies attribute_map(av).dom().contains(k) by {
        lemma_attribute_map(bv, k);
        let y = choose|y: int| 0 <= y < bv.len() && bv[y].0 == k;
        assert(attribute_map(av).dom().contains(bv[y].0));
    }
    assert(attribute_map(av).dom() =~= attribute_map(bv).dom());
    assert(attribute_map(av) =~= attribute_map(bv));
    true
}

} // verus!
