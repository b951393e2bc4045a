//! The values that filters extract from requests.
use vstd::prelude::*;

verus! {

/// A value a filter extracts from a request.
#[derive(Debug, Clone, PartialEq, Eq)]
pub enum Value {
    Text(String),
    Num(u64),
    Flag(bool),
    Bytes(Vec<u8>),
}

/// The mathematical value of a [`Value`].
pub enum ValueView {
    Text(Seq<char>),
    Num(u64),
    Flag(bool),
    Bytes(Seq<u8>),
}

impl View for Value {
    type V = ValueView;

    open spec fn view(&self) -> ValueView {
        match self {
            Value::Text(s) => ValueView::Text(s@),
            Value::Num(n) => ValueView::Num(*n),
            Value::Flag(b) => ValueView::Flag(*b),
            Value::Bytes(b) => ValueView::Bytes(b@),
        }
    }
}

pub open spec fn values_view(v: Seq<Value>) -> Seq<ValueView> {
    v.map_values(|x: Value| x@)
}

impl Value {
    /// A copy of this value.
    pub fn duplicate(&self) -> (r: Value)
        ensures
            r@ == self@,
    {
        match self {
            Value::Text(s) => Value::Text(s.clone()),
            Value::Num(n) => Value::Num(*n),
            Value::Flag(b) => Value::Flag(*b),
            Value::Bytes(b) => Value::Bytes(copy_bytes(b)),
        }
    }
}

/// A copy of a list of values.
pub fn duplicate_all(v: &Vec<Value>) -> (r: Vec<Value>)
    ensures
        values_view(r@) == values_view(v@),
{
    let mut r: Vec<Value> = Vec::new();
    let mut i: usize = 0;
    while i < v.len()
        invariant
            i <= v@.len(),
            r@.len() == i,
            forall|k: int| 0 <= k < i ==> (#[trigger] r@[k])@ == v@[k]@,
        decreases v@.len() - i,
    {
        r.push(v[i].duplicate());
        i = i + 1;
    }
    assert(values_view(r@) =~= values_view(v@));
    r
}

/// A copy of a list of bytes.
pub fn copy_bytes(b: &Vec<u8>) -> (r: Vec<u8>)
    ensures
        r@ == b@,
{
    let mut r: Vec<u8> = Vec::new();
    let mut i: usize = 0;
    while i < b.len()
        invariant
            i <= b@.len(),
            r@ == b@.subrange(0, i as int),
        decreases b@.len() - i,
    {
        r.push(b[i]);
        i = i + 1;
        assert(r@ =~= b@.subrange(0, i as int));
    }
    assert(r@ =~= b@);
    r
}

} // verus!
