//! The schemaless value tree: a tagged union covering every shape the
//! protocol can carry, together with its mathematical model.
//!
//! A [`Value`] is the canonical in-memory interchange form: any encodable
//! value can be materialized as a tree, and a tree can be replayed through
//! the wire format. The ghost counterpart [`ValueView`] models a tree over
//! `Seq` and `Box` so that contracts can speak of structural equality.

use vstd::prelude::*;

verus! {

/// A number: exactly one unsigned or signed width is active, and equality is
/// defined per active variant, never across variants.
#[derive(Clone, Copy, PartialEq, Eq, Structural, Debug)]
pub enum Number {
    U8(u8),
    U16(u16),
    U32(u32),
    U64(u64),
    U128(u128),
    Usize(usize),
    I8(i8),
    I16(i16),
    I32(i32),
    I64(i64),
    I128(i128),
    Isize(isize),
}

/// A schemaless value tree.
///
/// A `Mapping` is an ordered list of pairs: encounter order is preserved and
/// duplicate keys are permitted; it is not a hash table. A `Variant` pairs a
/// tag value with its payload value.
#[derive(PartialEq, Debug)]
pub enum Value {
    Unit,
    Bool(bool),
    Char(char),
    Number(Number),
    Bytes(Vec<u8>),
    String(String),
    Option(Option<Box<Value>>),
    Sequence(Vec<Value>),
    Mapping(Vec<(Value, Value)>),
    Variant(Box<(Value, Value)>),
}

/// The mathematical model of a [`Value`] tree.
pub enum ValueView {
    Unit,
    Bool(bool),
    Char(char),
    Number(Number),
    Bytes(Seq<u8>),
    String(Seq<char>),
    Option(Option<Box<ValueView>>),
    Sequence(Seq<ValueView>),
    Mapping(Seq<(ValueView, ValueView)>),
    Variant(Box<(ValueView, ValueView)>),
}

/// The model of a [`Value`]: the same tree over `Seq` and views.
pub open spec fn vview(v: Value) -> ValueView
    decreases v,
{
    match v {
        Value::Unit => ValueView::Unit,
        Value::Bool(b) => ValueView::Bool(b),
        Value::Char(c) => ValueView::Char(c),
        Value::Number(n) => ValueView::Number(n),
        Value::Bytes(bs) => ValueView::Bytes(bs@),
        Value::String(s) => ValueView::String(s@),
        Value::Option(o) => match o {
            Option::None => ValueView::Option(Option::None),
            Option::Some(bx) => ValueView::Option(Option::Some(Box::new(vview(*bx)))),
        },
        Value::Sequence(vs) => ValueView::Sequence(vview_list(vs@)),
        Value::Mapping(ps) => ValueView::Mapping(vview_pairs(ps@)),
        Value::Variant(bx) => ValueView::Variant(Box::new((vview(bx.0), vview(bx.1)))),
    }
}

/// The models of a list of values, in order.
pub open spec fn vview_list(s: Seq<Value>) -> Seq<ValueView>
    decreases s,
{
    if s.len() == 0 {
        Seq::empty()
    } else {
        vview_list(s.drop_last()).push(vview(s[s.len() - 1]))
    }
}

/// The models of a list of key-value pairs, in order.
pub open spec fn vview_pairs(s: Seq<(Value, Value)>) -> Seq<(ValueView, ValueView)>
    decreases s,
{
    if s.len() == 0 {
        Seq::empty()
    } else {
        vview_pairs(s.drop_last()).push((vview(s[s.len() - 1].0), vview(s[s.len() - 1].1)))
    }
}

/// [`vview_list`] maps the model over the list element by element.
pub proof fn lemma_vview_list(s: Seq<Value>)
    ensures
        vview_list(s).len() == s.len(),
        forall|i: int| 0 <= i < s.len() ==> vview_list(s)[i] == vview(s[i]),
    decreases s.len(),
{
    if s.len() > 0 {
        lemma_vview_list(s.drop_last());
    }
}

/// [`vview_pairs`] maps the models over the pairs element by element.
pub proof fn lemma_vview_pairs(s: Seq<(Value, Value)>)
    ensures
        vview_pairs(s).len() == s.len(),
        forall|i: int|
            0 <= i < s.len() ==> vview_pairs(s)[i] == (vview(s[i].0), vview(s[i].1)),
    decreases s.len(),
{
    if s.len() > 0 {
        lemma_vview_pairs(s.drop_last());
    }
}

impl View for Value {
    type V = ValueView;

    open spec fn view(&self) -> ValueView {
        vview(*self)
    }
}

/// Structural equality of two value trees, decided recursively.
pub fn value_eq(a: &Value, b: &Value) -> (r: bool)
    ensures
        r == (a@ == b@),
    decreases *a,
{
    match (a, b) {
        (Value::Unit, Value::Unit) => true,
        (Value::Bool(x), Value::Bool(y)) => x == y,
        (Value::Char(x), Value::Char(y)) => x == y,
        (Value::Number(x), Value::Number(y)) => x == y,
        (Value::Bytes(x), Value::Bytes(y)) => bytes_eq(x, y),
        (Value::String(x), Value::String(y)) => str_eq(x.as_str(), y.as_str()),
        (Value::Option(x), Value::Option(y)) => match (x, y) {
            (Option::None, Option::None) => true,
            (Option::Some(bx), Option::Some(by)) => value_eq(bx, by),
            _ => false,
        },
        (Value::Sequence(xs), Value::Sequence(ys)) => value_list_eq(xs, ys),
        (Value::Mapping(xs), Value::Mapping(ys)) => pair_list_eq(xs, ys),
        (Value::Variant(bx), Value::Variant(by)) => {
            let rt = value_eq(&bx.0, &by.0);
            let rv = value_eq(&bx.1, &by.1);
            rt && rv
        },
        _ => false,
    }
}

/// Equality of two text slices, decided by their encoded bytes.
pub fn str_eq(a: &str, b: &str) -> (r: bool)
    ensures
        r == (a@ == b@),
{
    let ab = a.as_bytes();
    let bb = b.as_bytes();
    proof {
        vstd::utf8::encode_utf8_decode_utf8(a@);
        vstd::utf8::encode_utf8_decode_utf8(b@);
    }
    if ab.len() != bb.len() {
        return false;
    }
    let mut i: usize = 0;
    while i < ab.len()
        invariant
            0 <= i <= ab@.len(),
            ab@.len() == bb@.len(),
            ab@ == vstd::utf8::encode_utf8(a@),
            bb@ == vstd::utf8::encode_utf8(b@),
            forall|j: int| 0 <= j < i ==> ab@[j] == bb@[j],
        decreases ab@.len() - i,
    {
        if ab[i] != bb[i] {
            proof {
                assert(ab@ != bb@);
            }
            return false;
        }
        i = i + 1;
    }
    proof {
        assert(ab@ =~= bb@);
        vstd::utf8::encode_utf8_decode_utf8(a@);
        vstd::utf8::encode_utf8_decode_utf8(b@);
    }
    true
}

/// Byte-for-byte equality of two byte strings.
pub fn bytes_eq(a: &Vec<u8>, b: &Vec<u8>) -> (r: bool)
    ensures
        r == (a@ == b@),
{
    if a.len() != b.len() {
        return false;
    }
    let mut i: usize = 0;
    while i < a.len()
        invariant
            0 <= i <= a.len(),
            a@.len() == b@.len(),
            forall|j: int| 0 <= j < i ==> a@[j] == b@[j],
        decreases a.len() - i,
    {
        if a[i] != b[i] {
            return false;
        }
        i = i + 1;
    }
    proof {
        assert(a@ =~= b@);
    }
    true
}

/// Element-wise structural equality of two lists of values.
fn value_list_eq(xs: &Vec<Value>, ys: &Vec<Value>) -> (r: bool)
    ensures
        r == (vview_list(xs@) == vview_list(ys@)),
    decreases xs@,
{
    proof {
        lemma_vview_list(xs@);
        lemma_vview_list(ys@);
    }
    if xs.len() != ys.len() {
        return false;
    }
    let mut i: usize = 0;
    while i < xs.len()
        invariant
            0 <= i <= xs@.len(),
            xs@.len() == ys@.len(),
            vview_list(xs@).len() == xs@.len(),
            vview_list(ys@).len() == ys@.len(),
            forall|j: int| 0 <= j < xs@.len() ==> vview_list(xs@)[j] == vview(xs@[j]),
            forall|j: int| 0 <= j < ys@.len() ==> vview_list(ys@)[j] == vview(ys@[j]),
            forall|j: int| 0 <= j < i ==> vview_list(xs@)[j] == vview_list(ys@)[j],
        decreases xs@.len() - i,
    {
        proof {
            assert(decreases_to!(xs@ => xs@[i as int]));
        }
        if !value_eq(&xs[i], &ys[i]) {
            proof {
                assert(vview_list(xs@)[i as int] != vview_list(ys@)[i as int]);
            }
            return false;
        }
        i = i + 1;
    }
    proof {
        assert(vview_list(xs@) =~= vview_list(ys@));
    }
    true
}

/// Element-wise structural equality of two lists of key-value pairs.
fn pair_list_eq(xs: &Vec<(Value, Value)>, ys: &Vec<(Value, Value)>) -> (r: bool)
    ensures
        r == (vview_pairs(xs@) == vview_pairs(ys@)),
    decreases xs@,
{
    proof {
        lemma_vview_pairs(xs@);
        lemma_vview_pairs(ys@);
    }
    if xs.len() != ys.len() {
        return false;
    }
    let mut i: usize = 0;
    while i < xs.len()
        invariant
            0 <= i <= xs@.len(),
            xs@.len() == ys@.len(),
            vview_pairs(xs@).len() == xs@.len(),
            vview_pairs(ys@).len() == ys@.len(),
            forall|j: int|
                0 <= j < xs@.len() ==> vview_pairs(xs@)[j] == (vview(xs@[j].0), vview(xs@[j].1)),
            forall|j: int|
                0 <= j < ys@.len() ==> vview_pairs(ys@)[j] == (vview(ys@[j].0), vview(ys@[j].1)),
            forall|j: int| 0 <= j < i ==> vview_pairs(xs@)[j] == vview_pairs(ys@)[j],
        decreases xs@.len() - i,
    {
        proof {
            assert(decreases_to!(xs@ => xs@[i as int]));
            assert(decreases_to!(xs@[i as int] => xs@[i as int].0));
            assert(decreases_to!(xs@[i as int] => xs@[i as int].1));
        }
        let keys = value_eq(&xs[i].0, &ys[i].0);
        let vals = value_eq(&xs[i].1, &ys[i].1);
        if !keys || !vals {
            proof {
                assert(vview_pairs(xs@)[i as int] != vview_pairs(ys@)[i as int]);
            }
            return false;
        }
        i = i + 1;
    }
    proof {
        assert(vview_pairs(xs@) =~= vview_pairs(ys@));
    }
    true
}


/// The byte payload of a variant whose tag is the given text, if the tree
/// has that shape.
pub open spec fn variant_bytes_spec(v: ValueView, tag: Seq<char>) -> Option<Seq<u8>> {
    match v {
        ValueView::Variant(bx) => match bx.0 {
            ValueView::String(t) => if t == tag {
                match bx.1 {
                    ValueView::Bytes(bs) => Some(bs),
                    _ => Option::None,
                }
            } else {
                Option::None
            },
            _ => Option::None,
        },
        _ => Option::None,
    }
}

/// Extracts the byte payload of a variant carrying the given text tag:
/// exactly when the tree is a variant whose tag is that text and whose
/// payload is a byte string.
pub fn variant_bytes<'a>(value: &'a Value, tag: &str) -> (r: Option<&'a Vec<u8>>)
    ensures
        match r {
            Some(bs) => variant_bytes_spec(value@, tag@) == Some(bs@),
            None => variant_bytes_spec(value@, tag@) is None,
        },
{
    match value {
        Value::Variant(inner) => match (&inner.0, &inner.1) {
            (Value::String(t), Value::Bytes(bs)) => {
                proof {
                    assert(vview(inner.0) == ValueView::String(t@));
                    assert(vview(inner.1) == ValueView::Bytes(bs@));
                }
                if str_eq(t.as_str(), tag) {
                    Some(bs)
                } else {
                    None
                }
            },
            _ => None,
        },
        _ => None,
    }
}

} // verus!
