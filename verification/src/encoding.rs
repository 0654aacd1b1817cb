//! The self-describing wire format: one marker byte per value, zigzag plus
//! continuation varints for numbers, and length-prefixed strings, byte
//! strings, sequences and maps.
//!
//! [`encoded`] is the wire image of a value tree; [`dec_value`] is what
//! decoding yields at a position. Encoding a tree and decoding the bytes
//! gives back a structurally equal tree: see [`lemma_roundtrip`].

use vstd::prelude::*;
use vstd::utf8::{decode_utf8, encode_utf8, is_scalar, valid_utf8};

use crate::allocator::{Fixed, FixedBuf};
use crate::buf::Buf;
use crate::error::{Error, ErrorKind};
use crate::tag::{
    TAG_BYTES, TAG_CHAR, TAG_FALSE, TAG_I128, TAG_I16, TAG_I32, TAG_I64, TAG_I8, TAG_ISIZE,
    TAG_MAP, TAG_NONE, TAG_SEQUENCE, TAG_SOME, TAG_STRING, TAG_TRUE, TAG_U128, TAG_U16, TAG_U32,
    TAG_U64, TAG_U8, TAG_UNIT, TAG_USIZE, TAG_VARIANT,
};
use crate::text::bytes_to_string;
use crate::visit::{BytesVisit, TextVisit};
use crate::value::{
    lemma_vview_list, lemma_vview_pairs, vview, vview_list, vview_pairs, Number, Value, ValueView,
};
use crate::varint::{
    dec_varint, decode_varint, encode_varint, lemma_varint_len, lemma_varint_roundtrip, unzigzag,
    unzigzag128, unzigzag64, varint, zigzag, zigzag128, zigzag64,
};

verus! {

/// The wire image of a number: its width marker, then the magnitude (for the
/// unsigned widths) or the zigzag code (for the signed widths) as a varint.
pub open spec fn encoded_number(n: Number) -> Seq<u8> {
    match n {
        Number::U8(x) => seq![TAG_U8] + varint(x as nat),
        Number::U16(x) => seq![TAG_U16] + varint(x as nat),
        Number::U32(x) => seq![TAG_U32] + varint(x as nat),
        Number::U64(x) => seq![TAG_U64] + varint(x as nat),
        Number::U128(x) => seq![TAG_U128] + varint(x as nat),
        Number::Usize(x) => seq![TAG_USIZE] + varint(x as nat),
        Number::I8(x) => seq![TAG_I8] + varint(zigzag(x as int)),
        Number::I16(x) => seq![TAG_I16] + varint(zigzag(x as int)),
        Number::I32(x) => seq![TAG_I32] + varint(zigzag(x as int)),
        Number::I64(x) => seq![TAG_I64] + varint(zigzag(x as int)),
        Number::I128(x) => seq![TAG_I128] + varint(zigzag(x as int)),
        Number::Isize(x) => seq![TAG_ISIZE] + varint(zigzag(x as int)),
    }
}

/// The wire image of a value tree.
pub open spec fn encoded(v: ValueView) -> Seq<u8>
    decreases v,
{
    match v {
        ValueView::Unit => seq![TAG_UNIT],
        ValueView::Bool(b) => if b {
            seq![TAG_TRUE]
        } else {
            seq![TAG_FALSE]
        },
        ValueView::Char(c) => seq![TAG_CHAR] + varint((c as u32) as nat),
        ValueView::Number(n) => encoded_number(n),
        ValueView::Bytes(bs) => seq![TAG_BYTES] + varint(bs.len()) + bs,
        ValueView::String(s) => seq![TAG_STRING] + varint(encode_utf8(s).len()) + encode_utf8(s),
        ValueView::Option(o) => match o {
            Option::None => seq![TAG_NONE],
            Option::Some(bx) => seq![TAG_SOME] + encoded(*bx),
        },
        ValueView::Sequence(vs) => seq![TAG_SEQUENCE] + varint(vs.len()) + encoded_list(vs),
        ValueView::Mapping(ps) => seq![TAG_MAP] + varint(ps.len()) + encoded_pairs(ps),
        ValueView::Variant(bx) => seq![TAG_VARIANT] + encoded(bx.0) + encoded(bx.1),
    }
}

/// The concatenated wire images of a list of values.
pub open spec fn encoded_list(s: Seq<ValueView>) -> Seq<u8>
    decreases s,
{
    if s.len() == 0 {
        Seq::empty()
    } else {
        encoded(s[0]) + encoded_list(s.drop_first())
    }
}

/// The concatenated wire images of a list of pairs, key before value.
pub open spec fn encoded_pairs(s: Seq<(ValueView, ValueView)>) -> Seq<u8>
    decreases s,
{
    if s.len() == 0 {
        Seq::empty()
    } else {
        encoded(s[0].0) + encoded(s[0].1) + encoded_pairs(s.drop_first())
    }
}

/// Every wire image starts with its marker byte, so none is empty.
pub proof fn lemma_encoded_len(v: ValueView)
    ensures
        encoded(v).len() >= 1,
{
    match v {
        ValueView::Char(c) => lemma_varint_len((c as u32) as nat),
        _ => {},
    }
}

/// Appending one value to a list appends its image to the list's image.
pub proof fn lemma_encoded_list_push(s: Seq<ValueView>, v: ValueView)
    ensures
        encoded_list(s.push(v)) == encoded_list(s) + encoded(v),
    decreases s.len(),
{
    let p = s.push(v);
    if s.len() == 0 {
        assert(p.drop_first() =~= Seq::<ValueView>::empty());
        assert(p[0] == v);
        assert(encoded_list(p) == encoded(v) + encoded_list(p.drop_first()));
        assert(encoded_list(p) =~= encoded_list(s) + encoded(v));
    } else {
        assert(p.drop_first() =~= s.drop_first().push(v));
        lemma_encoded_list_push(s.drop_first(), v);
        assert(p[0] == s[0]);
        assert(encoded_list(p) == encoded(s[0]) + encoded_list(p.drop_first()));
        assert(encoded_list(p.drop_first()) == encoded_list(s.drop_first()) + encoded(v));
        assert(encoded_list(p) =~= encoded_list(s) + encoded(v));
    }
}

/// Appending one pair to a list appends both images to the list's image.
pub proof fn lemma_encoded_pairs_push(s: Seq<(ValueView, ValueView)>, p: (ValueView, ValueView))
    ensures
        encoded_pairs(s.push(p)) == encoded_pairs(s) + encoded(p.0) + encoded(p.1),
    decreases s.len(),
{
    let q = s.push(p);
    if s.len() == 0 {
        assert(q.drop_first() =~= Seq::<(ValueView, ValueView)>::empty());
        assert(q[0] == p);
        assert(encoded_pairs(q) == encoded(p.0) + encoded(p.1) + encoded_pairs(q.drop_first()));
        assert(encoded_pairs(q) =~= encoded_pairs(s) + encoded(p.0) + encoded(p.1));
    } else {
        assert(q.drop_first() =~= s.drop_first().push(p));
        lemma_encoded_pairs_push(s.drop_first(), p);
        assert(q[0] == s[0]);
        assert(encoded_pairs(q) == encoded(s[0].0) + encoded(s[0].1) + encoded_pairs(q.drop_first()));
        assert(encoded_pairs(q.drop_first()) == encoded_pairs(s.drop_first()) + encoded(p.0) + encoded(p.1));
        assert(encoded_pairs(q) =~= encoded_pairs(s) + encoded(p.0) + encoded(p.1));
    }
}

/// Appends the wire image of a number to `out`.
pub fn encode_number(out: &mut Vec<u8>, n: Number)
    ensures
        final(out)@ == old(out)@ + encoded_number(n),
{
    match n {
        Number::U8(x) => {
            out.push(TAG_U8);
            encode_varint(out, x as u128);
        },
        Number::U16(x) => {
            out.push(TAG_U16);
            encode_varint(out, x as u128);
        },
        Number::U32(x) => {
            out.push(TAG_U32);
            encode_varint(out, x as u128);
        },
        Number::U64(x) => {
            out.push(TAG_U64);
            encode_varint(out, x as u128);
        },
        Number::U128(x) => {
            out.push(TAG_U128);
            encode_varint(out, x);
        },
        Number::Usize(x) => {
            out.push(TAG_USIZE);
            encode_varint(out, x as u128);
        },
        Number::I8(x) => {
            out.push(TAG_I8);
            encode_varint(out, zigzag64(x as i64) as u128);
        },
        Number::I16(x) => {
            out.push(TAG_I16);
            encode_varint(out, zigzag64(x as i64) as u128);
        },
        Number::I32(x) => {
            out.push(TAG_I32);
            encode_varint(out, zigzag64(x as i64) as u128);
        },
        Number::I64(x) => {
            out.push(TAG_I64);
            encode_varint(out, zigzag64(x) as u128);
        },
        Number::I128(x) => {
            out.push(TAG_I128);
            encode_varint(out, zigzag128(x));
        },
        Number::Isize(x) => {
            out.push(TAG_ISIZE);
            encode_varint(out, zigzag64(x as i64) as u128);
        },
    }
    assert(final(out)@ =~= old(out)@ + encoded_number(n));
}

/// Appends the wire image of a value tree to `out`.
#[verifier::loop_isolation(false)]
#[verifier::rlimit(30)]
pub fn encode_value(out: &mut Vec<u8>, v: &Value)
    ensures
        final(out)@ == old(out)@ + encoded(v@),
    decreases *v,
{
    match v {
        Value::Unit => {
            out.push(TAG_UNIT);
            assert(final(out)@ =~= old(out)@ + encoded(v@));
        },
        Value::Bool(b) => {
            if *b {
                out.push(TAG_TRUE);
            } else {
                out.push(TAG_FALSE);
            }
            assert(final(out)@ =~= old(out)@ + encoded(v@));
        },
        Value::Char(c) => {
            out.push(TAG_CHAR);
            encode_varint(out, (*c as u32) as u128);
            assert(final(out)@ =~= old(out)@ + encoded(v@));
        },
        Value::Number(n) => {
            encode_number(out, *n);
            assert(final(out)@ =~= old(out)@ + encoded(v@));
        },
        Value::Bytes(bs) => {
            out.push(TAG_BYTES);
            encode_varint(out, bs.len() as u128);
            out.extend_from_slice(bs.as_slice());
            assert(final(out)@ =~= old(out)@ + encoded(v@));
        },
        Value::String(s) => {
            out.push(TAG_STRING);
            let bytes = s.as_str().as_bytes();
            encode_varint(out, bytes.len() as u128);
            out.extend_from_slice(bytes);
            assert(final(out)@ =~= old(out)@ + encoded(v@));
        },
        Value::Option(o) => match o {
            Option::None => {
                out.push(TAG_NONE);
                assert(final(out)@ =~= old(out)@ + encoded(v@));
            },
            Option::Some(bx) => {
                out.push(TAG_SOME);
                encode_value(out, bx);
                assert(final(out)@ =~= old(out)@ + encoded(v@));
            },
        },
        Value::Sequence(vs) => {
            proof {
                lemma_vview_list(vs@);
            }
            out.push(TAG_SEQUENCE);
            encode_varint(out, vs.len() as u128);
            let ghost header = old(out)@ + seq![TAG_SEQUENCE] + varint(vs@.len());
            let mut i: usize = 0;
            while i < vs.len()
                invariant
                    0 <= i <= vs@.len(),
                    vview_list(vs@).len() == vs@.len(),
                    forall|j: int| 0 <= j < vs@.len() ==> vview_list(vs@)[j] == vview(vs@[j]),
                    out@ == header + encoded_list(vview_list(vs@).take(i as int)),
                decreases vs@.len() - i,
            {
                proof {
                    assert((*v)->Sequence_0 == *vs);
                    assert(decreases_to!(*v => (*v)->Sequence_0));
                    assert(decreases_to!(*vs => vs@));
                    assert(decreases_to!(vs@ => vs@[i as int]));
                    assert(decreases_to!(*v => vs@[i as int]));
                }
                encode_value(out, &vs[i]);
                proof {
                    let views = vview_list(vs@);
                    assert(views.take(i as int).push(views[i as int]) =~= views.take(i + 1));
                    lemma_encoded_list_push(views.take(i as int), views[i as int]);
                }
                i = i + 1;
            }
            proof {
                let views = vview_list(vs@);
                assert(views.take(views.len() as int) =~= views);
                assert(final(out)@ =~= old(out)@ + encoded(v@));
            }
        },
        Value::Mapping(ps) => {
            proof {
                lemma_vview_pairs(ps@);
            }
            out.push(TAG_MAP);
            encode_varint(out, ps.len() as u128);
            let ghost header = old(out)@ + seq![TAG_MAP] + varint(ps@.len());
            let mut i: usize = 0;
            while i < ps.len()
                invariant
                    0 <= i <= ps@.len(),
                    vview_pairs(ps@).len() == ps@.len(),
                    forall|j: int|
                        0 <= j < ps@.len() ==> vview_pairs(ps@)[j] == (
                        vview(ps@[j].0),
                        vview(ps@[j].1),
                        ),
                    out@ == header + encoded_pairs(vview_pairs(ps@).take(i as int)),
                decreases ps@.len() - i,
            {
                proof {
                    assert((*v)->Mapping_0 == *ps);
                    assert(decreases_to!(*v => (*v)->Mapping_0));
                    assert(decreases_to!(*ps => ps@));
                    assert(decreases_to!(ps@ => ps@[i as int]));
                    assert(decreases_to!(ps@[i as int] => ps@[i as int].0));
                    assert(decreases_to!(ps@[i as int] => ps@[i as int].1));
                    assert(decreases_to!(*v => ps@[i as int].0));
                    assert(decreases_to!(*v => ps@[i as int].1));
                }
                encode_value(out, &ps[i].0);
                encode_value(out, &ps[i].1);
                proof {
                    let views = vview_pairs(ps@);
                    assert(views.take(i as int).push(views[i as int]) =~= views.take(i + 1));
                    lemma_encoded_pairs_push(views.take(i as int), views[i as int]);
                    assert(out@ =~= header + encoded_pairs(views.take(i + 1)));
                }
                i = i + 1;
            }
            proof {
                let views = vview_pairs(ps@);
                assert(views.take(views.len() as int) =~= views);
                assert(final(out)@ =~= old(out)@ + encoded(v@));
            }
        },
        Value::Variant(bx) => {
            out.push(TAG_VARIANT);
            encode_value(out, &bx.0);
            encode_value(out, &bx.1);
            assert(final(out)@ =~= old(out)@ + encoded(v@));
        },
    }
}


/// What decoding a number yields at `pos`: the marker byte selects the
/// width, the varint that follows carries the magnitude or zigzag code, and
/// a magnitude outside the width's range is rejected.
pub open spec fn dec_number(data: Seq<u8>, pos: int) -> Option<(ValueView, int)> {
    if pos < 0 || pos >= data.len() {
        None
    } else {
        let t = data[pos];
        match dec_varint(data, pos + 1) {
            Some((m, p2)) => {
                if t == TAG_U8 {
                    if m <= u8::MAX {
                        Some((ValueView::Number(Number::U8(m as u8)), p2))
                    } else {
                        None
                    }
                } else if t == TAG_U16 {
                    if m <= u16::MAX {
                        Some((ValueView::Number(Number::U16(m as u16)), p2))
                    } else {
                        None
                    }
                } else if t == TAG_U32 {
                    if m <= u32::MAX {
                        Some((ValueView::Number(Number::U32(m as u32)), p2))
                    } else {
                        None
                    }
                } else if t == TAG_U64 {
                    if m <= u64::MAX {
                        Some((ValueView::Number(Number::U64(m as u64)), p2))
                    } else {
                        None
                    }
                } else if t == TAG_U128 {
                    if m <= u128::MAX {
                        Some((ValueView::Number(Number::U128(m as u128)), p2))
                    } else {
                        None
                    }
                } else if t == TAG_USIZE {
                    if m <= usize::MAX {
                        Some((ValueView::Number(Number::Usize(m as usize)), p2))
                    } else {
                        None
                    }
                } else if t == TAG_I8 {
                    if i8::MIN <= unzigzag(m) <= i8::MAX {
                        Some((ValueView::Number(Number::I8(unzigzag(m) as i8)), p2))
                    } else {
                        None
                    }
                } else if t == TAG_I16 {
                    if i16::MIN <= unzigzag(m) <= i16::MAX {
                        Some((ValueView::Number(Number::I16(unzigzag(m) as i16)), p2))
                    } else {
                        None
                    }
                } else if t == TAG_I32 {
                    if i32::MIN <= unzigzag(m) <= i32::MAX {
                        Some((ValueView::Number(Number::I32(unzigzag(m) as i32)), p2))
                    } else {
                        None
                    }
                } else if t == TAG_I64 {
                    if i64::MIN <= unzigzag(m) <= i64::MAX {
                        Some((ValueView::Number(Number::I64(unzigzag(m) as i64)), p2))
                    } else {
                        None
                    }
                } else if t == TAG_I128 {
                    if i128::MIN <= unzigzag(m) <= i128::MAX {
                        Some((ValueView::Number(Number::I128(unzigzag(m) as i128)), p2))
                    } else {
                        None
                    }
                } else if t == TAG_ISIZE {
                    if isize::MIN <= unzigzag(m) <= isize::MAX {
                        Some((ValueView::Number(Number::Isize(unzigzag(m) as isize)), p2))
                    } else {
                        None
                    }
                } else {
                    None
                }
            },
            None => None,
        }
    }
}

/// What decoding a header yields at `pos`: the given marker byte, then a
/// varint magnitude.
pub open spec fn dec_varint_header(data: Seq<u8>, pos: int, tag: u8) -> Option<(nat, int)> {
    if 0 <= pos < data.len() && data[pos] == tag {
        dec_varint(data, pos + 1)
    } else {
        None
    }
}

/// What decoding a value yields at `pos` in `data`: the decoded tree and the
/// position just past it. Truncated input and markers with no defined decode
/// mapping yield nothing.
pub open spec fn dec_value(data: Seq<u8>, pos: int) -> Option<(ValueView, int)>
    decreases data.len() - pos, 0nat, 0nat,
{
    if pos < 0 || pos >= data.len() {
        None
    } else {
        let t = data[pos];
        let p = pos + 1;
        if t == TAG_UNIT {
            Some((ValueView::Unit, p))
        } else if t == TAG_FALSE {
            Some((ValueView::Bool(false), p))
        } else if t == TAG_TRUE {
            Some((ValueView::Bool(true), p))
        } else if t == TAG_CHAR {
            match dec_varint(data, p) {
                Some((m, p2)) => if m <= u32::MAX && is_scalar(m as u32) {
                    Some((ValueView::Char(m as u32 as char), p2))
                } else {
                    None
                },
                None => None,
            }
        } else if TAG_U8 <= t && t <= TAG_ISIZE {
            dec_number(data, pos)
        } else if t == TAG_BYTES {
            match dec_varint(data, p) {
                Some((len, p2)) => if p2 + len <= data.len() {
                    Some((ValueView::Bytes(data.subrange(p2, p2 + len)), p2 + len))
                } else {
                    None
                },
                None => None,
            }
        } else if t == TAG_STRING {
            match dec_varint(data, p) {
                Some((len, p2)) => if p2 + len <= data.len() && valid_utf8(
                    data.subrange(p2, p2 + len),
                ) {
                    Some((ValueView::String(decode_utf8(data.subrange(p2, p2 + len))), p2 + len))
                } else {
                    None
                },
                None => None,
            }
        } else if t == TAG_NONE {
            Some((ValueView::Option(Option::None), p))
        } else if t == TAG_SOME {
            match dec_value(data, p) {
                Some((v, p2)) => Some((ValueView::Option(Option::Some(Box::new(v))), p2)),
                None => None,
            }
        } else if t == TAG_SEQUENCE {
            match dec_varint(data, p) {
                Some((n, p2)) => if p < p2 <= data.len() {
                    match dec_list(data, p2, n) {
                        Some((vs, p3)) => Some((ValueView::Sequence(vs), p3)),
                        None => None,
                    }
                } else {
                    None
                },
                None => None,
            }
        } else if t == TAG_MAP {
            match dec_varint(data, p) {
                Some((n, p2)) => if p < p2 <= data.len() {
                    match dec_pairs(data, p2, n) {
                        Some((ps, p3)) => Some((ValueView::Mapping(ps), p3)),
                        None => None,
                    }
                } else {
                    None
                },
                None => None,
            }
        } else if t == TAG_VARIANT {
            match dec_value(data, p) {
                Some((tv, p2)) => if p < p2 <= data.len() {
                    match dec_value(data, p2) {
                        Some((pv, p3)) => Some((ValueView::Variant(Box::new((tv, pv))), p3)),
                        None => None,
                    }
                } else {
                    None
                },
                None => None,
            }
        } else {
            None
        }
    }
}

/// What decoding `n` consecutive values yields at `pos`.
pub open spec fn dec_list(data: Seq<u8>, pos: int, n: nat) -> Option<(Seq<ValueView>, int)>
    decreases data.len() - pos, 1nat, n,
{
    if pos < 0 || pos > data.len() {
        None
    } else if n == 0 {
        Some((Seq::empty(), pos))
    } else {
        match dec_value(data, pos) {
            Some((v, p2)) => if pos < p2 <= data.len() {
                match dec_list(data, p2, (n - 1) as nat) {
                    Some((vs, p3)) => Some((seq![v] + vs, p3)),
                    None => None,
                }
            } else {
                None
            },
            None => None,
        }
    }
}

/// What decoding `n` consecutive key-value pairs yields at `pos`.
pub open spec fn dec_pairs(data: Seq<u8>, pos: int, n: nat) -> Option<
    (Seq<(ValueView, ValueView)>, int),
>
    decreases data.len() - pos, 1nat, n,
{
    if pos < 0 || pos > data.len() {
        None
    } else if n == 0 {
        Some((Seq::empty(), pos))
    } else {
        match dec_value(data, pos) {
            Some((k, p2)) => if pos < p2 <= data.len() {
                match dec_value(data, p2) {
                    Some((w, p3)) => if p2 < p3 <= data.len() {
                        match dec_pairs(data, p3, (n - 1) as nat) {
                            Some((rest, p4)) => Some((seq![(k, w)] + rest, p4)),
                            None => None,
                        }
                    } else {
                        None
                    },
                    None => None,
                }
            } else {
                None
            },
            None => None,
        }
    }
}

/// A successful value decode always lands strictly past its start and within
/// the data.
pub proof fn lemma_dec_value_advances(data: Seq<u8>, pos: int)
    ensures
        dec_value(data, pos) matches Some(vp) ==> pos < vp.1 <= data.len(),
    decreases data.len() - pos, 0nat, 0nat,
{
    if 0 <= pos < data.len() {
        let t = data[pos];
        let p = pos + 1;
        crate::varint::lemma_dec_varint_advances(data, p);
        if t == TAG_SOME {
            lemma_dec_value_advances(data, p);
        } else if t == TAG_SEQUENCE {
            match dec_varint(data, p) {
                Some((n, p2)) => if p < p2 <= data.len() {
                    lemma_dec_list_bounds(data, p2, n);
                },
                None => {},
            }
        } else if t == TAG_MAP {
            match dec_varint(data, p) {
                Some((n, p2)) => if p < p2 <= data.len() {
                    lemma_dec_pairs_bounds(data, p2, n);
                },
                None => {},
            }
        } else if t == TAG_VARIANT {
            lemma_dec_value_advances(data, p);
            match dec_value(data, p) {
                Some((tv, p2)) => if p < p2 <= data.len() {
                    lemma_dec_value_advances(data, p2);
                },
                None => {},
            }
        }
    }
}

/// A successful list decode never moves backwards nor past the data, and
/// yields exactly the requested number of values.
pub proof fn lemma_dec_list_bounds(data: Seq<u8>, pos: int, n: nat)
    ensures
        dec_list(data, pos, n) matches Some(vp) ==> pos <= vp.1 <= data.len() && vp.0.len() == n,
    decreases data.len() - pos, 1nat, n,
{
    if 0 <= pos <= data.len() && n > 0 {
        lemma_dec_value_advances(data, pos);
        match dec_value(data, pos) {
            Some((v, p2)) => if pos < p2 <= data.len() {
                lemma_dec_list_bounds(data, p2, (n - 1) as nat);
            },
            None => {},
        }
    }
}

/// A successful pair-list decode never moves backwards nor past the data,
/// and yields exactly the requested number of pairs.
pub proof fn lemma_dec_pairs_bounds(data: Seq<u8>, pos: int, n: nat)
    ensures
        dec_pairs(data, pos, n) matches Some(vp) ==> pos <= vp.1 <= data.len() && vp.0.len() == n,
    decreases data.len() - pos, 1nat, n,
{
    if 0 <= pos <= data.len() && n > 0 {
        lemma_dec_value_advances(data, pos);
        match dec_value(data, pos) {
            Some((k, p2)) => if pos < p2 <= data.len() {
                lemma_dec_value_advances(data, p2);
                match dec_value(data, p2) {
                    Some((w, p3)) => if p2 < p3 <= data.len() {
                        lemma_dec_pairs_bounds(data, p3, (n - 1) as nat);
                    },
                    None => {},
                }
            },
            None => {},
        }
    }
}

/// More values than remaining bytes can never decode: each value consumes at
/// least its marker byte.
pub proof fn lemma_dec_list_none(data: Seq<u8>, pos: int, n: nat)
    requires
        n > data.len() - pos,
    ensures
        dec_list(data, pos, n) is None,
    decreases n,
{
    if 0 <= pos <= data.len() && n > 0 {
        if dec_value(data, pos) is Some {
            let (v, p2) = dec_value(data, pos)->Some_0;
            if pos < p2 <= data.len() {
                lemma_dec_list_none(data, p2, (n - 1) as nat);
            }
        }
    }
}

/// More pairs than remaining bytes can never decode.
pub proof fn lemma_dec_pairs_none(data: Seq<u8>, pos: int, n: nat)
    requires
        n > data.len() - pos,
    ensures
        dec_pairs(data, pos, n) is None,
    decreases n,
{
    if 0 <= pos <= data.len() && n > 0 {
        if dec_value(data, pos) is Some {
            let (k, p2) = dec_value(data, pos)->Some_0;
            if pos < p2 <= data.len() && dec_value(data, p2) is Some {
                let (w, p3) = dec_value(data, p2)->Some_0;
                if p2 < p3 <= data.len() {
                    lemma_dec_pairs_none(data, p3, (n - 1) as nat);
                }
            }
        }
    }
}


/// Copies the byte range `[from, to)` of a slice into a fresh vector.
pub fn slice_range_to_vec(data: &[u8], from: usize, to: usize) -> (r: Vec<u8>)
    requires
        from <= to <= data@.len(),
    ensures
        r@ == data@.subrange(from as int, to as int),
{
    let mut out: Vec<u8> = Vec::new();
    let mut i: usize = from;
    while i < to
        invariant
            from <= i <= to <= data@.len(),
            out@ == data@.subrange(from as int, i as int),
        decreases to - i,
    {
        out.push(data[i]);
        assert(out@ =~= data@.subrange(from as int, i + 1));
        i = i + 1;
    }
    out
}

/// Reads one number at `pos`: the width marker, then the varint magnitude or
/// zigzag code, rejecting magnitudes outside the width's range.
pub fn decode_number(data: &[u8], pos: usize) -> (r: Option<(Value, usize)>)
    ensures
        match r {
            Some(vp) => dec_number(data@, pos as int) == Some((vp.0@, vp.1 as int)),
            None => dec_number(data@, pos as int) is None,
        },
{
    if pos >= data.len() {
        return None;
    }
    let t = data[pos];
    proof {
        crate::varint::lemma_dec_varint_advances(data@, pos + 1);
    }
    match decode_varint(data, pos + 1) {
        Some((m, p2)) => {
            if t == TAG_U8 {
                if m <= u8::MAX as u128 {
                    Some((Value::Number(Number::U8(m as u8)), p2))
                } else {
                    None
                }
            } else if t == TAG_U16 {
                if m <= u16::MAX as u128 {
                    Some((Value::Number(Number::U16(m as u16)), p2))
                } else {
                    None
                }
            } else if t == TAG_U32 {
                if m <= u32::MAX as u128 {
                    Some((Value::Number(Number::U32(m as u32)), p2))
                } else {
                    None
                }
            } else if t == TAG_U64 {
                if m <= u64::MAX as u128 {
                    Some((Value::Number(Number::U64(m as u64)), p2))
                } else {
                    None
                }
            } else if t == TAG_U128 {
                Some((Value::Number(Number::U128(m)), p2))
            } else if t == TAG_USIZE {
                if m <= usize::MAX as u128 {
                    Some((Value::Number(Number::Usize(m as usize)), p2))
                } else {
                    None
                }
            } else if t == TAG_I8 {
                if m <= u64::MAX as u128 {
                    let x = unzigzag64(m as u64);
                    if i8::MIN as i64 <= x && x <= i8::MAX as i64 {
                        Some((Value::Number(Number::I8(x as i8)), p2))
                    } else {
                        None
                    }
                } else {
                    None
                }
            } else if t == TAG_I16 {
                if m <= u64::MAX as u128 {
                    let x = unzigzag64(m as u64);
                    if i16::MIN as i64 <= x && x <= i16::MAX as i64 {
                        Some((Value::Number(Number::I16(x as i16)), p2))
                    } else {
                        None
                    }
                } else {
                    None
                }
            } else if t == TAG_I32 {
                if m <= u64::MAX as u128 {
                    let x = unzigzag64(m as u64);
                    if i32::MIN as i64 <= x && x <= i32::MAX as i64 {
                        Some((Value::Number(Number::I32(x as i32)), p2))
                    } else {
                        None
                    }
                } else {
                    None
                }
            } else if t == TAG_I64 {
                if m <= u64::MAX as u128 {
                    let x = unzigzag64(m as u64);
                    Some((Value::Number(Number::I64(x)), p2))
                } else {
                    None
                }
            } else if t == TAG_I128 {
                let x = unzigzag128(m);
                Some((Value::Number(Number::I128(x)), p2))
            } else if t == TAG_ISIZE {
                let x = unzigzag128(m);
                if isize::MIN as i128 <= x && x <= isize::MAX as i128 {
                    Some((Value::Number(Number::Isize(x as isize)), p2))
                } else {
                    None
                }
            } else {
                None
            }
        },
        None => {
            proof {
                if dec_varint(data@, pos + 1) is Some {
                    let (m, p2) = dec_varint(data@, pos + 1)->Some_0;
                    assert(m > u128::MAX);
                    assert(unzigzag(m) > i128::MAX || unzigzag(m) < i128::MIN);
                }
            }
            None
        },
    }
}

/// Reads one value at `pos`, returning the decoded tree and the position
/// just past it. Truncated input and markers with no defined decode mapping
/// are rejected.
#[verifier::loop_isolation(false)]
pub fn decode_value(data: &[u8], pos: usize) -> (r: Option<(Value, usize)>)
    ensures
        match r {
            Some(vp) => dec_value(data@, pos as int) == Some((vp.0@, vp.1 as int)),
            None => dec_value(data@, pos as int) is None,
        },
    decreases data@.len() - pos,
{
    if pos >= data.len() {
        return None;
    }
    let t = data[pos];
    let p = pos + 1;
    proof {
        crate::varint::lemma_dec_varint_advances(data@, p as int);
    }
    if t == TAG_UNIT {
        Some((Value::Unit, p))
    } else if t == TAG_FALSE {
        Some((Value::Bool(false), p))
    } else if t == TAG_TRUE {
        Some((Value::Bool(true), p))
    } else if t == TAG_CHAR {
        match decode_varint(data, p) {
            Some((m, p2)) => {
                if m <= u32::MAX as u128 {
                    match char::from_u32(m as u32) {
                        Some(c) => {
                            proof {
                                vstd::utf8::char_u32_cast(c, m as u32);
                            }
                            Some((Value::Char(c), p2))
                        },
                        None => None,
                    }
                } else {
                    None
                }
            },
            None => None,
        }
    } else if TAG_U8 <= t && t <= TAG_ISIZE {
        decode_number(data, pos)
    } else if t == TAG_BYTES {
        match decode_varint(data, p) {
            Some((len128, p2)) => {
                if len128 <= (data.len() - p2) as u128 {
                    let len = len128 as usize;
                    let end = p2 + len;
                    let bs = slice_range_to_vec(data, p2, end);
                    Some((Value::Bytes(bs), end))
                } else {
                    None
                }
            },
            None => None,
        }
    } else if t == TAG_STRING {
        match decode_varint(data, p) {
            Some((len128, p2)) => {
                if len128 <= (data.len() - p2) as u128 {
                    let len = len128 as usize;
                    let end = p2 + len;
                    let bs = slice_range_to_vec(data, p2, end);
                    match bytes_to_string(bs) {
                        Some(s) => {
                            proof {
                                crate::text::lemma_bytes_to_string_view(
                                    data@.subrange(p2 as int, end as int),
                                    s@,
                                );
                            }
                            Some((Value::String(s), end))
                        },
                        None => None,
                    }
                } else {
                    None
                }
            },
            None => None,
        }
    } else if t == TAG_NONE {
        Some((Value::Option(Option::None), p))
    } else if t == TAG_SOME {
        match decode_value(data, p) {
            Some((v, p2)) => Some((Value::Option(Option::Some(Box::new(v))), p2)),
            None => None,
        }
    } else if t == TAG_SEQUENCE {
        match decode_varint(data, p) {
            Some((n128, p2)) => {
                if n128 > (data.len() - p2) as u128 {
                    proof {
                        lemma_dec_list_none(data@, p2 as int, n128 as nat);
                    }
                    None
                } else {
                    let n = n128 as usize;
                    let mut vals: Vec<Value> = Vec::new();
                    let mut cur: usize = p2;
                    let mut i: usize = 0;
                    while i < n
                        invariant
                            0 <= i <= n,
                            pos < cur <= data@.len(),
                            match dec_list(data@, cur as int, (n - i) as nat) {
                                Some(rp) => dec_list(data@, p2 as int, n as nat) == Some(
                                    (vview_list(vals@) + rp.0, rp.1),
                                ),
                                None => dec_list(data@, p2 as int, n as nat) is None,
                            },
                        decreases n - i,
                    {
                        match decode_value(data, cur) {
                            Some((v, p3)) => {
                                proof {
                                    lemma_dec_value_advances(data@, cur as int);
                                    assert(vals@.push(v).drop_last() =~= vals@);
                                    match dec_list(data@, p3 as int, (n - i - 1) as nat) {
                                        Some(rp) => {
                                            assert(vview_list(vals@).push(vview(v)) + rp.0
                                                =~= vview_list(vals@) + (seq![vview(v)] + rp.0));
                                        },
                                        None => {},
                                    }
                                }
                                vals.push(v);
                                cur = p3;
                            },
                            None => {
                                return None;
                            },
                        }
                        i = i + 1;
                    }
                    proof {
                        assert(dec_list(data@, cur as int, 0) == Some(
                            (Seq::<ValueView>::empty(), cur as int),
                        ));
                        assert(vview_list(vals@) + Seq::<ValueView>::empty() =~= vview_list(
                            vals@,
                        ));
                    }
                    Some((Value::Sequence(vals), cur))
                }
            },
            None => {
                proof {
                    if dec_varint(data@, p as int) is Some {
                        let (n, p2) = dec_varint(data@, p as int)->Some_0;
                        lemma_dec_list_none(data@, p2, n);
                    }
                }
                None
            },
        }
    } else if t == TAG_MAP {
        match decode_varint(data, p) {
            Some((n128, p2)) => {
                if n128 > (data.len() - p2) as u128 {
                    proof {
                        lemma_dec_pairs_none(data@, p2 as int, n128 as nat);
                    }
                    None
                } else {
                    let n = n128 as usize;
                    let mut pairs: Vec<(Value, Value)> = Vec::new();
                    let mut cur: usize = p2;
                    let mut i: usize = 0;
                    while i < n
                        invariant
                            0 <= i <= n,
                            pos < cur <= data@.len(),
                            match dec_pairs(data@, cur as int, (n - i) as nat) {
                                Some(rp) => dec_pairs(data@, p2 as int, n as nat) == Some(
                                    (vview_pairs(pairs@) + rp.0, rp.1),
                                ),
                                None => dec_pairs(data@, p2 as int, n as nat) is None,
                            },
                        decreases n - i,
                    {
                        match decode_value(data, cur) {
                            Some((k, p3)) => {
                                proof {
                                    lemma_dec_value_advances(data@, cur as int);
                                }
                                match decode_value(data, p3) {
                                    Some((w, p4)) => {
                                        proof {
                                            lemma_dec_value_advances(data@, p3 as int);
                                            assert(pairs@.push((k, w)).drop_last() =~= pairs@);
                                            match dec_pairs(
                                                data@,
                                                p4 as int,
                                                (n - i - 1) as nat,
                                            ) {
                                                Some(rp) => {
                                                    assert(vview_pairs(pairs@).push(
                                                        (vview(k), vview(w)),
                                                    ) + rp.0 =~= vview_pairs(pairs@) + (seq![
                                                        (vview(k), vview(w)),
                                                    ] + rp.0));
                                                },
                                                None => {},
                                            }
                                        }
                                        pairs.push((k, w));
                                        cur = p4;
                                    },
                                    None => {
                                        return None;
                                    },
                                }
                            },
                            None => {
                                return None;
                            },
                        }
                        i = i + 1;
                    }
                    proof {
                        assert(dec_pairs(data@, cur as int, 0) == Some(
                            (Seq::<(ValueView, ValueView)>::empty(), cur as int),
                        ));
                        assert(vview_pairs(pairs@) + Seq::<(ValueView, ValueView)>::empty()
                            =~= vview_pairs(pairs@));
                    }
                    Some((Value::Mapping(pairs), cur))
                }
            },
            None => {
                proof {
                    if dec_varint(data@, p as int) is Some {
                        let (n, p2) = dec_varint(data@, p as int)->Some_0;
                        lemma_dec_pairs_none(data@, p2, n);
                    }
                }
                None
            },
        }
    } else if t == TAG_VARIANT {
        match decode_value(data, p) {
            Some((tv, p2)) => {
                proof {
                    lemma_dec_value_advances(data@, p as int);
                }
                match decode_value(data, p2) {
                    Some((pv, p3)) => Some((Value::Variant(Box::new((tv, pv))), p3)),
                    None => None,
                }
            },
            None => None,
        }
    } else {
        None
    }
}


/// Aligns a part of a wire image with the bytes that hold it: if `whole`
/// sits at `pos` and `part` sits at `off` inside `whole`, then `part` sits
/// at `pos + off` in the data.
proof fn lemma_slice_at(data: Seq<u8>, pos: int, whole: Seq<u8>, off: int, part: Seq<u8>)
    requires
        0 <= pos,
        pos + whole.len() <= data.len(),
        data.subrange(pos, pos + whole.len() as int) == whole,
        0 <= off,
        off + part.len() <= whole.len(),
        forall|i: int| 0 <= i < part.len() ==> whole[off + i] == part[i],
    ensures
        data.subrange(pos + off, pos + off + part.len() as int) == part,
{
    assert(data.subrange(pos + off, pos + off + part.len() as int) =~= part) by {
        assert forall|i: int| 0 <= i < part.len() implies data[pos + off + i] == part[i] by {
            assert(data[pos + off + i] == data.subrange(pos, pos + whole.len() as int)[off + i]);
        }
    }
}

/// Decoding the wire image of a number found at `pos` yields that number.
proof fn lemma_dec_enc_number(data: Seq<u8>, pos: int, n: Number)
    requires
        0 <= pos,
        pos + encoded_number(n).len() <= data.len(),
        data.subrange(pos, pos + encoded_number(n).len() as int) == encoded_number(n),
    ensures
        dec_number(data, pos) == Some(
            (ValueView::Number(n), pos + encoded_number(n).len() as int),
        ),
{
    let whole = encoded_number(n);
    assert(data[pos] == whole[0]);
    let m: nat = match n {
        Number::U8(x) => x as nat,
        Number::U16(x) => x as nat,
        Number::U32(x) => x as nat,
        Number::U64(x) => x as nat,
        Number::U128(x) => x as nat,
        Number::Usize(x) => x as nat,
        Number::I8(x) => zigzag(x as int),
        Number::I16(x) => zigzag(x as int),
        Number::I32(x) => zigzag(x as int),
        Number::I64(x) => zigzag(x as int),
        Number::I128(x) => zigzag(x as int),
        Number::Isize(x) => zigzag(x as int),
    };
    assert(whole == seq![whole[0]] + varint(m));
    lemma_slice_at(data, pos, whole, 1, varint(m));
    lemma_varint_roundtrip(data, pos + 1, m);
    match n {
        Number::I8(x) => assert(unzigzag(m) == x as int),
        Number::I16(x) => assert(unzigzag(m) == x as int),
        Number::I32(x) => assert(unzigzag(m) == x as int),
        Number::I64(x) => assert(unzigzag(m) == x as int),
        Number::I128(x) => assert(unzigzag(m) == x as int),
        Number::Isize(x) => assert(unzigzag(m) == x as int),
        _ => {},
    }
}

/// Decoding the wire image of a value tree found at `pos` yields that tree
/// and stops exactly past it, whatever bytes surround it.
pub proof fn lemma_dec_enc(data: Seq<u8>, pos: int, v: ValueView)
    requires
        0 <= pos,
        pos + encoded(v).len() <= data.len(),
        data.subrange(pos, pos + encoded(v).len() as int) == encoded(v),
    ensures
        dec_value(data, pos) == Some((v, pos + encoded(v).len() as int)),
    decreases v, 0nat,
{
    let whole = encoded(v);
    assert(data[pos] == whole[0]);
    let p = pos + 1;
    match v {
        ValueView::Unit => {},
        ValueView::Bool(b) => {},
        ValueView::Char(c) => {
            let u = (c as u32) as nat;
            assert(whole == seq![TAG_CHAR] + varint(u));
            lemma_slice_at(data, pos, whole, 1, varint(u));
            lemma_varint_roundtrip(data, p, u);
            vstd::utf8::char_is_scalar(c);
            vstd::utf8::char_u32_cast(c, c as u32);
        },
        ValueView::Number(n) => {
            lemma_dec_enc_number(data, pos, n);
            assert(TAG_U8 <= data[pos] <= TAG_ISIZE);
        },
        ValueView::Bytes(bs) => {
            assert(whole == seq![TAG_BYTES] + varint(bs.len()) + bs);
            lemma_slice_at(data, pos, whole, 1, varint(bs.len()));
            lemma_varint_roundtrip(data, p, bs.len());
            let p2 = p + varint(bs.len()).len();
            lemma_slice_at(data, pos, whole, 1 + varint(bs.len()).len() as int, bs);
            assert(data.subrange(p2, p2 + bs.len() as int) == bs);
        },
        ValueView::String(str) => {
            let bs = encode_utf8(str);
            assert(whole == seq![TAG_STRING] + varint(bs.len()) + bs);
            lemma_slice_at(data, pos, whole, 1, varint(bs.len()));
            lemma_varint_roundtrip(data, p, bs.len());
            let p2 = p + varint(bs.len()).len();
            lemma_slice_at(data, pos, whole, 1 + varint(bs.len()).len() as int, bs);
            assert(data.subrange(p2, p2 + bs.len() as int) == bs);
            vstd::utf8::encode_utf8_valid_utf8(str);
            vstd::utf8::encode_utf8_decode_utf8(str);
        },
        ValueView::Option(o) => match o {
            Option::None => {},
            Option::Some(bx) => {
                assert(whole == seq![TAG_SOME] + encoded(*bx));
                lemma_slice_at(data, pos, whole, 1, encoded(*bx));
                assert(decreases_to!(v => v->Option_0));
                assert(decreases_to!(v->Option_0 => *bx));
                lemma_dec_enc(data, p, *bx);
            },
        },
        ValueView::Sequence(vs) => {
            assert(whole == seq![TAG_SEQUENCE] + varint(vs.len()) + encoded_list(vs));
            lemma_slice_at(data, pos, whole, 1, varint(vs.len()));
            lemma_varint_roundtrip(data, p, vs.len());
            let p2 = p + varint(vs.len()).len();
            lemma_slice_at(data, pos, whole, 1 + varint(vs.len()).len() as int, encoded_list(vs));
            assert(decreases_to!(v => vs));
            lemma_dec_enc_list(data, p2, vs);
        },
        ValueView::Mapping(ps) => {
            assert(whole == seq![TAG_MAP] + varint(ps.len()) + encoded_pairs(ps));
            lemma_slice_at(data, pos, whole, 1, varint(ps.len()));
            lemma_varint_roundtrip(data, p, ps.len());
            let p2 = p + varint(ps.len()).len();
            lemma_slice_at(data, pos, whole, 1 + varint(ps.len()).len() as int, encoded_pairs(ps));
            assert(decreases_to!(v => ps));
            lemma_dec_enc_pairs(data, p2, ps);
        },
        ValueView::Variant(bx) => {
            let te = encoded(bx.0);
            let pe = encoded(bx.1);
            assert(whole == seq![TAG_VARIANT] + te + pe);
            lemma_slice_at(data, pos, whole, 1, te);
            assert(decreases_to!(v => v->Variant_0));
            assert(decreases_to!(v->Variant_0 => bx.0));
            assert(decreases_to!(v->Variant_0 => bx.1));
            lemma_dec_enc(data, p, bx.0);
            let p2 = p + te.len();
            lemma_slice_at(data, pos, whole, 1 + te.len() as int, pe);
            lemma_dec_enc(data, p2, bx.1);
        },
    }
}

/// Decoding the concatenated wire images of a list of values found at `pos`
/// yields that list.
pub proof fn lemma_dec_enc_list(data: Seq<u8>, pos: int, s: Seq<ValueView>)
    requires
        0 <= pos,
        pos + encoded_list(s).len() <= data.len(),
        data.subrange(pos, pos + encoded_list(s).len() as int) == encoded_list(s),
    ensures
        dec_list(data, pos, s.len()) == Some((s, pos + encoded_list(s).len() as int)),
    decreases s, 1nat,
{
    if s.len() == 0 {
    } else {
        let whole = encoded_list(s);
        let e0 = encoded(s[0]);
        let rest = encoded_list(s.drop_first());
        assert(whole == e0 + rest);
        lemma_slice_at(data, pos, whole, 0, e0);
        assert(decreases_to!(s => s[0]));
        lemma_dec_enc(data, pos, s[0]);
        lemma_encoded_len(s[0]);
        let p2 = pos + e0.len();
        lemma_slice_at(data, pos, whole, e0.len() as int, rest);
        assert(decreases_to!(s => s.drop_first()));
        lemma_dec_enc_list(data, p2, s.drop_first());
        assert(seq![s[0]] + s.drop_first() =~= s);
    }
}

/// Decoding the concatenated wire images of a list of pairs found at `pos`
/// yields that list.
pub proof fn lemma_dec_enc_pairs(data: Seq<u8>, pos: int, s: Seq<(ValueView, ValueView)>)
    requires
        0 <= pos,
        pos + encoded_pairs(s).len() <= data.len(),
        data.subrange(pos, pos + encoded_pairs(s).len() as int) == encoded_pairs(s),
    ensures
        dec_pairs(data, pos, s.len()) == Some((s, pos + encoded_pairs(s).len() as int)),
    decreases s, 1nat,
{
    if s.len() == 0 {
    } else {
        let whole = encoded_pairs(s);
        let ke = encoded(s[0].0);
        let we = encoded(s[0].1);
        let rest = encoded_pairs(s.drop_first());
        assert(whole == ke + we + rest);
        lemma_slice_at(data, pos, whole, 0, ke);
        assert(decreases_to!(s => s[0]));
        assert(decreases_to!(s[0] => s[0].0));
        assert(decreases_to!(s[0] => s[0].1));
        lemma_dec_enc(data, pos, s[0].0);
        lemma_encoded_len(s[0].0);
        let p2 = pos + ke.len();
        lemma_slice_at(data, pos, whole, ke.len() as int, we);
        lemma_dec_enc(data, p2, s[0].1);
        lemma_encoded_len(s[0].1);
        let p3 = p2 + we.len();
        lemma_slice_at(data, pos, whole, ke.len() + we.len() as int, rest);
        assert(decreases_to!(s => s.drop_first()));
        lemma_dec_enc_pairs(data, p3, s.drop_first());
        assert(seq![s[0]] + s.drop_first() =~= s);
    }
}

/// Encoding any value tree and decoding the bytes yields a structurally
/// equal tree, with the decoder stopping exactly at the end of the image:
/// the wire format and the value tree are inverse drivers of one protocol.
pub proof fn lemma_roundtrip(v: ValueView)
    ensures
        dec_value(encoded(v), 0) == Some((v, encoded(v).len() as int)),
{
    let data = encoded(v);
    assert(data.subrange(0, data.len() as int) =~= data);
    lemma_dec_enc(data, 0, v);
}


/// Encodes the given value tree into the given byte sink.
pub fn encode(out: &mut Vec<u8>, value: &Value) -> (r: Result<(), Error>)
    ensures
        r is Ok,
        final(out)@ == old(out)@ + encoded(value@),
{
    encode_value(out, value);
    Ok(())
}

/// Encodes the given value tree into a fresh byte vector.
pub fn to_vec(value: &Value) -> (r: Result<Vec<u8>, Error>)
    ensures
        r matches Ok(out) && out@ == encoded(value@),
{
    let mut out: Vec<u8> = Vec::new();
    encode_value(&mut out, value);
    Ok(out)
}

/// Encodes the given value tree into a fixed-capacity buffer of the given
/// size, or reports exhausted capacity when the wire image does not fit.
pub fn to_fixed_bytes(value: &Value, capacity: usize) -> (r: Result<FixedBuf, Error>)
    ensures
        encoded(value@).len() <= capacity ==> (r matches Ok(buf) && buf.data() == encoded(
            value@,
        )),
        encoded(value@).len() > capacity ==> (r matches Err(e) && e.spec_kind()
            == ErrorKind::CapacityExceeded),
{
    let mut alloc = Fixed::new(capacity);
    let mut buf = match alloc.acquire() {
        Some(b) => b,
        None => {
            proof {
                lemma_encoded_len(value@);
            }
            return Err(Error::new(ErrorKind::CapacityExceeded));
        },
    };
    let bytes = match to_vec(value) {
        Ok(b) => b,
        Err(e) => {
            return Err(e);
        },
    };
    if buf.try_write(bytes.as_slice()) {
        Ok(buf)
    } else {
        Err(Error::new(ErrorKind::CapacityExceeded))
    }
}

/// Decodes one value tree from the start of the given bytes. Trailing bytes
/// after the value are permitted and ignored.
pub fn from_slice(data: &[u8]) -> (r: Result<Value, Error>)
    ensures
        match dec_value(data@, 0) {
            Some(vp) => r matches Ok(v) && v@ == vp.0,
            None => r matches Err(e) && e.spec_kind() == ErrorKind::Malformed,
        },
{
    match decode_value(data, 0) {
        Some((v, _)) => Ok(v),
        None => Err(Error::new(ErrorKind::Malformed)),
    }
}


/// Reads one byte string at `pos`, handing it over on the borrowed channel:
/// an in-memory slice source offers zero-copy slices of its input.
pub fn decode_bytes_visit<'de>(data: &'de [u8], pos: usize) -> (r: Option<
    (BytesVisit<'de, 'de>, usize),
>)
    ensures
        match r {
            Some(vp) => dec_value(data@, pos as int) == Some(
                (ValueView::Bytes(vp.0.bytes()), vp.1 as int),
            ) && vp.0.retainable(),
            None => !(dec_value(data@, pos as int) matches Some(vp) && vp.0 is Bytes),
        },
{
    if pos >= data.len() {
        return None;
    }
    if data[pos] != TAG_BYTES {
        return None;
    }
    proof {
        crate::varint::lemma_dec_varint_advances(data@, pos + 1);
    }
    match decode_varint(data, pos + 1) {
        Some((len128, p2)) => {
            if len128 <= (data.len() - p2) as u128 {
                let len = len128 as usize;
                let end = p2 + len;
                let part = vstd::slice::slice_subrange(data, p2, end);
                Some((BytesVisit::Borrowed(part), end))
            } else {
                None
            }
        },
        None => None,
    }
}

/// Reads one text value at `pos`, handing it over on the borrowed channel.
pub fn decode_string_visit<'de>(data: &'de [u8], pos: usize) -> (r: Option<
    (TextVisit<'de, 'de>, usize),
>)
    ensures
        match r {
            Some(vp) => dec_value(data@, pos as int) == Some(
                (ValueView::String(vp.0.text()), vp.1 as int),
            ) && vp.0.retainable(),
            None => !(dec_value(data@, pos as int) matches Some(vp) && vp.0 is String),
        },
{
    if pos >= data.len() {
        return None;
    }
    if data[pos] != TAG_STRING {
        return None;
    }
    proof {
        crate::varint::lemma_dec_varint_advances(data@, pos + 1);
    }
    match decode_varint(data, pos + 1) {
        Some((len128, p2)) => {
            if len128 <= (data.len() - p2) as u128 {
                let len = len128 as usize;
                let end = p2 + len;
                let part = vstd::slice::slice_subrange(data, p2, end);
                match crate::text::bytes_as_str(part) {
                    Some(text) => {
                        proof {
                            crate::text::lemma_bytes_to_string_view(
                                data@.subrange(p2 as int, end as int),
                                text@,
                            );
                        }
                        Some((TextVisit::Borrowed(text), end))
                    },
                    None => None,
                }
            } else {
                None
            }
        },
        None => None,
    }
}

/// Entry point carrying the format's configuration: variable-length
/// numerical fields and variable-length prefix lengths.
#[derive(Clone, Copy)]
pub struct Encoding {
    _config: (),
}

impl Encoding {
    /// The default configuration.
    pub fn new() -> (r: Encoding) {
        Encoding { _config: () }
    }

    /// Encodes the given value tree into the given byte sink.
    pub fn encode(&self, out: &mut Vec<u8>, value: &Value) -> (r: Result<(), Error>)
        ensures
            r is Ok,
            final(out)@ == old(out)@ + encoded(value@),
    {
        crate::encoding::encode(out, value)
    }

    /// Encodes the given value tree into a fresh byte vector.
    pub fn to_vec(&self, value: &Value) -> (r: Result<Vec<u8>, Error>)
        ensures
            r matches Ok(out) && out@ == encoded(value@),
    {
        crate::encoding::to_vec(value)
    }

    /// Decodes one value tree from the start of the given bytes.
    pub fn from_slice(&self, data: &[u8]) -> (r: Result<Value, Error>)
        ensures
            match dec_value(data@, 0) {
                Some(vp) => r matches Ok(v) && v@ == vp.0,
                None => r matches Err(e) && e.spec_kind() == ErrorKind::Malformed,
            },
    {
        crate::encoding::from_slice(data)
    }
}


/// A valid C-style string image: non-empty, terminated by exactly one zero
/// byte, with no interior zero.
pub open spec fn cstr_valid(bs: Seq<u8>) -> bool {
    &&& bs.len() > 0
    &&& bs[bs.len() - 1] == 0
    &&& forall|i: int| 0 <= i < bs.len() - 1 ==> bs[i] != 0
}

/// Reads one byte string at `pos` and validates it as a C-style
/// null-terminated string, handing the bytes (terminator included) over on
/// the borrowed channel.
#[verifier::loop_isolation(false)]
pub fn decode_cstring_visit<'de>(data: &'de [u8], pos: usize) -> (r: Option<
    (BytesVisit<'de, 'de>, usize),
>)
    ensures
        match r {
            Some(vp) => dec_value(data@, pos as int) == Some(
                (ValueView::Bytes(vp.0.bytes()), vp.1 as int),
            ) && cstr_valid(vp.0.bytes()) && vp.0.retainable(),
            None => !(dec_value(data@, pos as int) matches Some(vp) && vp.0 matches
                ValueView::Bytes(bs) && cstr_valid(bs)),
        },
{
    match decode_bytes_visit(data, pos) {
        Some((visit, end)) => {
            let bs = match &visit {
                BytesVisit::Owned(v) => v.as_slice(),
                BytesVisit::Borrowed(b) => b,
                BytesVisit::Reference(r) => r,
            };
            if bs.len() == 0 {
                return None;
            }
            if bs[bs.len() - 1] != 0 {
                return None;
            }
            let mut i: usize = 0;
            while i < bs.len() - 1
                invariant
                    0 <= i <= bs@.len() - 1,
                    bs@.len() > 0,
                    forall|j: int| 0 <= j < i ==> bs@[j] != 0,
                decreases bs@.len() - 1 - i,
            {
                if bs[i] == 0 {
                    return None;
                }
                i = i + 1;
            }
            Some((visit, end))
        },
        None => None,
    }
}

} // verus!
