//! Position- and path-aware decoding: the primitives a traced decode drives
//! through a [`Context`], so that a failure carries the logical path and the
//! byte range of the offending marker.
//!
//! Each primitive marks the context at its start. On success the context's
//! position moves exactly past the decoded piece; on failure the position is
//! left at the mark so that the caller can resynchronize by skipping the
//! whole value, and the returned error's byte range runs from the mark to
//! just past the offending marker byte. In collecting mode every such error
//! is also recorded on the context.

use vstd::prelude::*;

use crate::context::{rendered_error, Context};
use crate::encoding::{dec_value, dec_varint_header, decode_value};
use crate::error::{Error, ErrorKind};
use crate::tag::TAG_MAP;
use crate::value::{Number, Value, ValueView};

verus! {

/// Reads a map header at the context's position: the map marker, then the
/// pair count.
pub fn decode_map_header(data: &[u8], cx: &mut Context) -> (r: Result<usize, Error>)
    requires
        old(cx).spec_position() < usize::MAX,
    ensures
        final(cx).path() == old(cx).path(),
        final(cx).collecting() == old(cx).collecting(),
        match r {
            Ok(n) => {
                &&& dec_varint_header(data@, old(cx).spec_position() as int, TAG_MAP) == Some(
                    (n as nat, final(cx).spec_position() as int),
                )
                &&& final(cx).spec_errors() == old(cx).spec_errors()
            },
            Err(e) => {
                &&& !(dec_varint_header(data@, old(cx).spec_position() as int, TAG_MAP)
                    matches Some(np) && np.0 <= usize::MAX)
                &&& final(cx).spec_position() == old(cx).spec_position()
                &&& (old(cx).spec_position() >= data@.len() ==> e.spec_kind()
                    == ErrorKind::Underflow)
                &&& (old(cx).spec_position() < data@.len() && data@[old(
                    cx,
                ).spec_position() as int] != TAG_MAP ==> e.spec_kind() == ErrorKind::ExpectedMap)
                &&& (e.spec_kind() == ErrorKind::Underflow || e.spec_kind()
                    == ErrorKind::ExpectedMap || e.spec_kind() == ErrorKind::InvalidNumeric)
                &&& e.spec_text() == rendered_error(
                    old(cx).path(),
                    e.spec_kind(),
                    old(cx).spec_position(),
                    old(cx).spec_position() + 1,
                )
                &&& final(cx).spec_errors() == if old(cx).collecting() {
                    old(cx).spec_errors().push(e.text_owned())
                } else {
                    old(cx).spec_errors()
                }
            },
        },
{
    let pos = cx.mark();
    if pos >= data.len() {
        return Err(cx.marked_custom(ErrorKind::Underflow, pos, pos + 1));
    }
    if data[pos] != TAG_MAP {
        return Err(cx.marked_custom(ErrorKind::ExpectedMap, pos, pos + 1));
    }
    proof {
        crate::varint::lemma_dec_varint_advances(data@, pos + 1);
    }
    match crate::varint::decode_varint(data, pos + 1) {
        Some((n, p2)) => {
            if n <= usize::MAX as u128 {
                cx.advance(p2 - pos);
                Ok(n as usize)
            } else {
                Err(cx.marked_custom(ErrorKind::InvalidNumeric, pos, pos + 1))
            }
        },
        None => Err(cx.marked_custom(ErrorKind::Underflow, pos, pos + 1)),
    }
}

/// Reads a text value at the context's position.
pub fn decode_string_traced(data: &[u8], cx: &mut Context) -> (r: Result<String, Error>)
    requires
        old(cx).spec_position() < usize::MAX,
    ensures
        final(cx).path() == old(cx).path(),
        final(cx).collecting() == old(cx).collecting(),
        match r {
            Ok(s) => {
                &&& dec_value(data@, old(cx).spec_position() as int) == Some(
                    (ValueView::String(s@), final(cx).spec_position() as int),
                )
                &&& final(cx).spec_errors() == old(cx).spec_errors()
            },
            Err(e) => {
                &&& !(dec_value(data@, old(cx).spec_position() as int) matches Some(vp)
                    && vp.0 is String)
                &&& final(cx).spec_position() == old(cx).spec_position()
                &&& (dec_value(data@, old(cx).spec_position() as int) is None ==> e.spec_kind()
                    == ErrorKind::Underflow)
                &&& (dec_value(data@, old(cx).spec_position() as int) is Some ==> e.spec_kind()
                    == ErrorKind::ExpectedString)
                &&& e.spec_text() == rendered_error(
                    old(cx).path(),
                    e.spec_kind(),
                    old(cx).spec_position(),
                    old(cx).spec_position() + 1,
                )
                &&& final(cx).spec_errors() == if old(cx).collecting() {
                    old(cx).spec_errors().push(e.text_owned())
                } else {
                    old(cx).spec_errors()
                }
            },
        },
{
    let pos = cx.mark();
    match decode_value(data, pos) {
        Some((v, p)) => match v {
            Value::String(s) => {
                proof {
                    crate::encoding::lemma_dec_value_advances(data@, pos as int);
                }
                cx.advance(p - pos);
                Ok(s)
            },
            _ => Err(cx.marked_custom(ErrorKind::ExpectedString, pos, pos + 1)),
        },
        None => Err(cx.marked_custom(ErrorKind::Underflow, pos, pos + 1)),
    }
}

/// Reads an unsigned 32-bit number at the context's position.
pub fn decode_u32_traced(data: &[u8], cx: &mut Context) -> (r: Result<u32, Error>)
    requires
        old(cx).spec_position() < usize::MAX,
    ensures
        final(cx).path() == old(cx).path(),
        final(cx).collecting() == old(cx).collecting(),
        match r {
            Ok(x) => {
                &&& dec_value(data@, old(cx).spec_position() as int) == Some(
                    (
                        ValueView::Number(Number::U32(x)),
                        final(cx).spec_position() as int,
                    ),
                )
                &&& final(cx).spec_errors() == old(cx).spec_errors()
            },
            Err(e) => {
                &&& !(dec_value(data@, old(cx).spec_position() as int) matches Some(vp)
                    && vp.0 matches ValueView::Number(Number::U32(_)))
                &&& final(cx).spec_position() == old(cx).spec_position()
                &&& (old(cx).spec_position() < data@.len() ==> e.spec_kind()
                    == ErrorKind::InvalidNumeric)
                &&& (old(cx).spec_position() >= data@.len() ==> e.spec_kind()
                    == ErrorKind::Underflow)
                &&& e.spec_text() == rendered_error(
                    old(cx).path(),
                    e.spec_kind(),
                    old(cx).spec_position(),
                    old(cx).spec_position() + 1,
                )
                &&& final(cx).spec_errors() == if old(cx).collecting() {
                    old(cx).spec_errors().push(e.text_owned())
                } else {
                    old(cx).spec_errors()
                }
            },
        },
{
    let pos = cx.mark();
    if pos >= data.len() {
        return Err(cx.marked_custom(ErrorKind::Underflow, pos, pos + 1));
    }
    match decode_value(data, pos) {
        Some((v, p)) => match v {
            Value::Number(n) => match n {
                Number::U32(x) => {
                    proof {
                        crate::encoding::lemma_dec_value_advances(data@, pos as int);
                    }
                    cx.advance(p - pos);
                    Ok(x)
                },
                _ => Err(cx.marked_custom(ErrorKind::InvalidNumeric, pos, pos + 1)),
            },
            _ => Err(cx.marked_custom(ErrorKind::InvalidNumeric, pos, pos + 1)),
        },
        None => Err(cx.marked_custom(ErrorKind::InvalidNumeric, pos, pos + 1)),
    }
}

/// Skips one whole value at the context's position: the resynchronization
/// step a collecting decode takes after a failed entry.
pub fn skip_value(data: &[u8], cx: &mut Context) -> (r: Result<(), Error>)
    requires
        old(cx).spec_position() < usize::MAX,
    ensures
        final(cx).path() == old(cx).path(),
        final(cx).collecting() == old(cx).collecting(),
        match r {
            Ok(_) => {
                &&& dec_value(data@, old(cx).spec_position() as int) matches Some(vp)
                    && vp.1 == final(cx).spec_position() as int
                &&& final(cx).spec_errors() == old(cx).spec_errors()
            },
            Err(e) => {
                &&& dec_value(data@, old(cx).spec_position() as int) is None
                &&& final(cx).spec_position() == old(cx).spec_position()
                &&& e.spec_kind() == ErrorKind::Malformed
                &&& e.spec_text() == rendered_error(
                    old(cx).path(),
                    ErrorKind::Malformed,
                    old(cx).spec_position(),
                    old(cx).spec_position() + 1,
                )
                &&& final(cx).spec_errors() == if old(cx).collecting() {
                    old(cx).spec_errors().push(e.text_owned())
                } else {
                    old(cx).spec_errors()
                }
            },
        },
{
    let pos = cx.mark();
    match decode_value(data, pos) {
        Some((_, p)) => {
            proof {
                crate::encoding::lemma_dec_value_advances(data@, pos as int);
            }
            cx.advance(p - pos);
            Ok(())
        },
        None => Err(cx.marked_custom(ErrorKind::Malformed, pos, pos + 1)),
    }
}

} // verus!
