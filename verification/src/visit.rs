//! The three-way ownership visitation for decoded unsized data.
//!
//! Different drivers have different ownership capabilities, so unsized data
//! (byte strings, text) is handed to its consumer through one of three
//! channels: **owned** (a freshly materialized buffer whose ownership
//! transfers), **borrowed** (a zero-copy slice tied to the original input,
//! safe to retain without copying), or **reference** (a transient borrow of
//! scratch space, valid only for the duration of the visit — the consumer
//! must copy if it retains the data). The distinction between "safe to
//! retain" and "must copy" is part of the contract and is never collapsed.

use vstd::prelude::*;
use vstd::utf8::encode_utf8;

verus! {

/// A decoded byte string, on one of the three ownership channels.
#[derive(Debug)]
pub enum BytesVisit<'de, 'scratch> {
    Owned(Vec<u8>),
    Borrowed(&'de [u8]),
    Reference(&'scratch [u8]),
}

impl<'de, 'scratch> BytesVisit<'de, 'scratch> {
    /// The bytes handed over, whatever the channel.
    pub open spec fn bytes(&self) -> Seq<u8> {
        match *self {
            BytesVisit::Owned(ref v) => v@,
            BytesVisit::Borrowed(b) => b@,
            BytesVisit::Reference(r) => r@,
        }
    }

    /// Whether the data may be retained without copying: true for the owned
    /// and borrowed channels, false for a transient reference.
    pub open spec fn retainable(&self) -> bool {
        !(self is Reference)
    }

    /// Materializes the bytes as an owned buffer: the copy a consumer makes
    /// when it must retain transient data.
    pub fn into_owned(self) -> (r: Vec<u8>)
        ensures
            r@ == self.bytes(),
    {
        match self {
            BytesVisit::Owned(v) => v,
            BytesVisit::Borrowed(b) => copy_slice(b),
            BytesVisit::Reference(r) => copy_slice(r),
        }
    }
}

/// Decoded text, on one of the three ownership channels.
#[derive(Debug)]
pub enum TextVisit<'de, 'scratch> {
    Owned(String),
    Borrowed(&'de str),
    Reference(&'scratch str),
}

impl<'de, 'scratch> TextVisit<'de, 'scratch> {
    /// The text handed over, whatever the channel.
    pub open spec fn text(&self) -> Seq<char> {
        match *self {
            TextVisit::Owned(ref s) => s@,
            TextVisit::Borrowed(b) => b@,
            TextVisit::Reference(r) => r@,
        }
    }

    /// Whether the text may be retained without copying.
    pub open spec fn retainable(&self) -> bool {
        !(self is Reference)
    }

    /// Materializes the text as an owned string: the copy a consumer makes
    /// when it must retain transient data.
    pub fn into_owned(self) -> (r: String)
        ensures
            r@ == self.text(),
    {
        match self {
            TextVisit::Owned(s) => s,
            TextVisit::Borrowed(b) => b.to_owned(),
            TextVisit::Reference(r) => r.to_owned(),
        }
    }
}

/// Copies a byte slice into a fresh vector.
fn copy_slice(b: &[u8]) -> (r: Vec<u8>)
    ensures
        r@ == b@,
{
    let mut out: Vec<u8> = Vec::new();
    out.extend_from_slice(b);
    proof {
        assert(out@ =~= b@);
    }
    out
}

} // verus!
