//! A byte reader over a borrowed slice, tracking its position and reporting
//! consumption to a [`Context`] so that errors carry exact byte ranges.

use vstd::prelude::*;

use crate::context::Context;
use crate::error::{Error, ErrorKind};

verus! {

/// An efficient reader over a borrowed byte slice.
pub struct SliceParser<'de> {
    slice: &'de [u8],
    index: usize,
}

impl<'de> SliceParser<'de> {
    /// The bytes being read.
    pub closed spec fn spec_slice(&self) -> Seq<u8> {
        self.slice@
    }

    /// The current read position.
    pub closed spec fn spec_index(&self) -> nat {
        self.index as nat
    }

    /// A reader over the given slice, starting at its beginning.
    pub fn new(slice: &'de [u8]) -> (r: SliceParser<'de>)
        ensures
            r.spec_slice() == slice@,
            r.spec_index() == 0,
    {
        SliceParser { slice, index: 0 }
    }

    /// The current read position.
    pub fn pos(&self) -> (r: usize)
        ensures
            r == self.spec_index(),
    {
        self.index
    }

    /// The next byte, without consuming it; nothing at the end of input.
    pub fn peek_byte(&self) -> (r: Option<u8>)
        ensures
            self.spec_index() < self.spec_slice().len() ==> r == Some(
                self.spec_slice()[self.spec_index() as int],
            ),
            self.spec_index() >= self.spec_slice().len() ==> r is None,
    {
        if self.index < self.slice.len() {
            Some(self.slice[self.index])
        } else {
            None
        }
    }

    /// Consumes `n` bytes without reading them; underflow when fewer remain.
    pub fn skip(&mut self, cx: &mut Context, n: usize) -> (r: Result<(), Error>)
        requires
            old(cx).spec_position() + n <= usize::MAX,
        ensures
            final(self).spec_slice() == old(self).spec_slice(),
            final(cx).path() == old(cx).path(),
            final(cx).collecting() == old(cx).collecting(),
            old(self).spec_index() + n <= old(self).spec_slice().len() ==> (r is Ok
                && final(self).spec_index() == old(self).spec_index() + n
                && final(cx).spec_position() == old(cx).spec_position() + n
                && final(cx).spec_errors() == old(cx).spec_errors()),
            old(self).spec_index() + n > old(self).spec_slice().len() ==> (r matches Err(e)
                && e.spec_kind() == ErrorKind::Underflow
                && final(self).spec_index() == old(self).spec_index()
                && final(cx).spec_position() == old(cx).spec_position()),
    {
        if n > self.slice.len() || self.index > self.slice.len() - n {
            return Err(cx.custom(ErrorKind::Underflow));
        }
        self.index = self.index + n;
        cx.advance(n);
        Ok(())
    }

    /// Reads one byte; underflow at the end of input.
    pub fn read_byte(&mut self, cx: &mut Context) -> (r: Result<u8, Error>)
        requires
            old(cx).spec_position() < usize::MAX,
        ensures
            final(self).spec_slice() == old(self).spec_slice(),
            final(cx).path() == old(cx).path(),
            final(cx).collecting() == old(cx).collecting(),
            old(self).spec_index() < old(self).spec_slice().len() ==> (r matches Ok(b)
                && b == old(self).spec_slice()[old(self).spec_index() as int]
                && final(self).spec_index() == old(self).spec_index() + 1
                && final(cx).spec_position() == old(cx).spec_position() + 1
                && final(cx).spec_errors() == old(cx).spec_errors()),
            old(self).spec_index() >= old(self).spec_slice().len() ==> (r matches Err(e)
                && e.spec_kind() == ErrorKind::Underflow
                && final(self).spec_index() == old(self).spec_index()
                && final(cx).spec_position() == old(cx).spec_position()),
    {
        if self.index >= self.slice.len() {
            return Err(cx.custom(ErrorKind::Underflow));
        }
        let b = self.slice[self.index];
        self.index = self.index + 1;
        cx.advance(1);
        Ok(b)
    }

    /// Reads `n` bytes into a fresh vector; underflow when fewer remain.
    pub fn read(&mut self, cx: &mut Context, n: usize) -> (r: Result<Vec<u8>, Error>)
        requires
            old(cx).spec_position() + n <= usize::MAX,
        ensures
            final(self).spec_slice() == old(self).spec_slice(),
            final(cx).path() == old(cx).path(),
            final(cx).collecting() == old(cx).collecting(),
            old(self).spec_index() + n <= old(self).spec_slice().len() ==> (r matches Ok(bs)
                && bs@ == old(self).spec_slice().subrange(
                old(self).spec_index() as int,
                old(self).spec_index() + n,
            ) && final(self).spec_index() == old(self).spec_index() + n
                && final(cx).spec_position() == old(cx).spec_position() + n
                && final(cx).spec_errors() == old(cx).spec_errors()),
            old(self).spec_index() + n > old(self).spec_slice().len() ==> (r matches Err(e)
                && e.spec_kind() == ErrorKind::Underflow
                && final(self).spec_index() == old(self).spec_index()
                && final(cx).spec_position() == old(cx).spec_position()),
    {
        if n > self.slice.len() || self.index > self.slice.len() - n {
            return Err(cx.custom(ErrorKind::Underflow));
        }
        let end = self.index + n;
        let out = crate::encoding::slice_range_to_vec(self.slice, self.index, end);
        self.index = end;
        cx.advance(n);
        Ok(out)
    }
}

} // verus!
