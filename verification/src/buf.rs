//! Scratch buffers: the capability every allocator's buffer offers, and a
//! wrapper that keeps a buffer holding valid UTF-8 text.

use vstd::prelude::*;
use vstd::utf8::{encode_scalar, encode_utf8};

use crate::error::{Error, ErrorKind};
use crate::text::bytes_to_string;

verus! {

/// A scratch byte buffer handed out by an allocator.
///
/// `write` returns `false` when the buffer's capacity is exhausted — never
/// a crash — and leaves the contents untouched in that case.
pub trait Buf: Sized {
    /// The bytes written so far.
    spec fn data(&self) -> Seq<u8>;

    /// Appends the given bytes, or reports exhausted capacity.
    fn write(&mut self, bytes: &[u8]) -> (r: bool)
        ensures
            r ==> final(self).data() == old(self).data() + bytes@,
            !r ==> final(self).data() == old(self).data(),
    ;

    /// The number of bytes written so far.
    fn len(&self) -> (r: usize)
        ensures
            r == self.data().len(),
    ;

    /// One byte of the contents.
    fn byte_at(&self, i: usize) -> (r: u8)
        requires
            i < self.data().len(),
        ensures
            r == self.data()[i as int],
    ;
}

/// Concatenating the encodings of two texts encodes their concatenation.
pub proof fn lemma_encode_utf8_concat(a: Seq<char>, b: Seq<char>)
    ensures
        encode_utf8(a + b) == encode_utf8(a) + encode_utf8(b),
    decreases b.len(),
{
    if b.len() == 0 {
        assert(a + b =~= a);
        assert(encode_utf8(a) + encode_utf8(b) =~= encode_utf8(a));
    } else {
        lemma_encode_utf8_concat(a, b.drop_last());
        lemma_encode_utf8_snoc(a + b.drop_last(), b.last());
        lemma_encode_utf8_snoc(b.drop_last(), b.last());
        assert((a + b.drop_last()).push(b.last()) =~= a + b);
        assert(b.drop_last().push(b.last()) =~= b);
        assert(encode_utf8(a + b) =~= encode_utf8(a) + encode_utf8(b));
    }
}

/// Appending one character appends its scalar encoding.
pub proof fn lemma_encode_utf8_snoc(s: Seq<char>, c: char)
    ensures
        encode_utf8(s.push(c)) == encode_utf8(s) + encode_scalar(c as u32),
    decreases s.len(),
{
    if s.len() == 0 {
        assert(s.push(c).drop_first() =~= Seq::<char>::empty());
        assert(s.push(c)[0] == c);
        assert(encode_utf8(s.push(c)) == encode_scalar(c as u32) + encode_utf8(
            Seq::<char>::empty(),
        ));
        assert(encode_utf8(s.push(c)) =~= encode_utf8(s) + encode_scalar(c as u32));
    } else {
        assert(s.push(c).drop_first() =~= s.drop_first().push(c));
        lemma_encode_utf8_snoc(s.drop_first(), c);
        assert(s.push(c)[0] == s[0]);
        assert(encode_utf8(s.push(c)) == encode_scalar(s[0] as u32) + encode_utf8(
            s.drop_first().push(c),
        ));
        assert(encode_utf8(s.push(c)) =~= encode_utf8(s) + encode_scalar(c as u32));
    }
}

/// A wrapper around a [`Buf`] that is guaranteed to hold valid UTF-8 text:
/// the bytes written are always the encoding of the characters pushed.
pub struct BufString<B> {
    buf: B,
    chars: Ghost<Seq<char>>,
}

impl<B: Buf> BufString<B> {
    /// The text held so far.
    pub closed spec fn text(&self) -> Seq<char> {
        self.chars@
    }

    /// The buffer's bytes are exactly the encoding of the text.
    pub closed spec fn wf(&self) -> bool {
        self.buf.data() == encode_utf8(self.chars@)
    }

    /// Wraps a fresh, empty buffer.
    pub fn new(buf: B) -> (r: BufString<B>)
        requires
            buf.data() == Seq::<u8>::empty(),
        ensures
            r.wf(),
            r.text() == Seq::<char>::empty(),
    {
        proof {
            assert(encode_utf8(Seq::<char>::empty()) =~= Seq::<u8>::empty());
        }
        BufString { buf, chars: Ghost(Seq::empty()) }
    }

    /// Appends one character, or reports exhausted capacity and leaves the
    /// text unchanged.
    pub fn try_push(&mut self, c: char) -> (r: Result<(), Error>)
        requires
            old(self).wf(),
        ensures
            final(self).wf(),
            r is Ok ==> final(self).text() == old(self).text().push(c),
            r is Err ==> final(self).text() == old(self).text() && r->Err_0.spec_kind()
                == ErrorKind::CapacityExceeded,
    {
        let bytes = crate::buf::char_utf8_bytes(c);
        proof {
            lemma_encode_utf8_snoc(old(self).chars@, c);
        }
        if self.buf.write(bytes.as_slice()) {
            self.chars = Ghost(self.chars@.push(c));
            Ok(())
        } else {
            Err(Error::new(ErrorKind::CapacityExceeded))
        }
    }

    /// Appends a text slice, or reports exhausted capacity and leaves the
    /// text unchanged.
    pub fn try_push_str(&mut self, s: &str) -> (r: Result<(), Error>)
        requires
            old(self).wf(),
        ensures
            final(self).wf(),
            r is Ok ==> final(self).text() == old(self).text() + s@,
            r is Err ==> final(self).text() == old(self).text() && r->Err_0.spec_kind()
                == ErrorKind::CapacityExceeded,
    {
        let bytes = s.as_bytes();
        proof {
            lemma_encode_utf8_concat(old(self).chars@, s@);
        }
        if self.buf.write(bytes) {
            self.chars = Ghost(self.chars@ + s@);
            Ok(())
        } else {
            Err(Error::new(ErrorKind::CapacityExceeded))
        }
    }

    /// The text held so far, as an owned string.
    pub fn to_text(&self) -> (r: String)
        requires
            self.wf(),
        ensures
            r@ == self.text(),
    {
        let bytes = self.copy_bytes();
        proof {
            crate::text::lemma_bytes_to_string_view(encode_utf8(self.chars@), self.chars@);
        }
        match bytes_to_string(bytes) {
            Some(s) => {
                proof {
                    vstd::utf8::encode_utf8_decode_utf8(s@);
                }
                s
            },
            None => {
                proof {
                    assert(false);
                }
                String::new()
            },
        }
    }

    /// The bytes held so far.
    fn copy_bytes(&self) -> (r: Vec<u8>)
        ensures
            r@ == self.buf.data(),
    {
        let n = self.buf.len();
        let mut out: Vec<u8> = Vec::new();
        let mut i: usize = 0;
        while i < n
            invariant
                0 <= i <= n,
                n == self.buf.data().len(),
                out@ == self.buf.data().take(i as int),
            decreases n - i,
        {
            let b = self.byte_at(i);
            out.push(b);
            assert(out@ =~= self.buf.data().take(i + 1));
            i = i + 1;
        }
        proof {
            assert(self.buf.data().take(n as int) =~= self.buf.data());
        }
        out
    }

    /// One byte of the buffer.
    fn byte_at(&self, i: usize) -> (r: u8)
        requires
            i < self.buf.data().len(),
        ensures
            r == self.buf.data()[i as int],
    {
        self.buf.byte_at(i)
    }

    /// Hands the underlying buffer back, for release to its allocator.
    pub fn into_buf(self) -> (r: B)
        ensures
            r == self.buf_field(),
    {
        self.buf
    }

    /// The underlying buffer, in specifications.
    pub closed spec fn buf_field(&self) -> B {
        self.buf
    }
}

impl BufString<crate::allocator::SystemBuf> {
    /// Appends a text slice to a string built over a pooled region, whose
    /// writes always succeed.
    pub fn push_str(&mut self, s: &str)
        requires
            old(self).wf(),
        ensures
            final(self).wf(),
            final(self).text() == old(self).text() + s@,
    {
        let bytes = s.as_bytes();
        proof {
            lemma_encode_utf8_concat(old(self).chars@, s@);
        }
        let _ok = self.buf.write(bytes);
        self.chars = Ghost(self.chars@ + s@);
    }
}

/// The UTF-8 encoding of one character, as executable bytes.
pub fn char_utf8_bytes(c: char) -> (r: Vec<u8>)
    ensures
        r@ == encode_scalar(c as u32),
{
    proof {
        vstd::utf8::char_is_scalar(c);
    }
    let u = c as u32;
    let mut out: Vec<u8> = Vec::new();
    if u <= 0x7F {
        out.push((u & 0x7F) as u8);
        assert(out@ =~= encode_scalar(c as u32));
    } else if u <= 0x7FF {
        out.push(0xC0u8 | (((u >> 6u32) & 0x1F) as u8));
        out.push(0x80u8 | ((u & 0x3F) as u8));
        assert(out@ =~= encode_scalar(c as u32));
    } else if u <= 0xFFFF {
        out.push(0xE0u8 | (((u >> 12u32) & 0x0F) as u8));
        out.push(0x80u8 | (((u >> 6u32) & 0x3F) as u8));
        out.push(0x80u8 | ((u & 0x3F) as u8));
        assert(out@ =~= encode_scalar(c as u32));
    } else {
        out.push(0xF0u8 | (((u >> 18u32) & 0x7) as u8));
        out.push(0x80u8 | (((u >> 12u32) & 0x3F) as u8));
        out.push(0x80u8 | (((u >> 6u32) & 0x3F) as u8));
        out.push(0x80u8 | ((u & 0x3F) as u8));
        assert(out@ =~= encode_scalar(c as u32));
    }
    out
}

} // verus!
