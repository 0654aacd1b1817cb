//! Per-operation state: the nested path tracker used for error reporting,
//! byte-position marks, and the error collection policy.
//!
//! Path entries are pushed immediately before entering a nested element and
//! popped immediately after leaving it, in strictly nested (last-in,
//! first-out) pairs. The rendered path at any point is the concatenation of
//! the currently open entries in open order; an error raised through the
//! context carries that path and a byte range derived from the last mark.

use vstd::prelude::*;

use crate::error::{kind_str, kind_text, Error, ErrorKind};
use crate::text::{dec_digits, push_decimal};

verus! {

/// One open entry of the logical path: a named field, a sequence index, or
/// a map key held in its rendered form.
pub enum PathEntry {
    Named(String),
    Index(u64),
    Key(String),
}

/// The rendered text of one path entry.
pub open spec fn rendered_entry(e: PathEntry) -> Seq<char> {
    match e {
        PathEntry::Named(n) => "."@ + n@,
        PathEntry::Index(i) => "["@ + dec_digits(i as nat) + "]"@,
        PathEntry::Key(k) => "["@ + k@ + "]"@,
    }
}

/// The rendered text of a whole path: the concatenation of its entries'
/// renderings, in open order.
pub open spec fn rendered_path(s: Seq<PathEntry>) -> Seq<char>
    decreases s,
{
    if s.len() == 0 {
        Seq::empty()
    } else {
        rendered_path(s.drop_last()) + rendered_entry(s[s.len() - 1])
    }
}

/// Opening one more entry appends exactly that entry's rendering to the
/// rendered path.
pub proof fn lemma_rendered_path_push(s: Seq<PathEntry>, e: PathEntry)
    ensures
        rendered_path(s.push(e)) == rendered_path(s) + rendered_entry(e),
{
    assert(s.push(e).drop_last() =~= s);
}

/// Closing the innermost entry removes exactly that entry's rendering from
/// the end of the rendered path.
pub proof fn lemma_rendered_path_pop(s: Seq<PathEntry>)
    requires
        s.len() > 0,
    ensures
        rendered_path(s) == rendered_path(s.drop_last()) + rendered_entry(s[s.len() - 1]),
{
}

/// The full rendered error text: `<path>: <message> (at bytes <start>-<end>)`.
pub open spec fn rendered_message(
    path: Seq<PathEntry>,
    text: Seq<char>,
    start: nat,
    end: nat,
) -> Seq<char> {
    rendered_path(path) + ": "@ + text + " (at bytes "@ + dec_digits(start) + "-"@ + dec_digits(
        end,
    ) + ")"@
}

/// The rendered text of an error of the given kind.
pub open spec fn rendered_error(
    path: Seq<PathEntry>,
    kind: ErrorKind,
    start: nat,
    end: nat,
) -> Seq<char> {
    rendered_message(path, kind_text(kind), start, end)
}

/// Per-operation state: the open path entries, the byte position, the last
/// mark, the failure policy, and the errors collected so far.
pub struct Context {
    path: Vec<PathEntry>,
    position: usize,
    mark: usize,
    collect: bool,
    errors: Vec<String>,
}

impl Context {
    /// The open path entries, in open order.
    pub closed spec fn path(&self) -> Seq<PathEntry> {
        self.path@
    }

    /// The current byte position.
    pub closed spec fn spec_position(&self) -> nat {
        self.position as nat
    }

    /// The position captured by the last mark.
    pub closed spec fn spec_mark(&self) -> nat {
        self.mark as nat
    }

    /// Whether errors are collected rather than only returned.
    pub closed spec fn collecting(&self) -> bool {
        self.collect
    }

    /// The rendered errors collected so far, oldest first.
    pub closed spec fn spec_errors(&self) -> Seq<String> {
        self.errors@
    }

    /// A fail-fast context: the first error aborts the whole operation.
    pub fn new() -> (r: Context)
        ensures
            r.path() == Seq::<PathEntry>::empty(),
            r.spec_position() == 0,
            r.spec_mark() == 0,
            !r.collecting(),
            r.spec_errors() == Seq::<String>::empty(),
    {
        Context { path: Vec::new(), position: 0, mark: 0, collect: false, errors: Vec::new() }
    }

    /// A collecting context: errors are recorded and the operation goes on
    /// where the driver can resynchronize.
    pub fn new_collecting() -> (r: Context)
        ensures
            r.path() == Seq::<PathEntry>::empty(),
            r.spec_position() == 0,
            r.spec_mark() == 0,
            r.collecting(),
            r.spec_errors() == Seq::<String>::empty(),
    {
        Context { path: Vec::new(), position: 0, mark: 0, collect: true, errors: Vec::new() }
    }

    /// Opens a named-field entry, to be closed by [`Context::leave_named_field`].
    pub fn enter_named_field(&mut self, name: &str)
        ensures
            final(self).path().len() == old(self).path().len() + 1,
            final(self).path().drop_last() == old(self).path(),
            rendered_entry(final(self).path().last()) == "."@ + name@,
            final(self).spec_position() == old(self).spec_position(),
            final(self).spec_mark() == old(self).spec_mark(),
            final(self).collecting() == old(self).collecting(),
            final(self).spec_errors() == old(self).spec_errors(),
    {
        self.path.push(PathEntry::Named(name.to_owned()));
        proof {
            assert(final(self).path().drop_last() =~= old(self).path());
        }
    }

    /// Opens a sequence-index entry, to be closed by
    /// [`Context::leave_sequence_index`].
    pub fn enter_sequence_index(&mut self, index: u64)
        ensures
            final(self).path().len() == old(self).path().len() + 1,
            final(self).path().drop_last() == old(self).path(),
            rendered_entry(final(self).path().last()) == "["@ + dec_digits(index as nat) + "]"@,
            final(self).spec_position() == old(self).spec_position(),
            final(self).spec_mark() == old(self).spec_mark(),
            final(self).collecting() == old(self).collecting(),
            final(self).spec_errors() == old(self).spec_errors(),
    {
        self.path.push(PathEntry::Index(index));
        proof {
            assert(final(self).path().drop_last() =~= old(self).path());
        }
    }

    /// Opens a map-key entry holding the key's rendered form, to be closed
    /// by [`Context::leave_map_key`].
    pub fn enter_map_key(&mut self, key: &str)
        ensures
            final(self).path().len() == old(self).path().len() + 1,
            final(self).path().drop_last() == old(self).path(),
            rendered_entry(final(self).path().last()) == "["@ + key@ + "]"@,
            final(self).spec_position() == old(self).spec_position(),
            final(self).spec_mark() == old(self).spec_mark(),
            final(self).collecting() == old(self).collecting(),
            final(self).spec_errors() == old(self).spec_errors(),
    {
        self.path.push(PathEntry::Key(key.to_owned()));
        proof {
            assert(final(self).path().drop_last() =~= old(self).path());
        }
    }

    /// Closes the innermost entry, which must be open.
    fn pop_entry(&mut self)
        requires
            old(self).path().len() > 0,
        ensures
            final(self).path() == old(self).path().drop_last(),
            final(self).spec_position() == old(self).spec_position(),
            final(self).spec_mark() == old(self).spec_mark(),
            final(self).collecting() == old(self).collecting(),
            final(self).spec_errors() == old(self).spec_errors(),
    {
        let _ = self.path.pop();
        proof {
            assert(final(self).path() =~= old(self).path().drop_last());
        }
    }

    /// Closes the innermost named-field entry.
    pub fn leave_named_field(&mut self)
        requires
            old(self).path().len() > 0,
        ensures
            final(self).path() == old(self).path().drop_last(),
            final(self).spec_position() == old(self).spec_position(),
            final(self).spec_mark() == old(self).spec_mark(),
            final(self).collecting() == old(self).collecting(),
            final(self).spec_errors() == old(self).spec_errors(),
    {
        self.pop_entry();
    }

    /// Closes the innermost sequence-index entry.
    pub fn leave_sequence_index(&mut self)
        requires
            old(self).path().len() > 0,
        ensures
            final(self).path() == old(self).path().drop_last(),
            final(self).spec_position() == old(self).spec_position(),
            final(self).spec_mark() == old(self).spec_mark(),
            final(self).collecting() == old(self).collecting(),
            final(self).spec_errors() == old(self).spec_errors(),
    {
        self.pop_entry();
    }

    /// Closes the innermost map-key entry.
    pub fn leave_map_key(&mut self)
        requires
            old(self).path().len() > 0,
        ensures
            final(self).path() == old(self).path().drop_last(),
            final(self).spec_position() == old(self).spec_position(),
            final(self).spec_mark() == old(self).spec_mark(),
            final(self).collecting() == old(self).collecting(),
            final(self).spec_errors() == old(self).spec_errors(),
    {
        self.pop_entry();
    }

    /// Captures the current byte position as the mark and returns it.
    pub fn mark(&mut self) -> (m: usize)
        ensures
            m == old(self).spec_position(),
            final(self).spec_mark() == old(self).spec_position(),
            final(self).path() == old(self).path(),
            final(self).spec_position() == old(self).spec_position(),
            final(self).collecting() == old(self).collecting(),
            final(self).spec_errors() == old(self).spec_errors(),
    {
        self.mark = self.position;
        self.position
    }

    /// Moves the byte position forward after consuming `n` bytes.
    pub fn advance(&mut self, n: usize)
        requires
            old(self).spec_position() + n <= usize::MAX,
        ensures
            final(self).spec_position() == old(self).spec_position() + n,
            final(self).path() == old(self).path(),
            final(self).spec_mark() == old(self).spec_mark(),
            final(self).collecting() == old(self).collecting(),
            final(self).spec_errors() == old(self).spec_errors(),
    {
        self.position = self.position + n;
    }

    /// The current byte position.
    pub fn position(&self) -> (r: usize)
        ensures
            r == self.spec_position(),
    {
        self.position
    }

    /// Renders the current path: the concatenation of the open entries, in
    /// open order.
    pub fn render_path(&self) -> (r: String)
        ensures
            r@ == rendered_path(self.path()),
    {
        let mut out = String::new();
        let mut i: usize = 0;
        while i < self.path.len()
            invariant
                0 <= i <= self.path@.len(),
                out@ == rendered_path(self.path@.take(i as int)),
            decreases self.path@.len() - i,
        {
            proof {
                assert(self.path@.take(i as int).push(self.path@[i as int]) =~= self.path@.take(
                    i + 1,
                ));
                lemma_rendered_path_push(self.path@.take(i as int), self.path@[i as int]);
            }
            match &self.path[i] {
                PathEntry::Named(n) => {
                    out.append(".");
                    out.append(n.as_str());
                },
                PathEntry::Index(x) => {
                    out.append("[");
                    push_decimal(&mut out, *x);
                    out.append("]");
                },
                PathEntry::Key(k) => {
                    out.append("[");
                    out.append(k.as_str());
                    out.append("]");
                },
            }
            i = i + 1;
        }
        proof {
            assert(self.path@.take(self.path@.len() as int) =~= self.path@);
        }
        out
    }

    /// Produces an error of the given kind, annotated with the current path
    /// and the byte range from `start` to `end`. In collecting mode the
    /// rendered error is also recorded.
    pub fn marked_custom(&mut self, kind: ErrorKind, start: usize, end: usize) -> (e: Error)
        ensures
            e.spec_kind() == kind,
            e.spec_text() == rendered_error(old(self).path(), kind, start as nat, end as nat),
            e.text_owned()@ == e.spec_text(),
            final(self).path() == old(self).path(),
            final(self).spec_position() == old(self).spec_position(),
            final(self).spec_mark() == old(self).spec_mark(),
            final(self).collecting() == old(self).collecting(),
            final(self).spec_errors() == if old(self).collecting() {
                old(self).spec_errors().push(e.text_owned())
            } else {
                old(self).spec_errors()
            },
    {
        let mut text = self.render_path();
        text.append(": ");
        text.append(kind_str(kind));
        text.append(" (at bytes ");
        push_decimal(&mut text, start as u64);
        text.append("-");
        push_decimal(&mut text, end as u64);
        text.append(")");
        if self.collect {
            let copy = text.clone();
            self.errors.push(copy);
        }
        Error::with_text(kind, text)
    }

    /// Produces an error of the given kind with the byte range from the
    /// last mark to the current position.
    pub fn custom(&mut self, kind: ErrorKind) -> (e: Error)
        ensures
            e.spec_kind() == kind,
            e.spec_text() == rendered_error(
                old(self).path(),
                kind,
                old(self).spec_mark(),
                old(self).spec_position(),
            ),
            e.text_owned()@ == e.spec_text(),
            final(self).path() == old(self).path(),
            final(self).spec_position() == old(self).spec_position(),
            final(self).spec_mark() == old(self).spec_mark(),
            final(self).collecting() == old(self).collecting(),
            final(self).spec_errors() == if old(self).collecting() {
                old(self).spec_errors().push(e.text_owned())
            } else {
                old(self).spec_errors()
            },
    {
        let start = self.mark;
        let end = self.position;
        self.marked_custom(kind, start, end)
    }

    /// Produces an error carrying the given message, annotated with the
    /// current path and the byte range from the last mark to the current
    /// position. In collecting mode the rendered error is also recorded.
    pub fn message(&mut self, text: &str) -> (e: Error)
        ensures
            e.spec_kind() == ErrorKind::Malformed,
            e.spec_text() == rendered_message(
                old(self).path(),
                text@,
                old(self).spec_mark(),
                old(self).spec_position(),
            ),
            e.text_owned()@ == e.spec_text(),
            final(self).path() == old(self).path(),
            final(self).spec_position() == old(self).spec_position(),
            final(self).spec_mark() == old(self).spec_mark(),
            final(self).collecting() == old(self).collecting(),
            final(self).spec_errors() == if old(self).collecting() {
                old(self).spec_errors().push(e.text_owned())
            } else {
                old(self).spec_errors()
            },
    {
        let mut rendered = self.render_path();
        rendered.append(": ");
        rendered.append(text);
        rendered.append(" (at bytes ");
        push_decimal(&mut rendered, self.mark as u64);
        rendered.append("-");
        push_decimal(&mut rendered, self.position as u64);
        rendered.append(")");
        if self.collect {
            let copy = rendered.clone();
            self.errors.push(copy);
        }
        Error::with_text(ErrorKind::Malformed, rendered)
    }

    /// The rendered errors collected so far, oldest first.
    pub fn errors(&self) -> (r: &Vec<String>)
        ensures
            r@ == self.spec_errors(),
    {
        &self.errors
    }
}

} // verus!
