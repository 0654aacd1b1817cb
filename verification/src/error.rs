//! The library's error type: a kind, and a rendered message that carries the
//! logical path and byte range when the error was raised through a
//! [`crate::context::Context`].

use vstd::prelude::*;

verus! {

/// What went wrong.
///
/// Data errors (`Underflow`, `UnknownMarker`, `InvalidNumeric`,
/// `InvalidUtf8`) are recoverable per context policy; `AllocationFailed` and
/// `CapacityExceeded` signal resource exhaustion and never a crash.
#[derive(Clone, Copy, PartialEq, Eq, Structural, Debug)]
pub enum ErrorKind {
    Underflow,
    UnknownMarker,
    InvalidNumeric,
    InvalidUtf8,
    ExpectedString,
    ExpectedMap,
    Malformed,
    AllocationFailed,
    CapacityExceeded,
}

/// The text of an error kind.
pub open spec fn kind_text(kind: ErrorKind) -> Seq<char> {
    match kind {
        ErrorKind::Underflow => "Buffer underflow"@,
        ErrorKind::UnknownMarker => "Unknown marker"@,
        ErrorKind::InvalidNumeric => "Invalid numeric"@,
        ErrorKind::InvalidUtf8 => "Invalid UTF-8"@,
        ErrorKind::ExpectedString => "Expected string"@,
        ErrorKind::ExpectedMap => "Expected map"@,
        ErrorKind::Malformed => "Invalid encoding"@,
        ErrorKind::AllocationFailed => "Failed to allocate"@,
        ErrorKind::CapacityExceeded => "Buffer capacity exceeded"@,
    }
}

/// Renders an error kind as text.
pub fn kind_str(kind: ErrorKind) -> (r: &'static str)
    ensures
        r@ == kind_text(kind),
{
    match kind {
        ErrorKind::Underflow => "Buffer underflow",
        ErrorKind::UnknownMarker => "Unknown marker",
        ErrorKind::InvalidNumeric => "Invalid numeric",
        ErrorKind::InvalidUtf8 => "Invalid UTF-8",
        ErrorKind::ExpectedString => "Expected string",
        ErrorKind::ExpectedMap => "Expected map",
        ErrorKind::Malformed => "Invalid encoding",
        ErrorKind::AllocationFailed => "Failed to allocate",
        ErrorKind::CapacityExceeded => "Buffer capacity exceeded",
    }
}

/// An error, carrying its kind and a rendered, human-readable message.
#[derive(Debug)]
pub struct Error {
    kind: ErrorKind,
    text: String,
}

impl Error {
    /// An error of the given kind, rendered without path or byte range.
    pub fn new(kind: ErrorKind) -> (r: Error)
        ensures
            r.spec_kind() == kind,
            r.spec_text() == kind_text(kind),
    {
        let mut text = String::new();
        text.append(kind_str(kind));
        Error { kind, text }
    }

    /// An error of the given kind with an already rendered message.
    pub fn with_text(kind: ErrorKind, text: String) -> (r: Error)
        ensures
            r.spec_kind() == kind,
            r.text_owned() == text,
            r.spec_text() == text@,
    {
        Error { kind, text }
    }

    /// The kind of this error.
    pub fn kind(&self) -> (r: ErrorKind)
        ensures
            r == self.spec_kind(),
    {
        self.kind
    }

    /// The rendered message of this error.
    pub fn text(&self) -> (r: &String)
        ensures
            r == self.text_owned(),
    {
        &self.text
    }

    /// The kind, in specifications.
    pub closed spec fn spec_kind(&self) -> ErrorKind {
        self.kind
    }

    /// The rendered message, in specifications.
    pub closed spec fn spec_text(&self) -> Seq<char> {
        self.text@
    }

    /// The rendered message as the held string value, in specifications.
    pub closed spec fn text_owned(&self) -> String {
        self.text
    }
}

/// The held string value renders as the error's message: what a collecting
/// context records is exactly the returned error's text.
pub proof fn lemma_error_text(e: &Error)
    ensures
        e.text_owned()@ == e.spec_text(),
{
}

} // verus!
