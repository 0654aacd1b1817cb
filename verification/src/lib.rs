//! A structured serialization core: a self-describing binary wire format, a
//! schemaless in-memory value tree, a context that tracks the logical path of
//! an encode or decode operation for error reporting, and pluggable scratch
//! allocators.
//!
//! Every value on the wire starts with a one-byte marker that selects the
//! decode path; integers use a zigzag transform plus continuation-bit
//! variable-length encoding; strings, byte strings, sequences and maps are
//! length-prefixed. The [`value::Value`] tree is the canonical in-memory form:
//! encoding a tree and decoding the bytes yields a structurally equal tree,
//! which is proved in [`encoding`].
//!
//! The protocol is a capability contract rather than a component: primitive
//! scalar operations plus composite builder state machines (begin, add one
//! element at a time, end), followed both by the wire format in [`encoding`]
//! and by the value-tree builders in [`en`]. Builders enforce single-writer
//! discipline by ownership, and a protocol-usage violation — a builder
//! driven out of order — is ruled out statically by the builders'
//! preconditions rather than surfacing as a recoverable error at run time.

pub mod allocator;
pub mod buf;
pub mod context;
pub mod en;
pub mod encoding;
pub mod error;
pub mod slice_parser;
pub mod tag;
pub mod text;
pub mod trace;
pub mod value;
pub mod visit;
pub mod varint;

pub use allocator::{collect_string, Fixed, FixedBuf, System, SystemBuf};
pub use buf::{Buf, BufString};
pub use context::Context;
pub use en::{
    MapValueEncoder, PairValueEncoder, SequenceValueEncoder, SomeValueWriter, ValueEncoder,
    VariantSequenceEncoder, VariantStructEncoder, VariantValueEncoder,
};
pub use encoding::{decode_value, encode, encode_value, from_slice, to_fixed_bytes, to_vec, Encoding};
pub use error::{Error, ErrorKind};
pub use slice_parser::SliceParser;
pub use value::{value_eq, variant_bytes, Number, Value};
pub use visit::{BytesVisit, TextVisit};
pub use varint::{decode_varint, encode_varint, lemma_signed_roundtrip};
