//! The marker tags of the wire format.
//!
//! Every encoded value begins with one marker byte that selects its decode
//! path: the marker alone determines how many further bytes or elements must
//! be consumed, so no external schema is needed to skip or decode a value.

use vstd::prelude::*;

verus! {

/// The unit value; nothing follows.
pub const TAG_UNIT: u8 = 0;

/// The boolean false; nothing follows.
pub const TAG_FALSE: u8 = 1;

/// The boolean true; nothing follows.
pub const TAG_TRUE: u8 = 2;

/// A character; its scalar value follows as a varint.
pub const TAG_CHAR: u8 = 3;

/// An unsigned 8-bit number; its magnitude follows as a varint.
pub const TAG_U8: u8 = 4;

/// An unsigned 16-bit number; its magnitude follows as a varint.
pub const TAG_U16: u8 = 5;

/// An unsigned 32-bit number; its magnitude follows as a varint.
pub const TAG_U32: u8 = 6;

/// An unsigned 64-bit number; its magnitude follows as a varint.
pub const TAG_U64: u8 = 7;

/// An unsigned 128-bit number; its magnitude follows as a varint.
pub const TAG_U128: u8 = 8;

/// A pointer-sized unsigned number; its magnitude follows as a varint.
pub const TAG_USIZE: u8 = 9;

/// A signed 8-bit number; its zigzag code follows as a varint.
pub const TAG_I8: u8 = 10;

/// A signed 16-bit number; its zigzag code follows as a varint.
pub const TAG_I16: u8 = 11;

/// A signed 32-bit number; its zigzag code follows as a varint.
pub const TAG_I32: u8 = 12;

/// A signed 64-bit number; its zigzag code follows as a varint.
pub const TAG_I64: u8 = 13;

/// A signed 128-bit number; its zigzag code follows as a varint.
pub const TAG_I128: u8 = 14;

/// A pointer-sized signed number; its zigzag code follows as a varint.
pub const TAG_ISIZE: u8 = 15;

/// A byte string; a varint length and that many raw bytes follow.
pub const TAG_BYTES: u8 = 16;

/// Text; a varint length and that many UTF-8 bytes follow.
pub const TAG_STRING: u8 = 17;

/// An absent optional value; nothing follows.
pub const TAG_NONE: u8 = 18;

/// A present optional value; the wrapped value follows.
pub const TAG_SOME: u8 = 19;

/// A sequence; a varint element count and that many values follow.
pub const TAG_SEQUENCE: u8 = 20;

/// A map; a varint pair count and that many key-value pairs follow.
pub const TAG_MAP: u8 = 21;

/// A variant; the tag value and then the payload value follow.
pub const TAG_VARIANT: u8 = 22;

} // verus!
