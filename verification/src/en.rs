//! Building value trees through the protocol's composite builders.
//!
//! Each builder follows the protocol's state machine: begin (optionally with
//! a size hint), add one element, field or entry at a time, then `end`,
//! which consumes the builder and yields the finished [`Value`]. A builder
//! that never reaches `end` produces no observable value.

use vstd::prelude::*;

use crate::value::{vview, vview_list, vview_pairs, Number, Value, ValueView};

verus! {

/// Encoder for a single value: each primitive call fills the one output
/// slot it owns.
pub struct ValueEncoder {
    out: Option<Value>,
}

impl ValueEncoder {
    /// The output slot.
    pub closed spec fn slot(&self) -> Option<Value> {
        self.out
    }

    /// A fresh encoder scoped to exactly one value.
    pub fn new() -> (r: ValueEncoder)
        ensures
            r.slot() is None,
    {
        ValueEncoder { out: None }
    }

    /// Writes a finished value into the slot.
    pub fn write(&mut self, value: Value)
        ensures
            final(self).slot() == Some(value),
    {
        self.out = Some(value);
    }

    /// Encodes the unit value: the slot is left untouched, and an untouched
    /// slot finishes as unit.
    pub fn encode_unit(&mut self)
        ensures
            final(self).slot() == old(self).slot(),
    {
    }

    /// Encodes a boolean.
    pub fn encode_bool(&mut self, b: bool)
        ensures
            final(self).slot() == Some(Value::Bool(b)),
    {
        self.out = Some(Value::Bool(b));
    }

    /// Encodes a character.
    pub fn encode_char(&mut self, c: char)
        ensures
            final(self).slot() == Some(Value::Char(c)),
    {
        self.out = Some(Value::Char(c));
    }

    /// Encodes a number.
    pub fn encode_number(&mut self, n: Number)
        ensures
            final(self).slot() == Some(Value::Number(n)),
    {
        self.out = Some(Value::Number(n));
    }

    /// Encodes an unsigned 8-bit number.
    pub fn encode_u8(&mut self, n: u8)
        ensures
            final(self).slot() == Some(Value::Number(Number::U8(n))),
    {
        self.out = Some(Value::Number(Number::U8(n)));
    }

    /// Encodes an unsigned 16-bit number.
    pub fn encode_u16(&mut self, n: u16)
        ensures
            final(self).slot() == Some(Value::Number(Number::U16(n))),
    {
        self.out = Some(Value::Number(Number::U16(n)));
    }

    /// Encodes an unsigned 32-bit number.
    pub fn encode_u32(&mut self, n: u32)
        ensures
            final(self).slot() == Some(Value::Number(Number::U32(n))),
    {
        self.out = Some(Value::Number(Number::U32(n)));
    }

    /// Encodes an unsigned 64-bit number.
    pub fn encode_u64(&mut self, n: u64)
        ensures
            final(self).slot() == Some(Value::Number(Number::U64(n))),
    {
        self.out = Some(Value::Number(Number::U64(n)));
    }

    /// Encodes an unsigned 128-bit number.
    pub fn encode_u128(&mut self, n: u128)
        ensures
            final(self).slot() == Some(Value::Number(Number::U128(n))),
    {
        self.out = Some(Value::Number(Number::U128(n)));
    }

    /// Encodes a pointer-sized unsigned number.
    pub fn encode_usize(&mut self, n: usize)
        ensures
            final(self).slot() == Some(Value::Number(Number::Usize(n))),
    {
        self.out = Some(Value::Number(Number::Usize(n)));
    }

    /// Encodes a signed 8-bit number.
    pub fn encode_i8(&mut self, n: i8)
        ensures
            final(self).slot() == Some(Value::Number(Number::I8(n))),
    {
        self.out = Some(Value::Number(Number::I8(n)));
    }

    /// Encodes a signed 16-bit number.
    pub fn encode_i16(&mut self, n: i16)
        ensures
            final(self).slot() == Some(Value::Number(Number::I16(n))),
    {
        self.out = Some(Value::Number(Number::I16(n)));
    }

    /// Encodes a signed 32-bit number.
    pub fn encode_i32(&mut self, n: i32)
        ensures
            final(self).slot() == Some(Value::Number(Number::I32(n))),
    {
        self.out = Some(Value::Number(Number::I32(n)));
    }

    /// Encodes a signed 64-bit number.
    pub fn encode_i64(&mut self, n: i64)
        ensures
            final(self).slot() == Some(Value::Number(Number::I64(n))),
    {
        self.out = Some(Value::Number(Number::I64(n)));
    }

    /// Encodes a signed 128-bit number.
    pub fn encode_i128(&mut self, n: i128)
        ensures
            final(self).slot() == Some(Value::Number(Number::I128(n))),
    {
        self.out = Some(Value::Number(Number::I128(n)));
    }

    /// Encodes a pointer-sized signed number.
    pub fn encode_isize(&mut self, n: isize)
        ensures
            final(self).slot() == Some(Value::Number(Number::Isize(n))),
    {
        self.out = Some(Value::Number(Number::Isize(n)));
    }

    /// Encodes an owned byte string.
    pub fn encode_bytes(&mut self, bytes: &[u8])
        ensures
            final(self).slot() matches Some(v) && v@ == ValueView::Bytes(bytes@),
    {
        let mut owned: Vec<u8> = Vec::new();
        owned.extend_from_slice(bytes);
        proof {
            assert(owned@ =~= bytes@);
        }
        self.out = Some(Value::Bytes(owned));
    }

    /// Encodes one byte string gathered from several segments, in order.
    pub fn encode_bytes_vectored(&mut self, vectors: &Vec<Vec<u8>>)
        ensures
            final(self).slot() matches Some(v) && v@ == ValueView::Bytes(
                concat_segments(vectors@),
            ),
    {
        let mut gathered: Vec<u8> = Vec::new();
        let mut i: usize = 0;
        while i < vectors.len()
            invariant
                0 <= i <= vectors@.len(),
                gathered@ == concat_segments(vectors@.take(i as int)),
            decreases vectors@.len() - i,
        {
            proof {
                assert(vectors@.take(i as int).push(vectors@[i as int]) =~= vectors@.take(
                    i + 1,
                ));
                lemma_concat_segments_push(vectors@.take(i as int), vectors@[i as int]);
            }
            gathered.extend_from_slice(vectors[i].as_slice());
            i = i + 1;
        }
        proof {
            assert(vectors@.take(vectors@.len() as int) =~= vectors@);
        }
        self.out = Some(Value::Bytes(gathered));
    }

    /// Encodes a unit-shaped variant: the tag with a unit payload.
    pub fn encode_unit_variant(&mut self, tag: Value)
        ensures
            final(self).slot() matches Some(v) && v@ == ValueView::Variant(
                Box::new((tag@, ValueView::Unit)),
            ),
    {
        proof {
            assert(vview(Value::Unit) == ValueView::Unit);
        }
        self.out = Some(Value::Variant(Box::new((tag, Value::Unit))));
    }

    /// Encodes owned text.
    pub fn encode_string(&mut self, text: &str)
        ensures
            final(self).slot() matches Some(v) && v@ == ValueView::String(text@),
    {
        self.out = Some(Value::String(text.to_owned()));
    }

    /// Encodes an absent optional value.
    pub fn encode_none(&mut self)
        ensures
            final(self).slot() matches Some(v) && v@ == ValueView::Option(Option::None),
    {
        self.out = Some(Value::Option(Option::None));
    }

    /// Encodes a present optional value wrapping the given finished value.
    pub fn encode_some(&mut self, inner: Value)
        ensures
            final(self).slot() matches Some(v) && v@ == ValueView::Option(
                Option::Some(Box::new(inner@)),
            ),
    {
        self.out = Some(Value::Option(Option::Some(Box::new(inner))));
    }

    /// Consumes the encoder: the written value, or unit when no primitive
    /// ever wrote the slot.
    pub fn finish(self) -> (r: Value)
        ensures
            self.slot() matches Some(v) ==> r == v,
            self.slot() is None ==> r == Value::Unit,
    {
        match self.out {
            Some(v) => v,
            None => Value::Unit,
        }
    }
}

/// Sink that wraps whatever value is written to it inside a present
/// optional value.
pub struct SomeValueWriter {
    out: Option<Value>,
}

impl SomeValueWriter {
    /// The output slot.
    pub closed spec fn slot(&self) -> Option<Value> {
        self.out
    }

    /// A fresh wrapping sink.
    pub fn new() -> (r: SomeValueWriter)
        ensures
            r.slot() is None,
    {
        SomeValueWriter { out: None }
    }

    /// Writes a finished value, boxed inside an option-present value.
    pub fn write(&mut self, value: Value)
        ensures
            final(self).slot() matches Some(v) && v@ == ValueView::Option(
                Option::Some(Box::new(value@)),
            ),
    {
        self.out = Some(Value::Option(Option::Some(Box::new(value))));
    }

    /// Consumes the sink and yields the wrapped value.
    pub fn finish(self) -> (r: Value)
        requires
            self.slot() is Some,
        ensures
            r == self.slot()->0,
    {
        match self.out {
            Some(v) => v,
            None => Value::Unit,
        }
    }
}

/// Builder for a sequence, also used for packs and tuples.
pub struct SequenceValueEncoder {
    values: Vec<Value>,
}

impl SequenceValueEncoder {
    /// The elements added so far.
    pub closed spec fn items(&self) -> Seq<Value> {
        self.values@
    }

    /// A fresh, empty sequence builder.
    pub fn new() -> (r: SequenceValueEncoder)
        ensures
            r.items() == Seq::<Value>::empty(),
    {
        SequenceValueEncoder { values: Vec::new() }
    }

    /// Adds the next element.
    pub fn encode_next(&mut self, value: Value)
        ensures
            final(self).items() == old(self).items().push(value),
    {
        self.values.push(value);
    }

    /// Consumes the builder and yields the finished sequence.
    pub fn end(self) -> (r: Value)
        ensures
            r@ == ValueView::Sequence(vview_list(self.items())),
    {
        Value::Sequence(self.values)
    }
}

/// Builder for a map, also used for structs with named fields.
pub struct MapValueEncoder {
    values: Vec<(Value, Value)>,
}

impl MapValueEncoder {
    /// The entries added so far, in encounter order.
    pub closed spec fn items(&self) -> Seq<(Value, Value)> {
        self.values@
    }

    /// A fresh, empty map builder.
    pub fn new() -> (r: MapValueEncoder)
        ensures
            r.items() == Seq::<(Value, Value)>::empty(),
    {
        MapValueEncoder { values: Vec::new() }
    }

    /// Starts the next entry by adding its key, with a unit placeholder for
    /// the value.
    pub fn encode_map_entry_key(&mut self, key: Value)
        ensures
            final(self).items() == old(self).items().push((key, Value::Unit)),
    {
        self.values.push((key, Value::Unit));
    }

    /// Completes the entry started last by filling in its value.
    pub fn encode_map_entry_value(&mut self, value: Value)
        requires
            old(self).items().len() > 0,
        ensures
            final(self).items() == old(self).items().update(
                old(self).items().len() - 1,
                (old(self).items().last().0, value),
            ),
    {
        let entry = match self.values.pop() {
            Some(p) => p,
            None => (Value::Unit, Value::Unit),
        };
        self.values.push((entry.0, value));
        proof {
            assert(final(self).items() =~= old(self).items().update(
                old(self).items().len() - 1,
                (old(self).items().last().0, value),
            ));
        }
    }

    /// Consumes the builder and yields the finished map.
    pub fn end(self) -> (r: Value)
        ensures
            r@ == ValueView::Mapping(vview_pairs(self.items())),
    {
        Value::Mapping(self.values)
    }
}

/// Builder for one key-value pair, also used for one named field.
pub struct PairValueEncoder {
    key: Value,
    value: Value,
}

impl PairValueEncoder {
    /// The key written so far; unit until written.
    pub closed spec fn spec_key(&self) -> Value {
        self.key
    }

    /// The value written so far; unit until written.
    pub closed spec fn spec_value(&self) -> Value {
        self.value
    }

    /// A fresh pair builder with unit placeholders.
    pub fn new() -> (r: PairValueEncoder)
        ensures
            r.spec_key() == Value::Unit,
            r.spec_value() == Value::Unit,
    {
        PairValueEncoder { key: Value::Unit, value: Value::Unit }
    }

    /// Writes the entry's key.
    pub fn encode_map_key(&mut self, key: Value)
        ensures
            final(self).spec_key() == key,
            final(self).spec_value() == old(self).spec_value(),
    {
        self.key = key;
    }

    /// Writes the entry's value.
    pub fn encode_map_value(&mut self, value: Value)
        ensures
            final(self).spec_key() == old(self).spec_key(),
            final(self).spec_value() == value,
    {
        self.value = value;
    }

    /// Writes the field's name; fields are name-keyed entries.
    pub fn encode_field_name(&mut self, name: Value)
        ensures
            final(self).spec_key() == name,
            final(self).spec_value() == old(self).spec_value(),
    {
        self.key = name;
    }

    /// Writes the field's value.
    pub fn encode_field_value(&mut self, value: Value)
        ensures
            final(self).spec_key() == old(self).spec_key(),
            final(self).spec_value() == value,
    {
        self.value = value;
    }

    /// Consumes the builder, appending the finished pair to the map under
    /// construction.
    pub fn end(self, out: &mut MapValueEncoder)
        ensures
            final(out).items() == old(out).items().push((self.spec_key(), self.spec_value())),
    {
        out.values.push((self.key, self.value));
    }
}

/// Builder for a variant: a tag value paired with a payload value.
pub struct VariantValueEncoder {
    tag: Value,
    value: Value,
}

impl VariantValueEncoder {
    /// The tag written so far; unit until written.
    pub closed spec fn spec_tag(&self) -> Value {
        self.tag
    }

    /// The payload written so far; unit until written.
    pub closed spec fn spec_value(&self) -> Value {
        self.value
    }

    /// A fresh variant builder with unit placeholders.
    pub fn new() -> (r: VariantValueEncoder)
        ensures
            r.spec_tag() == Value::Unit,
            r.spec_value() == Value::Unit,
    {
        VariantValueEncoder { tag: Value::Unit, value: Value::Unit }
    }

    /// Writes the variant's tag.
    pub fn encode_tag(&mut self, tag: Value)
        ensures
            final(self).spec_tag() == tag,
            final(self).spec_value() == old(self).spec_value(),
    {
        self.tag = tag;
    }

    /// Writes the variant's payload.
    pub fn encode_value(&mut self, value: Value)
        ensures
            final(self).spec_tag() == old(self).spec_tag(),
            final(self).spec_value() == value,
    {
        self.value = value;
    }

    /// Consumes the builder and yields the finished variant.
    pub fn end(self) -> (r: Value)
        ensures
            r@ == ValueView::Variant(Box::new((vview(self.spec_tag()), vview(self.spec_value())))),
    {
        Value::Variant(Box::new((self.tag, self.value)))
    }
}

/// Builder for a tuple-shaped variant: a tag and positional fields.
pub struct VariantSequenceEncoder {
    variant: Value,
    values: Vec<Value>,
}

impl VariantSequenceEncoder {
    /// The variant's tag.
    pub closed spec fn spec_tag(&self) -> Value {
        self.variant
    }

    /// The positional fields added so far.
    pub closed spec fn items(&self) -> Seq<Value> {
        self.values@
    }

    /// A fresh builder for the given tag; the hint pre-sizes the field
    /// storage.
    pub fn new(variant: Value, hint: usize) -> (r: VariantSequenceEncoder)
        ensures
            r.spec_tag() == variant,
            r.items() == Seq::<Value>::empty(),
    {
        VariantSequenceEncoder { variant, values: Vec::with_capacity(hint) }
    }

    /// Adds the next positional field.
    pub fn encode_next(&mut self, value: Value)
        ensures
            final(self).spec_tag() == old(self).spec_tag(),
            final(self).items() == old(self).items().push(value),
    {
        self.values.push(value);
    }

    /// Consumes the builder and yields the finished variant, its payload a
    /// sequence of the fields.
    pub fn end(self) -> (r: Value)
        ensures
            r@ == ValueView::Variant(
                Box::new(
                    (vview(self.spec_tag()), ValueView::Sequence(vview_list(self.items()))),
                ),
            ),
    {
        proof {
            assert(vview(Value::Sequence(self.values)) == ValueView::Sequence(
                vview_list(self.values@),
            ));
        }
        Value::Variant(Box::new((self.variant, Value::Sequence(self.values))))
    }
}

/// Builder for a field-named variant: a tag and named fields.
pub struct VariantStructEncoder {
    variant: Value,
    fields: Vec<(Value, Value)>,
}

impl VariantStructEncoder {
    /// The variant's tag.
    pub closed spec fn spec_tag(&self) -> Value {
        self.variant
    }

    /// The named fields added so far.
    pub closed spec fn items(&self) -> Seq<(Value, Value)> {
        self.fields@
    }

    /// A fresh builder for the given tag; the hint pre-sizes the field
    /// storage.
    pub fn new(variant: Value, hint: usize) -> (r: VariantStructEncoder)
        ensures
            r.spec_tag() == variant,
            r.items() == Seq::<(Value, Value)>::empty(),
    {
        VariantStructEncoder { variant, fields: Vec::with_capacity(hint) }
    }

    /// Adds the next named field.
    pub fn encode_field(&mut self, name: Value, value: Value)
        ensures
            final(self).spec_tag() == old(self).spec_tag(),
            final(self).items() == old(self).items().push((name, value)),
    {
        self.fields.push((name, value));
    }

    /// Consumes the builder and yields the finished variant, its payload a
    /// map of the fields.
    pub fn end(self) -> (r: Value)
        ensures
            r@ == ValueView::Variant(
                Box::new(
                    (vview(self.spec_tag()), ValueView::Mapping(vview_pairs(self.items()))),
                ),
            ),
    {
        proof {
            assert(vview(Value::Mapping(self.fields)) == ValueView::Mapping(
                vview_pairs(self.fields@),
            ));
        }
        Value::Variant(Box::new((self.variant, Value::Mapping(self.fields))))
    }
}


/// The concatenation of a list of byte segments, in order.
pub open spec fn concat_segments(segments: Seq<Vec<u8>>) -> Seq<u8>
    decreases segments,
{
    if segments.len() == 0 {
        Seq::empty()
    } else {
        concat_segments(segments.drop_last()) + segments[segments.len() - 1]@
    }
}

/// Appending one segment appends its bytes to the concatenation.
pub proof fn lemma_concat_segments_push(segments: Seq<Vec<u8>>, seg: Vec<u8>)
    ensures
        concat_segments(segments.push(seg)) == concat_segments(segments) + seg@,
{
    assert(segments.push(seg).drop_last() =~= segments);
}

} // verus!
