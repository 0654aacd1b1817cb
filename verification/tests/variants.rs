//! Round trips for variant shapes: unit-shaped, tuple-shaped and
//! field-named variants, and untagged (packed) payloads, each decoding back
//! to a value equal to the original without any external schema hint.

use musli::en::{SequenceValueEncoder, VariantSequenceEncoder, VariantStructEncoder};
use musli::value::{Number, Value};
use musli::{from_slice, to_vec, value_eq};

fn roundtrip(v: Value) -> Value {
    let bytes = to_vec(&v).expect("encoding must succeed");
    let back = from_slice(&bytes).expect("decoding must succeed");
    assert!(value_eq(&v, &back));
    back
}

fn unit_variant(name: &str) -> Value {
    let enc = VariantStructEncoder::new(Value::String(name.to_string()), 0);
    enc.end()
}

#[test]
fn enum_with_empty_variant() {
    let empty = unit_variant("Empty");
    roundtrip(empty);

    let tuple = unit_variant("Tuple");
    roundtrip(tuple);

    let strukt = unit_variant("Struct");
    roundtrip(strukt);
}

#[test]
fn multiple_named_variants() {
    let mut enc = VariantStructEncoder::new(Value::String("Variant1".to_string()), 1);
    enc.encode_field(
        Value::String("0".to_string()),
        Value::Number(Number::U32(1)),
    );
    let one = roundtrip(enc.end());

    let mut enc = VariantStructEncoder::new(Value::String("Variant2".to_string()), 1);
    enc.encode_field(
        Value::String("0".to_string()),
        Value::Number(Number::U32(2)),
    );
    let two = roundtrip(enc.end());

    assert!(!value_eq(&one, &two));
}

#[test]
fn untagged_variants() {
    let enc = VariantSequenceEncoder::new(Value::String("Empty".to_string()), 0);
    roundtrip(enc.end());

    let mut enc = VariantSequenceEncoder::new(Value::String("Tuple".to_string()), 2);
    enc.encode_next(Value::Number(Number::U32(42)));
    enc.encode_next(Value::Number(Number::U32(84)));
    roundtrip(enc.end());

    let mut enc = VariantSequenceEncoder::new(Value::String("Struct".to_string()), 2);
    enc.encode_next(Value::Number(Number::U32(42)));
    enc.encode_next(Value::Number(Number::U32(84)));
    roundtrip(enc.end());
}

#[test]
fn untagged_single_field_variant() {
    let mut enc = SequenceValueEncoder::new();
    enc.encode_next(Value::String("hello".to_string()));
    roundtrip(enc.end());

    let mut enc = SequenceValueEncoder::new();
    enc.encode_next(Value::Number(Number::U64(42)));
    roundtrip(enc.end());
}
