//! Round trips through the wire format for trees of every shape the value
//! grammar offers, preserving map entry order, plus the exact wire image of
//! a nested string map.

use musli::en::{MapValueEncoder, PairValueEncoder, SequenceValueEncoder};
use musli::value::{Number, Value};
use musli::{from_slice, to_vec, value_eq};

fn roundtrip(v: Value) -> Value {
    let bytes = to_vec(&v).expect("encoding must succeed");
    let back = from_slice(&bytes).expect("decoding must succeed");
    assert!(value_eq(&v, &back));
    back
}

#[test]
fn scalar_roundtrips() {
    roundtrip(Value::Unit);
    roundtrip(Value::Bool(true));
    roundtrip(Value::Bool(false));
    roundtrip(Value::Char('a'));
    roundtrip(Value::Char('\u{10348}'));
    roundtrip(Value::Number(Number::U8(255)));
    roundtrip(Value::Number(Number::U16(65535)));
    roundtrip(Value::Number(Number::U32(4_000_000_000)));
    roundtrip(Value::Number(Number::U64(u64::MAX)));
    roundtrip(Value::Number(Number::U128(u128::MAX)));
    roundtrip(Value::Number(Number::Usize(usize::MAX)));
    roundtrip(Value::Number(Number::I8(-128)));
    roundtrip(Value::Number(Number::I16(-32768)));
    roundtrip(Value::Number(Number::I32(i32::MIN)));
    roundtrip(Value::Number(Number::I64(i64::MIN)));
    roundtrip(Value::Number(Number::I64(i64::MAX)));
    roundtrip(Value::Number(Number::I128(i128::MIN)));
    roundtrip(Value::Number(Number::I128(i128::MAX)));
    roundtrip(Value::Number(Number::Isize(isize::MIN)));
}

#[test]
fn compound_roundtrips() {
    roundtrip(Value::Bytes(vec![0, 1, 2, 254, 255]));
    roundtrip(Value::Bytes(Vec::new()));
    roundtrip(Value::String(String::new()));
    roundtrip(Value::String("grüße, 世界".to_string()));
    roundtrip(Value::Option(None));
    roundtrip(Value::Option(Some(Box::new(Value::Number(Number::U32(7))))));

    let mut seq = SequenceValueEncoder::new();
    seq.encode_next(Value::Bool(true));
    seq.encode_next(Value::String("x".to_string()));
    seq.encode_next(Value::Option(None));
    roundtrip(seq.end());
}

#[test]
fn map_order_is_preserved() {
    let mut map = MapValueEncoder::new();
    let mut first = PairValueEncoder::new();
    first.encode_map_key(Value::String("zeta".to_string()));
    first.encode_map_value(Value::Number(Number::U32(1)));
    first.end(&mut map);
    let mut second = PairValueEncoder::new();
    second.encode_map_key(Value::String("alpha".to_string()));
    second.encode_map_value(Value::Number(Number::U32(2)));
    second.end(&mut map);
    let value = map.end();

    let back = roundtrip(value);
    match back {
        Value::Mapping(entries) => {
            assert_eq!(entries.len(), 2);
            assert_eq!(entries[0].0, Value::String("zeta".to_string()));
            assert_eq!(entries[1].0, Value::String("alpha".to_string()));
        }
        other => panic!("expected a map, got {other:?}"),
    }
}

#[test]
fn duplicate_keys_are_kept() {
    let mut map = MapValueEncoder::new();
    map.encode_map_entry_key(Value::String("k".to_string()));
    map.encode_map_entry_value(Value::Number(Number::U32(1)));
    map.encode_map_entry_key(Value::String("k".to_string()));
    map.encode_map_entry_value(Value::Number(Number::U32(2)));
    let back = roundtrip(map.end());
    match back {
        Value::Mapping(entries) => assert_eq!(entries.len(), 2),
        other => panic!("expected a map, got {other:?}"),
    }
}

#[test]
fn nested_string_map_wire_image() {
    let mut inner = MapValueEncoder::new();
    let mut entry = PairValueEncoder::new();
    entry.encode_map_key(Value::String("Hello".to_string()));
    entry.encode_map_value(Value::String("World".to_string()));
    entry.end(&mut inner);

    let mut outer = MapValueEncoder::new();
    let mut field = PairValueEncoder::new();
    field.encode_field_name(Value::String("values".to_string()));
    field.encode_field_value(inner.end());
    field.end(&mut outer);

    let bytes = to_vec(&outer.end()).expect("encoding must succeed");
    let expected: Vec<u8> = vec![
        21, 1, // map, one pair
        17, 6, b'v', b'a', b'l', b'u', b'e', b's', // the field name
        21, 1, // the nested map, one pair
        17, 5, b'H', b'e', b'l', b'l', b'o', // the key
        17, 5, b'W', b'o', b'r', b'l', b'd', // the value
    ];
    assert_eq!(bytes, expected);
}

#[test]
fn deep_nesting_roundtrip() {
    let mut leaf = SequenceValueEncoder::new();
    leaf.encode_next(Value::Number(Number::I64(-42)));
    leaf.encode_next(Value::Char('\u{7FF}'));
    let mut mid = SequenceValueEncoder::new();
    mid.encode_next(leaf.end());
    mid.encode_next(Value::Bytes(vec![9; 200]));
    let wrapped = Value::Option(Some(Box::new(mid.end())));
    roundtrip(wrapped);
}
