//! A record holding an empty sequence survives a round trip unchanged.

use musli::en::{MapValueEncoder, PairValueEncoder, SequenceValueEncoder};
use musli::value::Value;
use musli::{from_slice, to_vec, value_eq};

#[test]
fn sequence_compat() {
    let empty = SequenceValueEncoder::new().end();

    let mut record = MapValueEncoder::new();
    let mut field = PairValueEncoder::new();
    field.encode_field_name(Value::String("empty_sequence".to_string()));
    field.encode_field_value(empty);
    field.end(&mut record);
    let value = record.end();

    let bytes = to_vec(&value).expect("encoding must succeed");
    let back = from_slice(&bytes).expect("decoding must succeed");
    assert!(value_eq(&value, &back));
}
