//! A collecting-mode decode of a string-to-string map into a record that
//! expects numeric values reports the failure with its full path and byte
//! range instead of panicking; fail-fast mode returns the same error as the
//! sole error.

use musli::context::Context;
use musli::en::{MapValueEncoder, PairValueEncoder};
use musli::to_vec;
use musli::trace::{decode_map_header, decode_string_traced, decode_u32_traced, skip_value};
use musli::value::Value;

fn encoded_from() -> Vec<u8> {
    let mut inner = MapValueEncoder::new();
    let mut entry = PairValueEncoder::new();
    entry.encode_map_key(Value::String("Hello".to_string()));
    entry.encode_map_value(Value::String("World".to_string()));
    entry.end(&mut inner);

    let mut outer = MapValueEncoder::new();
    let mut field = PairValueEncoder::new();
    field.encode_field_name(Value::String("values".to_string()));
    field.encode_field_value(inner.end());
    field.end(&mut outer);

    to_vec(&outer.end()).expect("encoding must succeed")
}

/// Decodes a record of the shape `{ values: map<string, u32> }`, collecting
/// entry-level failures and resynchronizing past them.
fn decode_collection(bytes: &[u8], cx: &mut Context) -> bool {
    let mut failed = false;
    let fields = decode_map_header(bytes, cx).expect("record header");
    assert_eq!(fields, 1);
    let field_name = decode_string_traced(bytes, cx).expect("field name");
    assert_eq!(field_name, "values");
    cx.enter_named_field(&field_name);
    let entries = decode_map_header(bytes, cx).expect("map header");
    let mut remaining = entries;
    while remaining > 0 {
        let key = decode_string_traced(bytes, cx).expect("entry key");
        cx.enter_map_key(&key);
        if decode_u32_traced(bytes, cx).is_err() {
            failed = true;
            skip_value(bytes, cx).expect("resynchronize past the entry value");
        }
        cx.leave_map_key();
        remaining -= 1;
    }
    cx.leave_named_field();
    failed
}

#[test]
fn trace_collection() {
    let bytes = encoded_from();

    let mut cx = Context::new_collecting();
    if decode_collection(&bytes, &mut cx) {
        let errors = cx.errors();
        assert_eq!(errors.len(), 1);
        assert_eq!(
            errors[0].as_str(),
            ".values[Hello]: Invalid numeric (at bytes 19-20)"
        );

        let mut fast = Context::new();
        let header = decode_map_header(&bytes, &mut fast).expect("record header");
        assert_eq!(header, 1);
        let field_name = decode_string_traced(&bytes, &mut fast).expect("field name");
        fast.enter_named_field(&field_name);
        let entries = decode_map_header(&bytes, &mut fast).expect("map header");
        assert_eq!(entries, 1);
        let key = decode_string_traced(&bytes, &mut fast).expect("entry key");
        fast.enter_map_key(&key);
        let error = decode_u32_traced(&bytes, &mut fast)
            .expect_err("a string value must not decode as a number");
        assert_eq!(
            error.text().as_str(),
            ".values[Hello]: Invalid numeric (at bytes 19-20)"
        );
        assert!(fast.errors().is_empty());
        return;
    }

    panic!("Expected decoding to error");
}
