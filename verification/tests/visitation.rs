//! The ownership channels for decoded unsized data, the slice reader, and
//! the single-value encoder slots.

use musli::context::Context;
use musli::en::{SomeValueWriter, ValueEncoder};
use musli::encoding::{decode_bytes_visit, decode_string_visit, Encoding};
use musli::slice_parser::SliceParser;
use musli::value::{Number, Value};
use musli::visit::{BytesVisit, TextVisit};
use musli::{from_slice, to_vec, value_eq};

#[test]
fn borrowed_bytes_channel() {
    let bytes = to_vec(&Value::Bytes(vec![10, 20, 30])).expect("encoding must succeed");
    let (visit, end) = decode_bytes_visit(&bytes, 0).expect("a byte string decodes");
    assert_eq!(end, bytes.len());
    match visit {
        BytesVisit::Borrowed(slice) => assert_eq!(slice, &[10, 20, 30]),
        other => panic!("a slice source offers the borrowed channel, got {other:?}"),
    }

    let wrong = to_vec(&Value::Bool(true)).expect("encoding must succeed");
    assert!(decode_bytes_visit(&wrong, 0).is_none());
}

#[test]
fn borrowed_text_channel() {
    let bytes = to_vec(&Value::String("héllo".to_string())).expect("encoding must succeed");
    let (visit, end) = decode_string_visit(&bytes, 0).expect("text decodes");
    assert_eq!(end, bytes.len());
    match visit {
        TextVisit::Borrowed(text) => assert_eq!(text, "héllo"),
        other => panic!("a slice source offers the borrowed channel, got {other:?}"),
    }
    // Malformed UTF-8 under a string marker is rejected.
    assert!(decode_string_visit(&[17, 2, 0xC3, 0x28], 0).is_none());
}

#[test]
fn transient_references_copy_out() {
    let scratch = vec![1u8, 2, 3];
    let visit: BytesVisit<'_, '_> = BytesVisit::Reference(&scratch);
    assert_eq!(visit.into_owned(), vec![1, 2, 3]);

    let text: TextVisit<'_, '_> = TextVisit::Reference("copy me");
    assert_eq!(text.into_owned(), "copy me");
}

#[test]
fn encoding_entry_points() {
    let config = Encoding::new();
    let value = Value::Number(Number::I64(-77));
    let bytes = config.to_vec(&value).expect("encoding must succeed");
    let mut appended = vec![0xAAu8];
    config.encode(&mut appended, &value).expect("encoding must succeed");
    assert_eq!(&appended[1..], &bytes[..]);
    let back = config.from_slice(&bytes).expect("decoding must succeed");
    assert!(value_eq(&value, &back));
}

#[test]
fn slice_parser_reads_and_underflows() {
    let data = [5u8, 6, 7, 8];
    let mut cx = Context::new();
    let mut parser = SliceParser::new(&data);
    assert_eq!(parser.peek_byte(), Some(5));
    assert_eq!(parser.read_byte(&mut cx).expect("one byte"), 5);
    let chunk = parser.read(&mut cx, 2).expect("two bytes");
    assert_eq!(chunk, vec![6, 7]);
    assert_eq!(parser.pos(), 3);
    assert_eq!(cx.position(), 3);
    parser.skip(&mut cx, 2).expect_err("only one byte remains");
    parser.skip(&mut cx, 1).expect("the last byte");
    assert_eq!(parser.peek_byte(), None);
    parser.read_byte(&mut cx).expect_err("input is exhausted");
}

#[test]
fn value_encoder_slots() {
    let mut enc = ValueEncoder::new();
    enc.encode_unit();
    assert_eq!(enc.finish(), Value::Unit);

    let mut enc = ValueEncoder::new();
    enc.encode_bool(true);
    assert_eq!(enc.finish(), Value::Bool(true));

    let mut enc = ValueEncoder::new();
    enc.encode_string("text");
    let text = enc.finish();

    let mut wrapper = SomeValueWriter::new();
    wrapper.write(text);
    let wrapped = wrapper.finish();
    let back = from_slice(&to_vec(&wrapped).expect("encoding must succeed"))
        .expect("decoding must succeed");
    assert!(value_eq(&wrapped, &back));
    match back {
        Value::Option(Some(inner)) => assert_eq!(*inner, Value::String("text".to_string())),
        other => panic!("expected an option-present value, got {other:?}"),
    }

    let mut enc = ValueEncoder::new();
    enc.encode_i128(i128::MIN);
    enc.encode_u8(9);
    assert_eq!(enc.finish(), Value::Number(Number::U8(9)));
}

#[test]
fn fixed_bytes_encoding() {
    let value = Value::String("fits".to_string());
    let buf = musli::to_fixed_bytes(&value, 64).expect("64 bytes are plenty");
    let bytes = to_vec(&value).expect("encoding must succeed");
    assert_eq!(buf.as_slice(), &bytes[..]);

    let error = musli::to_fixed_bytes(&value, 3).expect_err("three bytes are too few");
    assert_eq!(error.kind(), musli::error::ErrorKind::CapacityExceeded);
}

#[test]
fn cstring_channel() {
    let bytes = to_vec(&Value::Bytes(vec![b'h', b'i', 0])).expect("encoding must succeed");
    let (visit, end) = musli::encoding::decode_cstring_visit(&bytes, 0)
        .expect("a terminated byte string is a C string");
    assert_eq!(end, bytes.len());
    match visit {
        BytesVisit::Borrowed(slice) => assert_eq!(slice, &[b'h', b'i', 0]),
        other => panic!("a slice source offers the borrowed channel, got {other:?}"),
    }

    // An interior zero, a missing terminator, and emptiness are rejected.
    let interior = to_vec(&Value::Bytes(vec![1, 0, 2, 0])).expect("encoding must succeed");
    assert!(musli::encoding::decode_cstring_visit(&interior, 0).is_none());
    let unterminated = to_vec(&Value::Bytes(vec![1, 2])).expect("encoding must succeed");
    assert!(musli::encoding::decode_cstring_visit(&unterminated, 0).is_none());
    let empty = to_vec(&Value::Bytes(Vec::new())).expect("encoding must succeed");
    assert!(musli::encoding::decode_cstring_visit(&empty, 0).is_none());
}

#[test]
fn vectored_bytes_gather_in_order() {
    let mut enc = ValueEncoder::new();
    enc.encode_bytes_vectored(&vec![vec![1u8, 2], Vec::new(), vec![3u8]]);
    let value = enc.finish();
    assert_eq!(value, Value::Bytes(vec![1, 2, 3]));
    let back = from_slice(&to_vec(&value).expect("encoding must succeed"))
        .expect("decoding must succeed");
    assert!(value_eq(&value, &back));
}

#[test]
fn unit_variant_encoder() {
    let mut enc = ValueEncoder::new();
    enc.encode_unit_variant(Value::String("Empty".to_string()));
    let value = enc.finish();
    let back = from_slice(&to_vec(&value).expect("encoding must succeed"))
        .expect("decoding must succeed");
    assert!(value_eq(&value, &back));
    match back {
        Value::Variant(inner) => {
            assert_eq!(inner.0, Value::String("Empty".to_string()));
            assert_eq!(inner.1, Value::Unit);
        }
        other => panic!("expected a variant, got {other:?}"),
    }
}

#[test]
fn variant_bytes_extraction() {
    let mut enc = musli::en::VariantValueEncoder::new();
    enc.encode_tag(Value::String("unix".to_string()));
    enc.encode_value(Value::Bytes(vec![47, 116, 109, 112]));
    let value = enc.end();

    let payload = musli::variant_bytes(&value, "unix").expect("the shape matches");
    assert_eq!(payload, &vec![47, 116, 109, 112]);

    assert!(musli::variant_bytes(&value, "windows").is_none());
    assert!(musli::variant_bytes(&Value::Unit, "unix").is_none());
    let tagless = musli::en::VariantValueEncoder::new().end();
    assert!(musli::variant_bytes(&tagless, "unix").is_none());
}
