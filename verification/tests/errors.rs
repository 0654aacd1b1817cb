//! One input per error condition: truncated input, markers with no decode
//! mapping, type mismatches during traced decoding, and exhausted capacity.

use musli::context::Context;
use musli::error::{Error, ErrorKind};
use musli::trace::{decode_map_header, decode_string_traced, decode_u32_traced, skip_value};
use musli::value::Value;
use musli::{from_slice, to_vec};

#[test]
fn truncated_input_is_rejected() {
    let bytes = to_vec(&Value::String("hello".to_string())).expect("encoding must succeed");
    let cut = &bytes[..bytes.len() - 1];
    let error = from_slice(cut).expect_err("truncated input must not decode");
    assert_eq!(error.kind(), ErrorKind::Malformed);
    assert!(from_slice(&[]).is_err());
}

#[test]
fn unknown_marker_is_rejected() {
    let error = from_slice(&[0xEE]).expect_err("an unmapped marker must not decode");
    assert_eq!(error.kind(), ErrorKind::Malformed);
    assert!(from_slice(&[23]).is_err());
}

#[test]
fn out_of_range_numbers_are_rejected() {
    // A u8 marker followed by the varint for 256.
    assert!(from_slice(&[4, 0x80, 0x02]).is_err());
    // An i8 marker followed by the zigzag code for 128.
    assert!(from_slice(&[10, 0x80, 0x02]).is_err());
    // A char marker followed by a surrogate scalar value.
    assert!(from_slice(&[3, 0x80, 0xB0, 0x03]).is_err());
}

#[test]
fn invalid_utf8_is_rejected() {
    // A string marker, length two, and a malformed byte pair.
    assert!(from_slice(&[17, 2, 0xC3, 0x28]).is_err());
    // The same bytes decode fine as a byte string.
    assert!(from_slice(&[16, 2, 0xC3, 0x28]).is_ok());
}

#[test]
fn traced_errors_name_their_kind() {
    let bytes = to_vec(&Value::Bool(true)).expect("encoding must succeed");

    let mut cx = Context::new();
    let error = decode_u32_traced(&bytes, &mut cx).expect_err("a bool is not numeric");
    assert_eq!(error.kind(), ErrorKind::InvalidNumeric);

    let mut cx = Context::new();
    let error = decode_string_traced(&bytes, &mut cx).expect_err("a bool is not text");
    assert_eq!(error.kind(), ErrorKind::ExpectedString);

    let mut cx = Context::new();
    let error = decode_map_header(&bytes, &mut cx).expect_err("a bool is not a map");
    assert_eq!(error.kind(), ErrorKind::ExpectedMap);

    let mut cx = Context::new();
    let error = decode_u32_traced(&[], &mut cx).expect_err("no input underflows");
    assert_eq!(error.kind(), ErrorKind::Underflow);

    let mut cx = Context::new();
    let error = skip_value(&[0xEE], &mut cx).expect_err("an unmapped marker cannot be skipped");
    assert_eq!(error.kind(), ErrorKind::Malformed);
}

#[test]
fn skipping_consumes_exactly_one_value() {
    let mut bytes = to_vec(&Value::String("abc".to_string())).expect("encoding must succeed");
    let tail = to_vec(&Value::Bool(false)).expect("encoding must succeed");
    let first_len = bytes.len();
    bytes.extend_from_slice(&tail);

    let mut cx = Context::new();
    skip_value(&bytes, &mut cx).expect("a wellformed value skips");
    assert_eq!(cx.position(), first_len);
    skip_value(&bytes, &mut cx).expect("the trailing value skips too");
    assert_eq!(cx.position(), bytes.len());
}

#[test]
fn error_kinds_render_their_text() {
    assert_eq!(
        Error::new(ErrorKind::AllocationFailed).text().as_str(),
        "Failed to allocate"
    );
    assert_eq!(
        Error::new(ErrorKind::CapacityExceeded).text().as_str(),
        "Buffer capacity exceeded"
    );
    assert_eq!(Error::new(ErrorKind::Underflow).text().as_str(), "Buffer underflow");
    assert_eq!(Error::new(ErrorKind::InvalidUtf8).text().as_str(), "Invalid UTF-8");
}
