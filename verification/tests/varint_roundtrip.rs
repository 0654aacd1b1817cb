//! Zigzag and continuation-varint round trips for signed 64-bit integers,
//! including zero, minus one, and both extremes, plus exact wire bytes.

use musli::varint::{decode_varint, encode_varint, unzigzag64, zigzag64};

fn signed_roundtrip(n: i64) {
    let code = zigzag64(n);
    let mut bytes: Vec<u8> = Vec::new();
    encode_varint(&mut bytes, code as u128);
    let (decoded, consumed) = decode_varint(&bytes, 0).expect("decoding must succeed");
    assert_eq!(consumed, bytes.len());
    assert_eq!(decoded, code as u128);
    assert_eq!(unzigzag64(decoded as u64), n);
}

#[test]
fn zigzag_varint_roundtrip_edges() {
    signed_roundtrip(0);
    signed_roundtrip(-1);
    signed_roundtrip(1);
    signed_roundtrip(i64::MIN);
    signed_roundtrip(i64::MAX);
    signed_roundtrip(63);
    signed_roundtrip(-64);
    signed_roundtrip(64);
}

#[test]
fn zigzag_codes() {
    assert_eq!(zigzag64(0), 0);
    assert_eq!(zigzag64(-1), 1);
    assert_eq!(zigzag64(1), 2);
    assert_eq!(zigzag64(-2), 3);
    assert_eq!(zigzag64(i64::MAX), u64::MAX - 1);
    assert_eq!(zigzag64(i64::MIN), u64::MAX);
}

#[test]
fn varint_exact_bytes() {
    let mut bytes: Vec<u8> = Vec::new();
    encode_varint(&mut bytes, 0);
    assert_eq!(bytes, vec![0x00]);

    let mut bytes: Vec<u8> = Vec::new();
    encode_varint(&mut bytes, 127);
    assert_eq!(bytes, vec![0x7F]);

    let mut bytes: Vec<u8> = Vec::new();
    encode_varint(&mut bytes, 128);
    assert_eq!(bytes, vec![0x80, 0x01]);

    let mut bytes: Vec<u8> = Vec::new();
    encode_varint(&mut bytes, 300);
    assert_eq!(bytes, vec![0xAC, 0x02]);
}

#[test]
fn varint_rejects_truncation() {
    assert!(decode_varint(&[], 0).is_none());
    assert!(decode_varint(&[0x80], 0).is_none());
    assert!(decode_varint(&[0xFF, 0xFF], 0).is_none());
}
