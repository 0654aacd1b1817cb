//! Variable-length integer encoding: a zigzag transform for signed values and
//! a continuation-bit encoding for unsigned magnitudes.
//!
//! Each encoded byte carries seven payload bits, least-significant group
//! first, and the high bit of a byte is set exactly when more bytes follow.
//! Signed values are first mapped through the zigzag transform, which sends
//! small-magnitude negatives and positives alike to small unsigned codes.

use vstd::arithmetic::div_mod::lemma_fundamental_div_mod;
use vstd::prelude::*;

verus! {

/// The zigzag transform: `n >= 0` maps to `2n`, `n < 0` maps to `-2n - 1`.
///
/// This is the arithmetic reading of `(n << 1) XOR (n >> (bits - 1))` on a
/// fixed-width two's-complement integer.
pub open spec fn zigzag(n: int) -> nat {
    if n >= 0 {
        (2 * n) as nat
    } else {
        (-2 * n - 1) as nat
    }
}

/// The inverse of [`zigzag`]: even codes are non-negative, odd codes negative.
pub open spec fn unzigzag(m: nat) -> int {
    if m % 2 == 0 {
        (m / 2) as int
    } else {
        -((m / 2) as int) - 1
    }
}

/// The zigzag transform is a bijection between the integers and the naturals.
pub proof fn lemma_zigzag_roundtrip(n: int)
    ensures
        unzigzag(zigzag(n)) == n,
{
}

/// The continuation-bit encoding of an unsigned magnitude.
pub open spec fn varint(n: nat) -> Seq<u8>
    decreases n,
{
    if n < 128 {
        seq![n as u8]
    } else {
        seq![(128 + n % 128) as u8] + varint(n / 128)
    }
}

/// What decoding a continuation-bit varint at `pos` in `data` yields: the
/// magnitude and the position just past it, or nothing on underflow.
pub open spec fn dec_varint(data: Seq<u8>, pos: int) -> Option<(nat, int)>
    decreases data.len() - pos,
{
    if pos < 0 || pos >= data.len() {
        None
    } else {
        let b = data[pos];
        if b < 128 {
            Some((b as nat, pos + 1))
        } else {
            match dec_varint(data, pos + 1) {
                Some((m, p)) => Some(((b - 128) as nat + 128 * m, p)),
                None => None,
            }
        }
    }
}

/// An encoded varint is never empty.
pub proof fn lemma_varint_len(n: nat)
    ensures
        varint(n).len() >= 1,
{
}

/// Decoding the encoding of `n` found at `pos` in `data` yields exactly `n`
/// and stops exactly past it, whatever bytes surround it.
pub proof fn lemma_varint_roundtrip(data: Seq<u8>, pos: int, n: nat)
    requires
        0 <= pos,
        pos + varint(n).len() <= data.len(),
        data.subrange(pos, pos + varint(n).len() as int) == varint(n),
    ensures
        dec_varint(data, pos) == Some((n, pos + varint(n).len() as int)),
    decreases n,
{
    let enc = varint(n);
    assert(data[pos] == enc[0]);
    if n < 128 {
        assert(dec_varint(data, pos) == Some((n, pos + 1)));
    } else {
        let tail = varint(n / 128);
        assert(enc == seq![(128 + n % 128) as u8] + tail);
        assert(data.subrange(pos + 1, pos + 1 + tail.len() as int) =~= tail) by {
            assert forall|i: int| 0 <= i < tail.len() implies data[pos + 1 + i] == tail[i] by {
                assert(enc[1 + i] == tail[i]);
                assert(data[pos + 1 + i] == enc[1 + i]);
            }
        }
        lemma_varint_roundtrip(data, pos + 1, n / 128);
        assert(data[pos] == (128 + n % 128) as u8);
        assert((data[pos] - 128) as nat + 128 * (n / 128) == n) by {
            lemma_fundamental_div_mod(n as int, 128);
        }
    }
}

/// A successful varint decode always lands strictly past its start and
/// within the data.
pub proof fn lemma_dec_varint_advances(data: Seq<u8>, pos: int)
    ensures
        dec_varint(data, pos) matches Some(vp) ==> pos < vp.1 <= data.len(),
    decreases data.len() - pos,
{
    if 0 <= pos < data.len() && data[pos] >= 128 {
        lemma_dec_varint_advances(data, pos + 1);
    }
}

/// Appends the continuation-bit encoding of `n` to `out`.
pub fn encode_varint(out: &mut Vec<u8>, n: u128)
    ensures
        final(out)@ == old(out)@ + varint(n as nat),
    decreases n,
{
    if n < 128 {
        out.push(n as u8);
        assert(out@ =~= old(out)@ + varint(n as nat));
    } else {
        let ghost mid = out@ + seq![(128 + n % 128) as u8];
        out.push((128 + (n % 128)) as u8);
        encode_varint(out, n / 128);
        assert(out@ =~= old(out)@ + varint(n as nat));
    }
}

/// Reads one continuation-bit varint at `pos`, rejecting truncated input and
/// magnitudes beyond the 128-bit range.
pub fn decode_varint(data: &[u8], pos: usize) -> (r: Option<(u128, usize)>)
    ensures
        match r {
            Some(vp) => dec_varint(data@, pos as int) == Some((vp.0 as nat, vp.1 as int)),
            None => match dec_varint(data@, pos as int) {
                Some(vp) => vp.0 > u128::MAX,
                None => true,
            },
        },
    decreases data@.len() - pos,
{
    if pos >= data.len() {
        return None;
    }
    let b = data[pos];
    if b < 128 {
        Some((b as u128, pos + 1))
    } else {
        match decode_varint(data, pos + 1) {
            Some((m, p)) => {
                let low = (b - 128) as u128;
                if m <= (u128::MAX - low) / 128 {
                    assert(low + 128 * m <= u128::MAX) by (nonlinear_arith)
                        requires
                            m <= (u128::MAX - low) / 128,
                            low <= 127,
                    ;
                    Some((low + 128 * m, p))
                } else {
                    assert(low as nat + 128 * (m as nat) > u128::MAX) by (nonlinear_arith)
                        requires
                            m > (u128::MAX - low) / 128,
                            low <= 127,
                    ;
                    None
                }
            },
            None => {
                proof {
                    if dec_varint(data@, pos as int) is Some {
                        let (v, p) = dec_varint(data@, pos as int)->Some_0;
                        let (m, p2) = dec_varint(data@, pos as int + 1)->Some_0;
                        assert(m > u128::MAX);
                        assert(v == (b - 128) as nat + 128 * m);
                        assert(128 * m > u128::MAX) by (nonlinear_arith)
                            requires
                                m > u128::MAX,
                        ;
                    }
                }
                None
            },
        }
    }
}

/// The zigzag transform on a 64-bit signed integer.
pub fn zigzag64(n: i64) -> (r: u64)
    ensures
        r as nat == zigzag(n as int),
{
    if n >= 0 {
        (n as u64) * 2
    } else {
        ((-(n + 1)) as u64) * 2 + 1
    }
}

/// The inverse zigzag transform onto a 64-bit signed integer.
pub fn unzigzag64(m: u64) -> (r: i64)
    ensures
        r as int == unzigzag(m as nat),
{
    if m % 2 == 0 {
        (m / 2) as i64
    } else {
        -((m / 2) as i64) - 1
    }
}

/// The zigzag transform on a 128-bit signed integer.
pub fn zigzag128(n: i128) -> (r: u128)
    ensures
        r as nat == zigzag(n as int),
{
    if n >= 0 {
        (n as u128) * 2
    } else {
        ((-(n + 1)) as u128) * 2 + 1
    }
}

/// The inverse zigzag transform onto a 128-bit signed integer.
pub fn unzigzag128(m: u128) -> (r: i128)
    ensures
        r as int == unzigzag(m as nat),
{
    if m % 2 == 0 {
        (m / 2) as i128
    } else {
        -((m / 2) as i128) - 1
    }
}

/// Zigzag-encoding a signed 64-bit integer, writing it as a continuation-bit
/// varint, decoding that, and applying the inverse transform yields the
/// original integer, whatever it was.
pub proof fn lemma_signed_roundtrip(n: int)
    requires
        i64::MIN <= n <= i64::MAX,
    ensures
        dec_varint(varint(zigzag(n)), 0) == Some((zigzag(n), varint(zigzag(n)).len() as int)),
        unzigzag(zigzag(n)) == n,
{
    let enc = varint(zigzag(n));
    assert(enc.subrange(0, enc.len() as int) =~= enc);
    lemma_varint_roundtrip(enc, 0, zigzag(n));
}

} // verus!
