//! Big-endian decoding and encoding of the fixed-size integer fields of the
//! wire format: 16-bit length prefixes and the 64-bit blob length.

use vstd::prelude::*;

verus! {

/// The value of a two-byte big-endian field.
pub open spec fn spec_u16_be(b: Seq<u8>) -> u16
    recommends
        b.len() == 2,
{
    (b[0] as u16) << 8 | (b[1] as u16)
}

/// The value of an eight-byte big-endian field.
pub open spec fn spec_u64_be(b: Seq<u8>) -> u64
    recommends
        b.len() == 8,
{
    (b[0] as u64) << 56 | (b[1] as u64) << 48 | (b[2] as u64) << 40 | (b[3] as u64) << 32 | (
    b[4] as u64) << 24 | (b[5] as u64) << 16 | (b[6] as u64) << 8 | (b[7] as u64)
}

/// The two-byte big-endian encoding of a 16-bit value.
pub open spec fn spec_u16_bytes(n: u16) -> Seq<u8> {
    seq![((n >> 8) & 0xff) as u8, (n & 0xff) as u8]
}

/// The eight-byte big-endian encoding of a 64-bit value.
pub open spec fn spec_u64_bytes(n: u64) -> Seq<u8> {
    seq![
        ((n >> 56) & 0xff) as u8,
        ((n >> 48) & 0xff) as u8,
        ((n >> 40) & 0xff) as u8,
        ((n >> 32) & 0xff) as u8,
        ((n >> 24) & 0xff) as u8,
        ((n >> 16) & 0xff) as u8,
        ((n >> 8) & 0xff) as u8,
        (n & 0xff) as u8,
    ]
}

/// Encoding a 16-bit value and decoding the two bytes gives the value back.
pub proof fn lemma_u16_round_trip(n: u16)
    ensures
        spec_u16_bytes(n).len() == 2,
        spec_u16_be(spec_u16_bytes(n)) == n,
{
    assert((n >> 8) & 0xff < 256 && n & 0xff < 256) by (bit_vector);
    assert(n == ((n >> 8) & 0xff) << 8 | (n & 0xff)) by (bit_vector);
}

/// Encoding a 64-bit value and decoding the eight bytes gives the value back.
pub proof fn lemma_u64_round_trip(n: u64)
    ensures
        spec_u64_bytes(n).len() == 8,
        spec_u64_be(spec_u64_bytes(n)) == n,
{
    assert((n >> 56) & 0xff < 256 && (n >> 48) & 0xff < 256 && (n >> 40) & 0xff < 256 && (n >> 32)
        & 0xff < 256 && (n >> 24) & 0xff < 256 && (n >> 16) & 0xff < 256 && (n >> 8) & 0xff < 256
        && n & 0xff < 256) by (bit_vector);
    assert(n == ((n >> 56) & 0xff) << 56 | ((n >> 48) & 0xff) << 48 | ((n >> 40) & 0xff) << 40 | ((
    n >> 32) & 0xff) << 32 | ((n >> 24) & 0xff) << 24 | ((n >> 16) & 0xff) << 16 | ((n >> 8) & 0xff)
        << 8 | (n & 0xff)) by (bit_vector);
}

/// Decoding two bytes and re-encoding the value gives the bytes back:
/// the two-byte big-endian encoding is a bijection.
pub proof fn lemma_u16_bytes_round_trip(b: Seq<u8>)
    requires
        b.len() == 2,
    ensures
        spec_u16_bytes(spec_u16_be(b)) == b,
{
    let b0 = b[0];
    let b1 = b[1];
    let x = spec_u16_be(b);
    assert(x == (b0 as u16) << 8 | (b1 as u16));
    assert((b0 as u16) << 8 | (b1 as u16) == x ==> ((x >> 8) & 0xff) as u8 == b0 && (x & 0xff) as u8
        == b1) by (bit_vector);
    assert(spec_u16_bytes(x) =~= b);
}

/// Decodes a two-byte big-endian length prefix.
pub fn u16_be(b: [u8; 2]) -> (r: usize)
    ensures
        r == spec_u16_be(b@),
        r <= 0xffff,
{
    let v: u16 = (b[0] as u16) << 8u16 | (b[1] as u16);
    v as usize
}

/// Decodes an eight-byte big-endian blob length.
pub fn u64_be(b: [u8; 8]) -> (r: u64)
    ensures
        r == spec_u64_be(b@),
{
    (b[0] as u64) << 56u64 | (b[1] as u64) << 48u64 | (b[2] as u64) << 40u64 | (b[3] as u64)
        << 32u64 | (b[4] as u64) << 24u64 | (b[5] as u64) << 16u64 | (b[6] as u64) << 8u64 | (
    b[7] as u64)
}

/// Appends the two-byte big-endian encoding of a 16-bit value.
pub fn push_u16_be(out: &mut Vec<u8>, n: u16)
    ensures
        final(out)@ == old(out)@ + spec_u16_bytes(n),
{
    out.push(((n >> 8u16) & 0xffu16) as u8);
    out.push((n & 0xffu16) as u8);
    proof {
        assert(out@ =~= old(out)@ + spec_u16_bytes(n));
    }
}

/// Appends the eight-byte big-endian encoding of a 64-bit value.
pub fn push_u64_be(out: &mut Vec<u8>, n: u64)
    ensures
        final(out)@ == old(out)@ + spec_u64_bytes(n),
{
    out.push(((n >> 56u64) & 0xffu64) as u8);
    out.push(((n >> 48u64) & 0xffu64) as u8);
    out.push(((n >> 40u64) & 0xffu64) as u8);
    out.push(((n >> 32u64) & 0xffu64) as u8);
    out.push(((n >> 24u64) & 0xffu64) as u8);
    out.push(((n >> 16u64) & 0xffu64) as u8);
    out.push(((n >> 8u64) & 0xffu64) as u8);
    out.push((n & 0xffu64) as u8);
    proof {
        assert(out@ =~= old(out)@ + spec_u64_bytes(n));
    }
}

} // verus!
