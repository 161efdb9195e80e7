//! The wire format as a mathematical model: what the preamble and each
//! record header mean as functions of the raw byte sequence, the matching
//! encodings, and the laws that relate encoding to decoding.

use crate::be::{
    lemma_u16_round_trip, lemma_u64_round_trip, spec_u16_be, spec_u16_bytes, spec_u64_be,
    spec_u64_bytes,
};
use crate::{DecodeError, Field, ParsedRecord, BLOB_LEN_MAX, ID_LEN_MAX, NONCE_LEN_MAX, VERSION};
use vstd::prelude::*;

verus! {

/// The four magic bytes, the ASCII characters of "EBL0".
pub open spec fn spec_magic() -> Seq<u8> {
    seq![0x45u8, 0x42u8, 0x4cu8, 0x30u8]
}

/// The five preamble bytes of a well-formed stream.
pub open spec fn spec_preamble_bytes() -> Seq<u8> {
    spec_magic().push(VERSION)
}

/// Outcome of validating the preamble against the bytes of `s` from `pos`
/// on: the magic is checked first, so a short or wrong magic decides the
/// error before the version byte is even looked at.
pub open spec fn spec_preamble(s: Seq<u8>, pos: int) -> Result<(), DecodeError>
    recommends
        0 <= pos <= s.len(),
{
    if pos + 4 > s.len() {
        Err(DecodeError::TruncatedStream)
    } else if s.subrange(pos, pos + 4) != spec_magic() {
        Err(DecodeError::BadMagic)
    } else if pos + 5 > s.len() {
        Err(DecodeError::TruncatedStream)
    } else if s[pos + 4] != VERSION {
        Err(DecodeError::UnsupportedVersion)
    } else {
        Ok(())
    }
}

/// Outcome of decoding one record header from the bytes of `s` at `pos`.
/// `Ok(None)` is the clean end of the record sequence and is reached only
/// when `pos` sits exactly at the end of the stream; a stream that ends
/// anywhere inside a field is truncated, and a declared length over its cap
/// aborts before any further byte is interpreted.
pub open spec fn spec_record(s: Seq<u8>, pos: int) -> Result<Option<ParsedRecord>, DecodeError>
    recommends
        0 <= pos <= s.len(),
{
    if pos == s.len() {
        Ok(None)
    } else if pos + 2 > s.len() {
        Err(DecodeError::TruncatedStream)
    } else {
        let nonce_len = spec_u16_be(s.subrange(pos, pos + 2)) as int;
        if nonce_len > NONCE_LEN_MAX as int {
            Err(DecodeError::FieldTooLarge(Field::Nonce))
        } else if pos + 2 + nonce_len > s.len() {
            Err(DecodeError::TruncatedStream)
        } else {
            let p1 = pos + 2 + nonce_len;
            if p1 + 2 > s.len() {
                Err(DecodeError::TruncatedStream)
            } else {
                let id_len = spec_u16_be(s.subrange(p1, p1 + 2)) as int;
                if id_len > ID_LEN_MAX as int {
                    Err(DecodeError::FieldTooLarge(Field::Id))
                } else if p1 + 2 + id_len > s.len() {
                    Err(DecodeError::TruncatedStream)
                } else {
                    let p2 = p1 + 2 + id_len;
                    if p2 + 8 > s.len() {
                        Err(DecodeError::TruncatedStream)
                    } else {
                        let blob_len = spec_u64_be(s.subrange(p2, p2 + 8));
                        if blob_len > BLOB_LEN_MAX {
                            Err(DecodeError::FieldTooLarge(Field::Blob))
                        } else {
                            Ok(
                                Some(
                                    (ParsedRecord {
                                        nonce: s.subrange(pos + 2, pos + 2 + nonce_len),
                                        id: s.subrange(p1 + 2, p1 + 2 + id_len),
                                        blob_len,
                                        end: p2 + 8,
                                    }),
                                ),
                            )
                        }
                    }
                }
            }
        }
    }
}

/// The wire encoding of one record header: each byte field preceded by its
/// two-byte length, then the eight-byte blob length. The blob itself is
/// not part of the header.
pub open spec fn spec_encode_record(nonce: Seq<u8>, id: Seq<u8>, blob_len: u64) -> Seq<u8>
    recommends
        nonce.len() <= NONCE_LEN_MAX as int,
        id.len() <= ID_LEN_MAX as int,
{
    spec_u16_bytes(nonce.len() as u16) + nonce + spec_u16_bytes(id.len() as u16) + id
        + spec_u64_bytes(blob_len)
}

/// A window of an embedded byte sequence equals the matching window of the
/// surrounding sequence.
pub proof fn lemma_embedded_slice(s: Seq<u8>, pos: int, e: Seq<u8>, a: int, b: int)
    requires
        0 <= pos,
        pos + e.len() <= s.len(),
        s.subrange(pos, pos + e.len()) == e,
        0 <= a <= b <= e.len(),
    ensures
        s.subrange(pos + a, pos + b) == e.subrange(a, b),
{
    assert(s.subrange(pos + a, pos + b) =~= e.subrange(a, b)) by {
        assert forall|i: int| 0 <= i < b - a implies s.subrange(pos + a, pos + b)[i] == e.subrange(
            a,
            b,
        )[i] by {
            assert(e[a + i] == s.subrange(pos, pos + e.len())[a + i]);
        }
    }
}

/// Any stream that begins with the magic and the supported version is
/// accepted by the preamble check.
pub proof fn lemma_preamble_valid(s: Seq<u8>, pos: int)
    requires
        0 <= pos,
        pos + 5 <= s.len(),
        s.subrange(pos, pos + 4) == spec_magic(),
        s[pos + 4] == VERSION,
    ensures
        spec_preamble(s, pos) == Ok::<(), DecodeError>(()),
{
}

/// Any four leading bytes other than the magic are rejected as `BadMagic`,
/// whatever byte follows them.
pub proof fn lemma_preamble_bad_magic(s: Seq<u8>, pos: int)
    requires
        0 <= pos,
        pos + 4 <= s.len(),
        s.subrange(pos, pos + 4) != spec_magic(),
    ensures
        spec_preamble(s, pos) == Err::<(), DecodeError>(DecodeError::BadMagic),
{
}

/// The magic followed by any version byte other than the supported one is
/// rejected as `UnsupportedVersion`.
pub proof fn lemma_preamble_bad_version(s: Seq<u8>, pos: int)
    requires
        0 <= pos,
        pos + 5 <= s.len(),
        s.subrange(pos, pos + 4) == spec_magic(),
        s[pos + 4] != VERSION,
    ensures
        spec_preamble(s, pos) == Err::<(), DecodeError>(DecodeError::UnsupportedVersion),
{
}

/// The record decoder reports a clean end exactly when it is started with
/// zero bytes left: whenever any byte remains, the outcome is a header or
/// an error, never the end-of-sequence signal.
pub proof fn lemma_clean_end_iff(s: Seq<u8>, pos: int)
    requires
        0 <= pos <= s.len(),
    ensures
        (spec_record(s, pos) == Ok::<Option<ParsedRecord>, DecodeError>(None)) <==> pos == s.len(),
{
}

/// Round trip: a record header whose fields are within their caps decodes
/// from its own encoding, wherever that encoding is embedded in a stream,
/// back to exactly the same fields, and the decoder stops exactly at the
/// end of the encoding.
pub proof fn lemma_record_round_trip(s: Seq<u8>, pos: int, nonce: Seq<u8>, id: Seq<u8>, blob_len: u64)
    requires
        nonce.len() <= NONCE_LEN_MAX as int,
        id.len() <= ID_LEN_MAX as int,
        blob_len <= BLOB_LEN_MAX,
        0 <= pos,
        pos + spec_encode_record(nonce, id, blob_len).len() <= s.len(),
        s.subrange(pos, pos + spec_encode_record(nonce, id, blob_len).len()) == spec_encode_record(
            nonce,
            id,
            blob_len,
        ),
    ensures
        spec_record(s, pos) == Ok::<Option<ParsedRecord>, DecodeError>(
            Some(
                (ParsedRecord {
                    nonce,
                    id,
                    blob_len,
                    end: pos + spec_encode_record(nonce, id, blob_len).len(),
                }),
            ),
        ),
{
    let e = spec_encode_record(nonce, id, blob_len);
    let nl = nonce.len() as int;
    let il = id.len() as int;
    lemma_u16_round_trip(nonce.len() as u16);
    lemma_u16_round_trip(id.len() as u16);
    lemma_u64_round_trip(blob_len);
    assert(e.len() == 12 + nl + il);
    assert(e.subrange(0, 2) =~= spec_u16_bytes(nonce.len() as u16));
    assert(e.subrange(2, 2 + nl) =~= nonce);
    assert(e.subrange(2 + nl, 4 + nl) =~= spec_u16_bytes(id.len() as u16));
    assert(e.subrange(4 + nl, 4 + nl + il) =~= id);
    assert(e.subrange(4 + nl + il, 12 + nl + il) =~= spec_u64_bytes(blob_len));
    lemma_embedded_slice(s, pos, e, 0, 2);
    lemma_embedded_slice(s, pos, e, 2, 2 + nl);
    lemma_embedded_slice(s, pos, e, 2 + nl, 4 + nl);
    lemma_embedded_slice(s, pos, e, 4 + nl, 4 + nl + il);
    lemma_embedded_slice(s, pos, e, 4 + nl + il, 12 + nl + il);
    assert(spec_u16_be(s.subrange(pos, pos + 2)) == nonce.len() as u16);
    assert(s.subrange(pos + 2, pos + 2 + nl) == nonce);
    assert(spec_u16_be(s.subrange(pos + 2 + nl, pos + 4 + nl)) == id.len() as u16);
    assert(s.subrange(pos + 4 + nl, pos + 4 + nl + il) == id);
    assert(spec_u64_be(s.subrange(pos + 4 + nl + il, pos + 12 + nl + il)) == blob_len);
}

/// Truncation is never mistaken for a clean end: cut the stream anywhere
/// strictly inside a valid record encoding — after at least one byte of it,
/// before its last byte, so in particular after one byte of any of the
/// length fields — and the decoder reports a truncated stream, not the
/// end-of-sequence signal and not a header.
pub proof fn lemma_truncated_record(
    s: Seq<u8>,
    pos: int,
    nonce: Seq<u8>,
    id: Seq<u8>,
    blob_len: u64,
    k: int,
)
    requires
        nonce.len() <= NONCE_LEN_MAX as int,
        id.len() <= ID_LEN_MAX as int,
        blob_len <= BLOB_LEN_MAX,
        0 <= pos,
        1 <= k < spec_encode_record(nonce, id, blob_len).len(),
        s.len() == pos + k,
        s.subrange(pos, pos + k) == spec_encode_record(nonce, id, blob_len).subrange(0, k),
    ensures
        spec_record(s, pos) == Err::<Option<ParsedRecord>, DecodeError>(
            DecodeError::TruncatedStream,
        ),
{
    let e = spec_encode_record(nonce, id, blob_len);
    let nl = nonce.len() as int;
    let il = id.len() as int;
    let ek = e.subrange(0, k);
    lemma_u16_round_trip(nonce.len() as u16);
    lemma_u16_round_trip(id.len() as u16);
    assert(e.len() == 12 + nl + il);
    assert(e.subrange(0, 2) =~= spec_u16_bytes(nonce.len() as u16));
    assert(e.subrange(2 + nl, 4 + nl) =~= spec_u16_bytes(id.len() as u16));
    if k >= 2 {
        lemma_embedded_slice(s, pos, ek, 0, 2);
        assert(ek.subrange(0, 2) =~= e.subrange(0, 2));
        assert(spec_u16_be(s.subrange(pos, pos + 2)) == nonce.len() as u16);
        if k >= 4 + nl {
            lemma_embedded_slice(s, pos, ek, 2 + nl, 4 + nl);
            assert(ek.subrange(2 + nl, 4 + nl) =~= e.subrange(2 + nl, 4 + nl));
            assert(spec_u16_be(s.subrange(pos + 2 + nl, pos + 4 + nl)) == id.len() as u16);
        }
    }
}

/// Two records laid back to back, each header followed by exactly its
/// declared number of blob bytes, decode independently and in order: the
/// first header decodes at `pos`, and after skipping its blob the second
/// header decodes exactly there, never swallowing the first blob's bytes,
/// whatever those bytes are.
pub proof fn lemma_records_in_order(
    s: Seq<u8>,
    pos: int,
    nonce1: Seq<u8>,
    id1: Seq<u8>,
    blob1: Seq<u8>,
    nonce2: Seq<u8>,
    id2: Seq<u8>,
    blob_len2: u64,
)
    requires
        nonce1.len() <= NONCE_LEN_MAX as int,
        id1.len() <= ID_LEN_MAX as int,
        blob1.len() <= BLOB_LEN_MAX,
        nonce2.len() <= NONCE_LEN_MAX as int,
        id2.len() <= ID_LEN_MAX as int,
        blob_len2 <= BLOB_LEN_MAX,
        0 <= pos,
        pos + spec_encode_record(nonce1, id1, blob1.len() as u64).len() + blob1.len()
            + spec_encode_record(nonce2, id2, blob_len2).len() <= s.len(),
        s.subrange(
            pos,
            pos + spec_encode_record(nonce1, id1, blob1.len() as u64).len() + blob1.len()
                + spec_encode_record(nonce2, id2, blob_len2).len(),
        ) == spec_encode_record(nonce1, id1, blob1.len() as u64) + blob1 + spec_encode_record(
            nonce2,
            id2,
            blob_len2,
        ),
    ensures
        spec_record(s, pos) == Ok::<Option<ParsedRecord>, DecodeError>(
            Some(
                (ParsedRecord {
                    nonce: nonce1,
                    id: id1,
                    blob_len: blob1.len() as u64,
                    end: pos + spec_encode_record(nonce1, id1, blob1.len() as u64).len(),
                }),
            ),
        ),
        spec_record(
            s,
            pos + spec_encode_record(nonce1, id1, blob1.len() as u64).len() + blob1.len(),
        ) == Ok::<Option<ParsedRecord>, DecodeError>(
            Some(
                (ParsedRecord {
                    nonce: nonce2,
                    id: id2,
                    blob_len: blob_len2,
                    end: pos + spec_encode_record(nonce1, id1, blob1.len() as u64).len()
                        + blob1.len() + spec_encode_record(nonce2, id2, blob_len2).len(),
                }),
            ),
        ),
{
    let e1 = spec_encode_record(nonce1, id1, blob1.len() as u64);
    let e2 = spec_encode_record(nonce2, id2, blob_len2);
    let t = e1 + blob1 + e2;
    let q = pos + e1.len() + blob1.len();
    lemma_embedded_slice(s, pos, t, 0, e1.len() as int);
    assert(t.subrange(0, e1.len() as int) =~= e1);
    lemma_record_round_trip(s, pos, nonce1, id1, blob1.len() as u64);
    lemma_embedded_slice(s, pos, t, e1.len() + blob1.len() as int, t.len() as int);
    assert(t.subrange(e1.len() + blob1.len() as int, t.len() as int) =~= e2);
    assert(s.subrange(q, q + e2.len()) == e2);
    lemma_record_round_trip(s, q, nonce2, id2, blob_len2);
}

} // verus!
