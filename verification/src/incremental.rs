//! Incremental record-header decoding: one state per field boundary, one
//! fixed-size read between states. A driver that can only perform reads —
//! it never interprets a byte — asks `request` how many bytes the reader
//! needs, performs the read, and hands the outcome to `step`. Every
//! decision (size caps, the clean-end distinction, truncation) is taken
//! here, so a stream can be decoded without ever buffering more than one
//! field, and the blob payload is never read at all.

use crate::be::{
    lemma_u16_bytes_round_trip, lemma_u16_round_trip, spec_u16_be,
    spec_u16_bytes, spec_u64_be,
};
use crate::format::{lemma_embedded_slice, spec_record};
use crate::stream::{ByteStream, ReadOutcome};
use crate::{DecodeError, Field, RecordHeader, BLOB_LEN_MAX, ID_LEN_MAX, NONCE_LEN_MAX};
use vstd::prelude::*;

verus! {

/// The decoder's position inside one record header, between two reads.
/// Each state holds the fields already read in full; a fresh decode
/// starts at `AwaitingNonceLen`.
pub enum RecordReader {
    AwaitingNonceLen,
    AwaitingNonce { nonce_len: usize },
    AwaitingIdLen { nonce: Vec<u8> },
    AwaitingId { nonce: Vec<u8>, id_len: usize },
    AwaitingBlobLen { nonce: Vec<u8>, id: Vec<u8> },
}

/// What one step of the incremental reader decided: read on in a new
/// state, or stop with the record, the clean end of the sequence, or an
/// error.
pub enum Step {
    More(RecordReader),
    Done(RecordHeader),
    CleanEnd,
    Fail(DecodeError),
}

impl RecordReader {
    /// Every field held so far is within its cap.
    pub open spec fn wf(self) -> bool {
        match self {
            RecordReader::AwaitingNonceLen => true,
            RecordReader::AwaitingNonce { nonce_len } => nonce_len <= NONCE_LEN_MAX,
            RecordReader::AwaitingIdLen { nonce } => nonce@.len() <= NONCE_LEN_MAX as int,
            RecordReader::AwaitingId { nonce, id_len } => nonce@.len() <= NONCE_LEN_MAX as int
                && id_len <= ID_LEN_MAX,
            RecordReader::AwaitingBlobLen { nonce, id } => nonce@.len() <= NONCE_LEN_MAX as int
                && id@.len() <= ID_LEN_MAX as int,
        }
    }

    /// The bytes of the record that were consumed to reach this state.
    pub open spec fn consumed(self) -> Seq<u8> {
        match self {
            RecordReader::AwaitingNonceLen => Seq::empty(),
            RecordReader::AwaitingNonce { nonce_len } => spec_u16_bytes(nonce_len as u16),
            RecordReader::AwaitingIdLen { nonce } => spec_u16_bytes(nonce@.len() as u16) + nonce@,
            RecordReader::AwaitingId { nonce, id_len } => spec_u16_bytes(nonce@.len() as u16)
                + nonce@ + spec_u16_bytes(id_len as u16),
            RecordReader::AwaitingBlobLen { nonce, id } => spec_u16_bytes(nonce@.len() as u16)
                + nonce@ + spec_u16_bytes(id@.len() as u16) + id@,
        }
    }

    /// How many reads are still ahead from this state.
    pub open spec fn rank(self) -> int {
        match self {
            RecordReader::AwaitingNonceLen => 4,
            RecordReader::AwaitingNonce { .. } => 3,
            RecordReader::AwaitingIdLen { .. } => 2,
            RecordReader::AwaitingId { .. } => 1,
            RecordReader::AwaitingBlobLen { .. } => 0,
        }
    }

    /// How many bytes the next read must produce.
    pub open spec fn request_spec(self) -> int {
        match self {
            RecordReader::AwaitingNonceLen => 2,
            RecordReader::AwaitingNonce { nonce_len } => nonce_len as int,
            RecordReader::AwaitingIdLen { .. } => 2,
            RecordReader::AwaitingId { id_len, .. } => id_len as int,
            RecordReader::AwaitingBlobLen { .. } => 8,
        }
    }

    /// A fresh reader, positioned before the first length field.
    pub fn new() -> (r: Self)
        ensures
            r == RecordReader::AwaitingNonceLen,
    {
        RecordReader::AwaitingNonceLen
    }

    /// The exact number of bytes the reader needs next.
    pub fn request(&self) -> (n: usize)
        ensures
            n as int == self.request_spec(),
    {
        match self {
            RecordReader::AwaitingNonceLen => 2,
            RecordReader::AwaitingNonce { nonce_len } => *nonce_len,
            RecordReader::AwaitingIdLen { .. } => 2,
            RecordReader::AwaitingId { id_len, .. } => *id_len,
            RecordReader::AwaitingBlobLen { .. } => 8,
        }
    }

    /// Consumes one read outcome and decides: the clean end of the record
    /// sequence is exactly an end of stream with zero bytes available at
    /// the very start of a record; any other end of stream is truncation;
    /// a length field over its cap fails before another byte is read; and
    /// the header is complete once the blob length passes its cap check.
    pub fn step(self, outcome: ReadOutcome) -> (r: Step)
        requires
            self.wf(),
            outcome matches ReadOutcome::Bytes(v) ==> v@.len() == self.request_spec(),
            outcome matches ReadOutcome::End(k) ==> (k as int) < self.request_spec(),
        ensures
            self matches RecordReader::AwaitingNonceLen ==> outcome matches ReadOutcome::End(k)
                ==> r == (if k == 0 {
                Step::CleanEnd
            } else {
                Step::Fail(DecodeError::TruncatedStream)
            }),
            self.rank() < 4 ==> (outcome matches ReadOutcome::End(k) ==> r == Step::Fail(
                DecodeError::TruncatedStream,
            )),
            self matches RecordReader::AwaitingNonceLen ==> outcome matches ReadOutcome::Bytes(v)
                ==> r == (if spec_u16_be(v@) > NONCE_LEN_MAX as u16 {
                Step::Fail(DecodeError::FieldTooLarge(Field::Nonce))
            } else {
                Step::More(
                    (RecordReader::AwaitingNonce { nonce_len: spec_u16_be(v@) as usize }),
                )
            }),
            self matches RecordReader::AwaitingNonce { nonce_len } ==> outcome
                matches ReadOutcome::Bytes(v) ==> r == Step::More(
                (RecordReader::AwaitingIdLen { nonce: v }),
            ),
            self matches RecordReader::AwaitingIdLen { nonce } ==> outcome
                matches ReadOutcome::Bytes(v) ==> r == (if spec_u16_be(v@) > ID_LEN_MAX as u16 {
                Step::Fail(DecodeError::FieldTooLarge(Field::Id))
            } else {
                Step::More(
                    (RecordReader::AwaitingId { nonce, id_len: spec_u16_be(v@) as usize }),
                )
            }),
            self matches RecordReader::AwaitingId { nonce, id_len } ==> outcome
                matches ReadOutcome::Bytes(v) ==> r == Step::More(
                (RecordReader::AwaitingBlobLen { nonce, id: v }),
            ),
            self matches RecordReader::AwaitingBlobLen { nonce, id } ==> outcome
                matches ReadOutcome::Bytes(v) ==> r == (if spec_u64_be(v@) > BLOB_LEN_MAX {
                Step::Fail(DecodeError::FieldTooLarge(Field::Blob))
            } else {
                Step::Done((RecordHeader { nonce, id, blob_len: spec_u64_be(v@) }))
            }),
            r matches Step::More(next) ==> next.wf() && next.rank() < self.rank(),
            r matches Step::Done(h) ==> h.wf(),
    {
        match self {
            RecordReader::AwaitingNonceLen => match outcome {
                ReadOutcome::End(k) => {
                    if k == 0 {
                        Step::CleanEnd
                    } else {
                        Step::Fail(DecodeError::TruncatedStream)
                    }
                },
                ReadOutcome::Bytes(v) => {
                    let nonce_len: usize = crate::be::u16_be([v[0], v[1]]);
                    proof {
                        assert([v[0], v[1]]@ =~= v@);
                    }
                    if nonce_len > NONCE_LEN_MAX {
                        Step::Fail(DecodeError::FieldTooLarge(Field::Nonce))
                    } else {
                        Step::More(RecordReader::AwaitingNonce { nonce_len })
                    }
                },
            },
            RecordReader::AwaitingNonce { .. } => match outcome {
                ReadOutcome::End(_) => Step::Fail(DecodeError::TruncatedStream),
                ReadOutcome::Bytes(v) => Step::More(RecordReader::AwaitingIdLen { nonce: v }),
            },
            RecordReader::AwaitingIdLen { nonce } => match outcome {
                ReadOutcome::End(_) => Step::Fail(DecodeError::TruncatedStream),
                ReadOutcome::Bytes(v) => {
                    let id_len: usize = crate::be::u16_be([v[0], v[1]]);
                    proof {
                        assert([v[0], v[1]]@ =~= v@);
                    }
                    if id_len > ID_LEN_MAX {
                        Step::Fail(DecodeError::FieldTooLarge(Field::Id))
                    } else {
                        Step::More(RecordReader::AwaitingId { nonce, id_len })
                    }
                },
            },
            RecordReader::AwaitingId { nonce, .. } => match outcome {
                ReadOutcome::End(_) => Step::Fail(DecodeError::TruncatedStream),
                ReadOutcome::Bytes(v) => Step::More(
                    RecordReader::AwaitingBlobLen { nonce, id: v },
                ),
            },
            RecordReader::AwaitingBlobLen { nonce, id } => match outcome {
                ReadOutcome::End(_) => Step::Fail(DecodeError::TruncatedStream),
                ReadOutcome::Bytes(v) => {
                    let blob_len: u64 = crate::be::u64_be(
                        [v[0], v[1], v[2], v[3], v[4], v[5], v[6], v[7]],
                    );
                    proof {
                        assert([v[0], v[1], v[2], v[3], v[4], v[5], v[6], v[7]]@ =~= v@);
                    }
                    if blob_len > BLOB_LEN_MAX {
                        Step::Fail(DecodeError::FieldTooLarge(Field::Blob))
                    } else {
                        Step::Done(RecordHeader { nonce, id, blob_len })
                    }
                },
            },
        }
    }
}

/// The bytes a reader state has consumed decompose into the record's
/// fields: wherever `st.consumed()` sits in a stream, the length
/// prefixes read back as the lengths held in the state and the byte
/// fields read back as the field bytes held in the state.
proof fn lemma_split_consumed(bytes: Seq<u8>, p0: int, st: RecordReader)
    requires
        st.wf(),
        0 <= p0,
        p0 + st.consumed().len() <= bytes.len(),
        bytes.subrange(p0, p0 + st.consumed().len()) == st.consumed(),
    ensures
        match st {
            RecordReader::AwaitingNonceLen => true,
            RecordReader::AwaitingNonce { nonce_len } => spec_u16_be(bytes.subrange(p0, p0 + 2))
                == nonce_len as u16,
            RecordReader::AwaitingIdLen { nonce } => {
                &&& spec_u16_be(bytes.subrange(p0, p0 + 2)) == nonce@.len() as u16
                &&& bytes.subrange(p0 + 2, p0 + 2 + nonce@.len()) == nonce@
            },
            RecordReader::AwaitingId { nonce, id_len } => {
                &&& spec_u16_be(bytes.subrange(p0, p0 + 2)) == nonce@.len() as u16
                &&& bytes.subrange(p0 + 2, p0 + 2 + nonce@.len()) == nonce@
                &&& spec_u16_be(
                    bytes.subrange(p0 + 2 + nonce@.len(), p0 + 4 + nonce@.len()),
                ) == id_len as u16
            },
            RecordReader::AwaitingBlobLen { nonce, id } => {
                &&& spec_u16_be(bytes.subrange(p0, p0 + 2)) == nonce@.len() as u16
                &&& bytes.subrange(p0 + 2, p0 + 2 + nonce@.len()) == nonce@
                &&& spec_u16_be(
                    bytes.subrange(p0 + 2 + nonce@.len(), p0 + 4 + nonce@.len()),
                ) == id@.len() as u16
                &&& bytes.subrange(
                    p0 + 4 + nonce@.len(),
                    p0 + 4 + nonce@.len() + id@.len(),
                ) == id@
            },
        },
{
    let e = st.consumed();
    match st {
        RecordReader::AwaitingNonceLen => {},
        RecordReader::AwaitingNonce { nonce_len } => {
            lemma_embedded_slice(bytes, p0, e, 0, 2);
            assert(e.subrange(0, 2) =~= spec_u16_bytes(nonce_len as u16));
            lemma_u16_round_trip(nonce_len as u16);
        },
        RecordReader::AwaitingIdLen { nonce } => {
            let nl = nonce@.len() as int;
            lemma_embedded_slice(bytes, p0, e, 0, 2);
            assert(e.subrange(0, 2) =~= spec_u16_bytes(nonce@.len() as u16));
            lemma_embedded_slice(bytes, p0, e, 2, 2 + nl);
            assert(e.subrange(2, 2 + nl) =~= nonce@);
            lemma_u16_round_trip(nonce@.len() as u16);
        },
        RecordReader::AwaitingId { nonce, id_len } => {
            let nl = nonce@.len() as int;
            lemma_embedded_slice(bytes, p0, e, 0, 2);
            assert(e.subrange(0, 2) =~= spec_u16_bytes(nonce@.len() as u16));
            lemma_embedded_slice(bytes, p0, e, 2, 2 + nl);
            assert(e.subrange(2, 2 + nl) =~= nonce@);
            lemma_embedded_slice(bytes, p0, e, 2 + nl, 4 + nl);
            assert(e.subrange(2 + nl, 4 + nl) =~= spec_u16_bytes(id_len as u16));
            lemma_u16_round_trip(nonce@.len() as u16);
            lemma_u16_round_trip(id_len as u16);
        },
        RecordReader::AwaitingBlobLen { nonce, id } => {
            let nl = nonce@.len() as int;
            let il = id@.len() as int;
            lemma_embedded_slice(bytes, p0, e, 0, 2);
            assert(e.subrange(0, 2) =~= spec_u16_bytes(nonce@.len() as u16));
            lemma_embedded_slice(bytes, p0, e, 2, 2 + nl);
            assert(e.subrange(2, 2 + nl) =~= nonce@);
            lemma_embedded_slice(bytes, p0, e, 2 + nl, 4 + nl);
            assert(e.subrange(2 + nl, 4 + nl) =~= spec_u16_bytes(id@.len() as u16));
            lemma_embedded_slice(bytes, p0, e, 4 + nl, 4 + nl + il);
            assert(e.subrange(4 + nl, 4 + nl + il) =~= id@);
            lemma_u16_round_trip(nonce@.len() as u16);
            lemma_u16_round_trip(id@.len() as u16);
        },
    }
}

/// Decoding by single-field steps agrees exactly with the wire-format
/// model: driving a fresh `RecordReader` with one fixed-size read per
/// step returns precisely what `spec_record` says for the starting
/// position — the incremental reader refines the one-shot decoder.
pub fn read_record_header_by_steps(s: &mut ByteStream) -> (r: Result<
    Option<RecordHeader>,
    DecodeError,
>)
    requires
        old(s).wf(),
    ensures
        final(s).wf(),
        final(s).bytes() == old(s).bytes(),
        old(s).cursor() <= final(s).cursor(),
        match spec_record(old(s).bytes(), old(s).cursor()) {
            Ok(None) => r == Ok::<Option<RecordHeader>, DecodeError>(None) && final(s).cursor()
                == old(s).cursor(),
            Ok(Some(p)) => {
                &&& r matches Ok(Some(h))
                &&& h.nonce@ == p.nonce
                &&& h.id@ == p.id
                &&& h.blob_len == p.blob_len
                &&& h.wf()
                &&& final(s).cursor() == p.end
            },
            Err(e) => r == Err::<Option<RecordHeader>, DecodeError>(e),
        },
{
    let ghost bytes = old(s).bytes();
    let ghost p0 = old(s).cursor();
    let mut st = RecordReader::new();
    loop
        invariant
            s.wf(),
            s.bytes() == bytes,
            st.wf(),
            bytes == old(s).bytes(),
            p0 == old(s).cursor(),
            0 <= p0,
            p0 + st.consumed().len() == s.cursor(),
            s.cursor() <= bytes.len(),
            bytes.subrange(p0, s.cursor()) == st.consumed(),
        decreases st.rank(),
    {
        let ghost g_st = st;
        let ghost c = s.cursor();
        let n: usize = st.request();
        let outcome = s.read_request(n);
        let ghost g_out = outcome;
        proof {
            lemma_split_consumed(bytes, p0, g_st);
        }
        match st.step(outcome) {
            Step::More(next) => {
                proof {
                    assert(g_out matches ReadOutcome::Bytes(v) ==> v@ == bytes.subrange(
                        c,
                        c + n as int,
                    ));
                    assert(bytes.subrange(p0, c + n as int) =~= bytes.subrange(p0, c)
                        + bytes.subrange(c, c + n as int));
                    match g_out {
                        ReadOutcome::Bytes(v) => if v@.len() == 2 {
                            lemma_u16_bytes_round_trip(v@);
                        },
                        ReadOutcome::End(_) => {},
                    }
                    assert(bytes.subrange(p0, s.cursor()) == next.consumed());
                }
                st = next;
            },
            Step::Done(h) => {
                proof {
                    assert(g_st matches RecordReader::AwaitingBlobLen { nonce, id } ==> {
                        &&& h.nonce == nonce
                        &&& h.id == id
                    });
                    assert(g_out matches ReadOutcome::Bytes(v) ==> v@ == bytes.subrange(
                        c,
                        c + 8,
                    ) && h.blob_len == spec_u64_be(v@));
                }
                return Ok(Some(h));
            },
            Step::CleanEnd => {
                return Ok(None);
            },
            Step::Fail(e) => {
                return Err(e);
            },
        }
    }
}

} // verus!
