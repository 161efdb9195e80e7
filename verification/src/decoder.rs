//! The two readers of the format: preamble validation and record-header
//! decoding, each proved to behave exactly as the wire-format model says,
//! together with the matching executable encoders.

use crate::be::{push_u16_be, push_u64_be, u16_be, u64_be};
use crate::format::{
    spec_encode_record, spec_magic, spec_preamble, spec_preamble_bytes, spec_record,
};
use crate::stream::ByteStream;
use crate::{
    DecodeError, Field, RecordHeader, BLOB_LEN_MAX, ID_LEN_MAX, NONCE_LEN_MAX, PREAMBLE_LEN,
    VERSION,
};
use vstd::prelude::*;

verus! {

/// Validates the five-byte preamble at the current position: consumes the
/// four magic bytes and the version byte, and succeeds exactly when the
/// model accepts them. On success the cursor has advanced by exactly the
/// preamble length; on failure the stream must not be used further.
pub fn read_header(s: &mut ByteStream) -> (r: Result<(), DecodeError>)
    requires
        old(s).wf(),
    ensures
        final(s).wf(),
        final(s).bytes() == old(s).bytes(),
        old(s).cursor() <= final(s).cursor(),
        r == spec_preamble(old(s).bytes(), old(s).cursor()),
        r matches Ok(_) ==> final(s).cursor() == old(s).cursor() + PREAMBLE_LEN as int,
{
    let magic = match s.read_exact(4) {
        Ok(v) => v,
        Err(e) => {
            return Err(e);
        },
    };
    // "EBL0"
    if !(magic[0] == 0x45 && magic[1] == 0x42 && magic[2] == 0x4c && magic[3] == 0x30) {
        proof {
            assert(magic@ != spec_magic());
        }
        return Err(DecodeError::BadMagic);
    }
    proof {
        assert(magic@ =~= spec_magic());
    }
    let ver = match s.read_exact(1) {
        Ok(v) => v,
        Err(e) => {
            return Err(e);
        },
    };
    if ver[0] != VERSION {
        proof {
            assert(old(s).bytes()[old(s).cursor() + 4] == ver@[0]);
        }
        return Err(DecodeError::UnsupportedVersion);
    }
    proof {
        assert(old(s).bytes()[old(s).cursor() + 4] == ver@[0]);
    }
    Ok(())
}

/// Decodes one record header at the current position, or reports the clean
/// end of the record sequence. The result is exactly what the wire-format
/// model says for the bytes at the cursor: `Ok(None)` with the cursor
/// untouched when the stream ends exactly here, a fully validated header
/// with the cursor on the first blob byte, or the model's error. The
/// caller must consume exactly `blob_len` bytes before calling again.
pub fn read_record_header(s: &mut ByteStream) -> (r: Result<Option<RecordHeader>, DecodeError>)
    requires
        old(s).wf(),
    ensures
        final(s).wf(),
        final(s).bytes() == old(s).bytes(),
        old(s).cursor() <= final(s).cursor(),
        match spec_record(old(s).bytes(), old(s).cursor()) {
            Ok(None) => r == Ok::<Option<RecordHeader>, DecodeError>(None) && final(s).cursor()
                == old(s).cursor(),
            Ok(Some(p)) => {
                &&& r matches Ok(Some(h))
                &&& h.nonce@ == p.nonce
                &&& h.id@ == p.id
                &&& h.blob_len == p.blob_len
                &&& h.wf()
                &&& final(s).cursor() == p.end
            },
            Err(e) => r == Err::<Option<RecordHeader>, DecodeError>(e),
        },
{
    let ghost bytes = old(s).bytes();
    let ghost p0 = old(s).cursor();
    if s.at_end() {
        return Ok(None);
    }
    let lb = match s.read_exact(2) {
        Ok(v) => v,
        Err(e) => {
            return Err(e);
        },
    };
    let nonce_len: usize = u16_be([lb[0], lb[1]]);
    proof {
        assert(lb@ =~= bytes.subrange(p0, p0 + 2));
        assert([lb[0], lb[1]]@ =~= lb@);
    }
    if nonce_len > NONCE_LEN_MAX {
        return Err(DecodeError::FieldTooLarge(Field::Nonce));
    }
    let nonce = match s.read_exact(nonce_len) {
        Ok(v) => v,
        Err(e) => {
            return Err(e);
        },
    };
    let ghost p1 = p0 + 2 + nonce_len as int;
    let ib = match s.read_exact(2) {
        Ok(v) => v,
        Err(e) => {
            return Err(e);
        },
    };
    let id_len: usize = u16_be([ib[0], ib[1]]);
    proof {
        assert(ib@ =~= bytes.subrange(p1, p1 + 2));
        assert([ib[0], ib[1]]@ =~= ib@);
    }
    if id_len > ID_LEN_MAX {
        return Err(DecodeError::FieldTooLarge(Field::Id));
    }
    let id = match s.read_exact(id_len) {
        Ok(v) => v,
        Err(e) => {
            return Err(e);
        },
    };
    let ghost p2 = p1 + 2 + id_len as int;
    let bb = match s.read_exact(8) {
        Ok(v) => v,
        Err(e) => {
            return Err(e);
        },
    };
    let blob_len: u64 = u64_be([bb[0], bb[1], bb[2], bb[3], bb[4], bb[5], bb[6], bb[7]]);
    proof {
        assert(bb@ =~= bytes.subrange(p2, p2 + 8));
        assert([bb[0], bb[1], bb[2], bb[3], bb[4], bb[5], bb[6], bb[7]]@ =~= bb@);
    }
    if blob_len > BLOB_LEN_MAX {
        return Err(DecodeError::FieldTooLarge(Field::Blob));
    }
    Ok(Some(RecordHeader { nonce, id, blob_len }))
}

/// Encodes the five preamble bytes that `read_header` accepts.
pub fn encode_preamble() -> (v: Vec<u8>)
    ensures
        v@ == spec_preamble_bytes(),
{
    let mut v: Vec<u8> = Vec::new();
    v.push(0x45);
    v.push(0x42);
    v.push(0x4c);
    v.push(0x30);
    v.push(VERSION);
    proof {
        assert(v@ =~= spec_preamble_bytes());
    }
    v
}

/// Appends every byte of `b` to `out`.
fn push_bytes(out: &mut Vec<u8>, b: &Vec<u8>)
    ensures
        final(out)@ == old(out)@ + b@,
{
    let mut i: usize = 0;
    while i < b.len()
        invariant
            i <= b@.len(),
            out@ == old(out)@ + b@.subrange(0, i as int),
        decreases b@.len() - i,
    {
        out.push(b[i]);
        proof {
            assert(out@ =~= old(out)@ + b@.subrange(0, i + 1));
        }
        i = i + 1;
    }
    proof {
        assert(old(out)@ + b@.subrange(0, b@.len() as int) =~= old(out)@ + b@);
    }
}

/// Encodes a record header into the exact byte sequence that decodes back
/// to it. The blob payload is not part of the encoding.
pub fn encode_record_header(h: &RecordHeader) -> (v: Vec<u8>)
    requires
        h.wf(),
    ensures
        v@ == spec_encode_record(h.nonce@, h.id@, h.blob_len),
{
    let mut v: Vec<u8> = Vec::new();
    push_u16_be(&mut v, h.nonce.len() as u16);
    push_bytes(&mut v, &h.nonce);
    push_u16_be(&mut v, h.id.len() as u16);
    push_bytes(&mut v, &h.id);
    push_u64_be(&mut v, h.blob_len);
    proof {
        assert(v@ =~= spec_encode_record(h.nonce@, h.id@, h.blob_len));
    }
    v
}

} // verus!
