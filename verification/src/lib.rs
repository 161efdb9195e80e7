//! Streaming decoder for the "EBL0" length-prefixed binary container format.
//!
//! A stream is a five-byte preamble (four magic bytes and a version byte)
//! followed by zero or more records. Each record header declares a nonce
//! (at most 64 bytes), an identifier (at most 256 bytes) and the length of
//! an opaque blob payload (at most 100 GiB) that follows the header in the
//! stream but is consumed by the caller, never by this library.

pub mod be;
pub mod decoder;
pub mod format;
pub mod incremental;
pub mod stream;

use vstd::prelude::*;

verus! {

/// Number of bytes in the stream preamble: four magic bytes and one version byte.
pub const PREAMBLE_LEN: usize = 5;

/// Largest allowed nonce length in bytes.
pub const NONCE_LEN_MAX: usize = 64;

/// Largest allowed identifier length in bytes.
pub const ID_LEN_MAX: usize = 256;

/// Largest allowed declared blob length in bytes (100 GiB).
pub const BLOB_LEN_MAX: u64 = 100 * 1024 * 1024 * 1024;

/// The only format revision this decoder accepts.
pub const VERSION: u8 = 1;

/// The record-header field whose declared length exceeded its cap.
#[derive(Clone, Copy, Debug, PartialEq, Eq, Structural)]
pub enum Field {
    Nonce,
    Id,
    Blob,
}

/// Why a decode of the stream was aborted. Every error is fatal to the
/// stream; a clean end of the record sequence is not an error.
#[derive(Clone, Copy, Debug, PartialEq, Eq, Structural)]
pub enum DecodeError {
    /// The first four bytes of the stream are not the magic.
    BadMagic,
    /// The fifth byte of the stream is not a supported version.
    UnsupportedVersion,
    /// The stream ended inside a field, or inside the preamble.
    TruncatedStream,
    /// A declared field length exceeds the fixed cap for that field.
    FieldTooLarge(Field),
}

/// One decoded record header. The blob payload that follows it in the
/// stream is not part of the value; the caller must consume exactly
/// `blob_len` bytes before decoding the next header.
#[derive(Clone, Debug, PartialEq, Eq)]
pub struct RecordHeader {
    pub nonce: Vec<u8>,
    pub id: Vec<u8>,
    pub blob_len: u64,
}

impl RecordHeader {
    /// Every field within its cap: the only shape the decoder ever returns.
    pub open spec fn wf(&self) -> bool {
        &&& self.nonce@.len() <= NONCE_LEN_MAX as int
        &&& self.id@.len() <= ID_LEN_MAX as int
        &&& self.blob_len <= BLOB_LEN_MAX
    }
}

/// What decoding one record header from the stream model yields: the field
/// bytes, the declared blob length, and the stream position just past the
/// header (the first byte of the blob payload).
pub ghost struct ParsedRecord {
    pub nonce: Seq<u8>,
    pub id: Seq<u8>,
    pub blob_len: u64,
    pub end: int,
}

} // verus!
