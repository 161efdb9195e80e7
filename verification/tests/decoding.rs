use ebl0::be::{u16_be, u64_be};
use ebl0::decoder::{encode_preamble, encode_record_header, read_header, read_record_header};
use ebl0::stream::ByteStream;
use ebl0::{DecodeError, Field, RecordHeader, BLOB_LEN_MAX};

fn stream_of(bytes: &[u8]) -> ByteStream {
    ByteStream::new(bytes.to_vec())
}

#[test]
fn u16_be_exact_value() {
    assert_eq!(u16_be([0x12, 0x34]), 0x1234);
    assert_eq!(u16_be([0x00, 0x00]), 0);
    assert_eq!(u16_be([0xff, 0xff]), 0xffff);
}

#[test]
fn u64_be_exact_value() {
    assert_eq!(
        u64_be([0x01, 0x23, 0x45, 0x67, 0x89, 0xab, 0xcd, 0xef]),
        0x0123_4567_89ab_cdef
    );
    assert_eq!(u64_be([0, 0, 0, 0, 0, 0, 0, 25]), 25);
}

#[test]
fn encode_preamble_exact_bytes() {
    assert_eq!(encode_preamble(), vec![0x45, 0x42, 0x4c, 0x30, 0x01]);
}

#[test]
fn encode_record_header_exact_bytes() {
    let h = RecordHeader {
        nonce: vec![0xaa, 0xbb],
        id: vec![0x01],
        blob_len: 3,
    };
    assert_eq!(
        encode_record_header(&h),
        vec![0, 2, 0xaa, 0xbb, 0, 1, 0x01, 0, 0, 0, 0, 0, 0, 0, 3]
    );
}

#[test]
fn valid_preamble_advances_five_bytes() {
    let mut s = stream_of(&[0x45, 0x42, 0x4c, 0x30, 0x01, 0xde, 0xad]);
    assert_eq!(read_header(&mut s), Ok(()));
    assert_eq!(s.position(), 5);
}

#[test]
fn bad_magic_regardless_of_following_byte() {
    for version in [0x00u8, 0x01, 0x02, 0xff] {
        let mut s = stream_of(&[0x45, 0x42, 0x4c, 0x31, version]);
        assert_eq!(read_header(&mut s), Err(DecodeError::BadMagic));
    }
    let mut s = stream_of(&[0x00, 0x00, 0x00, 0x00, 0x01]);
    assert_eq!(read_header(&mut s), Err(DecodeError::BadMagic));
}

#[test]
fn unsupported_version_after_good_magic() {
    for version in [0x00u8, 0x02, 0xff] {
        let mut s = stream_of(&[0x45, 0x42, 0x4c, 0x30, version]);
        assert_eq!(read_header(&mut s), Err(DecodeError::UnsupportedVersion));
    }
}

#[test]
fn preamble_truncated_is_an_error() {
    let mut empty = stream_of(&[]);
    assert_eq!(read_header(&mut empty), Err(DecodeError::TruncatedStream));
    let mut three = stream_of(&[0x45, 0x42, 0x4c]);
    assert_eq!(read_header(&mut three), Err(DecodeError::TruncatedStream));
    let mut four = stream_of(&[0x45, 0x42, 0x4c, 0x30]);
    assert_eq!(read_header(&mut four), Err(DecodeError::TruncatedStream));
}

#[test]
fn record_round_trip() {
    let h = RecordHeader {
        nonce: (0..64u8).collect(),
        id: vec![7; 256],
        blob_len: BLOB_LEN_MAX,
    };
    let mut s = ByteStream::new(encode_record_header(&h));
    let got = read_record_header(&mut s).unwrap().unwrap();
    assert_eq!(got.nonce, h.nonce);
    assert_eq!(got.id, h.id);
    assert_eq!(got.blob_len, h.blob_len);
    assert_eq!(read_record_header(&mut s), Ok(None));
}

#[test]
fn nonce_len_boundary() {
    let h = RecordHeader {
        nonce: vec![1; 64],
        id: vec![],
        blob_len: 0,
    };
    let mut ok = ByteStream::new(encode_record_header(&h));
    let got = read_record_header(&mut ok).unwrap().unwrap();
    assert_eq!(got.nonce.len(), 64);

    let mut too_large = stream_of(&[0, 65]);
    assert_eq!(
        read_record_header(&mut too_large),
        Err(DecodeError::FieldTooLarge(Field::Nonce))
    );
}

#[test]
fn id_len_boundary() {
    let h = RecordHeader {
        nonce: vec![],
        id: vec![2; 256],
        blob_len: 0,
    };
    let mut ok = ByteStream::new(encode_record_header(&h));
    let got = read_record_header(&mut ok).unwrap().unwrap();
    assert_eq!(got.id.len(), 256);

    let mut too_large = stream_of(&[0, 0, 1, 1]);
    assert_eq!(
        read_record_header(&mut too_large),
        Err(DecodeError::FieldTooLarge(Field::Id))
    );
}

#[test]
fn blob_len_boundary() {
    let mut at_cap = stream_of(&[0, 0, 0, 0, 0, 0, 0, 0x19, 0, 0, 0, 0]);
    let got = read_record_header(&mut at_cap).unwrap().unwrap();
    assert_eq!(got.blob_len, BLOB_LEN_MAX);
    assert_eq!(got.blob_len, 100 * 1024 * 1024 * 1024);

    let mut over_cap = stream_of(&[0, 0, 0, 0, 0, 0, 0, 0x19, 0, 0, 0, 1]);
    assert_eq!(
        read_record_header(&mut over_cap),
        Err(DecodeError::FieldTooLarge(Field::Blob))
    );
}

#[test]
fn preamble_only_stream_has_zero_records() {
    let mut s = ByteStream::new(encode_preamble());
    assert_eq!(read_header(&mut s), Ok(()));
    assert_eq!(read_record_header(&mut s), Ok(None));
}

#[test]
fn one_byte_of_nonce_len_is_truncation_not_clean_end() {
    let mut s = stream_of(&[0x00]);
    assert_eq!(read_record_header(&mut s), Err(DecodeError::TruncatedStream));
}

#[test]
fn truncation_inside_each_field_position() {
    // one byte short of the declared nonce
    let mut in_nonce = stream_of(&[0, 2, 0xaa]);
    assert_eq!(
        read_record_header(&mut in_nonce),
        Err(DecodeError::TruncatedStream)
    );
    // one byte of the two-byte id length
    let mut in_id_len = stream_of(&[0, 1, 0xaa, 0]);
    assert_eq!(
        read_record_header(&mut in_id_len),
        Err(DecodeError::TruncatedStream)
    );
    // one byte short of the declared id
    let mut in_id = stream_of(&[0, 0, 0, 2, 0x01]);
    assert_eq!(
        read_record_header(&mut in_id),
        Err(DecodeError::TruncatedStream)
    );
    // only seven of the eight blob-length bytes
    let mut in_blob_len = stream_of(&[0, 0, 0, 0, 0, 0, 0, 0, 0, 0, 0]);
    assert_eq!(
        read_record_header(&mut in_blob_len),
        Err(DecodeError::TruncatedStream)
    );
}

#[test]
fn two_records_back_to_back_decode_in_order() {
    let h1 = RecordHeader {
        nonce: vec![0x11; 3],
        id: vec![0x22; 4],
        blob_len: 5,
    };
    let h2 = RecordHeader {
        nonce: vec![0x33; 2],
        id: vec![0x44],
        blob_len: 0,
    };
    let mut bytes = encode_preamble();
    bytes.extend_from_slice(&encode_record_header(&h1));
    bytes.extend_from_slice(&[0xf0; 5]); // h1's blob payload
    bytes.extend_from_slice(&encode_record_header(&h2));
    let mut s = ByteStream::new(bytes);

    assert_eq!(read_header(&mut s), Ok(()));
    let got1 = read_record_header(&mut s).unwrap().unwrap();
    assert_eq!(got1.nonce, h1.nonce);
    assert_eq!(got1.id, h1.id);
    assert_eq!(got1.blob_len, 5);
    assert_eq!(s.skip(got1.blob_len), Ok(()));
    let got2 = read_record_header(&mut s).unwrap().unwrap();
    assert_eq!(got2.nonce, h2.nonce);
    assert_eq!(got2.id, h2.id);
    assert_eq!(got2.blob_len, 0);
    assert_eq!(read_record_header(&mut s), Ok(None));
}

#[test]
fn skipping_too_far_is_truncation() {
    let mut s = stream_of(&[1, 2, 3]);
    assert_eq!(s.skip(4), Err(DecodeError::TruncatedStream));
    assert_eq!(s.position(), 0);
    assert_eq!(s.skip(3), Ok(()));
    assert_eq!(s.position(), 3);
}

#[test]
fn clean_end_does_not_advance_the_stream() {
    let mut s = ByteStream::new(encode_preamble());
    assert_eq!(read_header(&mut s), Ok(()));
    let end = s.position();
    assert_eq!(read_record_header(&mut s), Ok(None));
    assert_eq!(s.position(), end);
    assert_eq!(read_record_header(&mut s), Ok(None));
    assert_eq!(s.position(), end);
}
