use ebl0::decoder::{encode_record_header, read_record_header};
use ebl0::incremental::{read_record_header_by_steps, RecordReader, Step};
use ebl0::stream::{ByteStream, ReadOutcome};
use ebl0::{DecodeError, Field, RecordHeader};

#[test]
fn step_decode_field_by_field() {
    let r = RecordReader::new();
    assert_eq!(r.request(), 2);
    let r = match r.step(ReadOutcome::Bytes(vec![0, 1])) {
        Step::More(next) => next,
        _ => panic!("expected another read"),
    };
    assert_eq!(r.request(), 1);
    let r = match r.step(ReadOutcome::Bytes(vec![0xab])) {
        Step::More(next) => next,
        _ => panic!("expected another read"),
    };
    assert_eq!(r.request(), 2);
    let r = match r.step(ReadOutcome::Bytes(vec![0, 0])) {
        Step::More(next) => next,
        _ => panic!("expected another read"),
    };
    assert_eq!(r.request(), 0);
    let r = match r.step(ReadOutcome::Bytes(vec![])) {
        Step::More(next) => next,
        _ => panic!("expected another read"),
    };
    assert_eq!(r.request(), 8);
    match r.step(ReadOutcome::Bytes(vec![0, 0, 0, 0, 0, 0, 0, 5])) {
        Step::Done(h) => {
            assert_eq!(h.nonce, vec![0xab]);
            assert_eq!(h.id, Vec::<u8>::new());
            assert_eq!(h.blob_len, 5);
        }
        _ => panic!("expected a complete header"),
    }
}

#[test]
fn step_clean_end_only_at_record_start_with_zero_bytes() {
    assert!(matches!(
        RecordReader::new().step(ReadOutcome::End(0)),
        Step::CleanEnd
    ));
    assert!(matches!(
        RecordReader::new().step(ReadOutcome::End(1)),
        Step::Fail(DecodeError::TruncatedStream)
    ));
}

#[test]
fn step_end_inside_a_later_field_is_truncation() {
    let r = match RecordReader::new().step(ReadOutcome::Bytes(vec![0, 3])) {
        Step::More(next) => next,
        _ => panic!("expected another read"),
    };
    assert!(matches!(
        r.step(ReadOutcome::End(2)),
        Step::Fail(DecodeError::TruncatedStream)
    ));
}

#[test]
fn step_rejects_oversized_lengths() {
    assert!(matches!(
        RecordReader::new().step(ReadOutcome::Bytes(vec![0, 65])),
        Step::Fail(DecodeError::FieldTooLarge(Field::Nonce))
    ));
    let r = match RecordReader::new().step(ReadOutcome::Bytes(vec![0, 0])) {
        Step::More(next) => next,
        _ => panic!("expected another read"),
    };
    let r = match r.step(ReadOutcome::Bytes(vec![])) {
        Step::More(next) => next,
        _ => panic!("expected another read"),
    };
    assert!(matches!(
        r.step(ReadOutcome::Bytes(vec![1, 1])),
        Step::Fail(DecodeError::FieldTooLarge(Field::Id))
    ));
}

#[test]
fn by_steps_agrees_with_one_shot_decoder() {
    let h = RecordHeader {
        nonce: vec![9; 16],
        id: vec![8; 32],
        blob_len: 1234,
    };
    let mut bytes = encode_record_header(&h);
    bytes.push(0xee); // first byte of the blob payload
    let mut one_shot = ByteStream::new(bytes.clone());
    let mut stepped = ByteStream::new(bytes);
    let direct = read_record_header(&mut one_shot);
    let by_steps = read_record_header_by_steps(&mut stepped);
    assert_eq!(direct, by_steps);
    assert_eq!(one_shot.position(), stepped.position());

    let mut empty = ByteStream::new(Vec::new());
    assert_eq!(read_record_header_by_steps(&mut empty), Ok(None));
    assert_eq!(empty.position(), 0);

    let mut short = ByteStream::new(vec![0]);
    assert_eq!(
        read_record_header_by_steps(&mut short),
        Err(DecodeError::TruncatedStream)
    );
}
