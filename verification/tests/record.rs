use httptester::error::AppError;
use httptester::record::{decode_record, encode_record, push_be, read_be, QueueRecord};

fn record(uuid: &str, payload: &[u8], send_after_ms: i64, attempts: u32) -> QueueRecord {
    QueueRecord { uuid: uuid.to_string(), payload: payload.to_vec(), send_after_ms, attempts }
}

#[test]
fn record_has_its_layout() {
    let data = encode_record(&record("ab", b"xyz", 0x0102_0304_0506_0708, 0x0a0b_0c0d)).unwrap();
    assert_eq!(
        data,
        vec![
            2, b'a', b'b', 1, 2, 3, 4, 5, 6, 7, 8, 10, 11, 12, 13, 0, 0, 0, 3, b'x', b'y', b'z'
        ]
    );
}

#[test]
fn negative_times_are_kept() {
    for time in [-1i64, i64::MIN, i64::MAX, 0, -1_234_567_890_123] {
        let data = encode_record(&record("id", b"", time, 0)).unwrap();
        assert_eq!(data[3..11], time.to_be_bytes());
        assert_eq!(decode_record(&data).unwrap().send_after_ms, time);
    }
}

#[test]
fn records_are_read_back() {
    let written = record("0123456789a\u{e9}", &[0, 255, 7], 1_700_000_000_123, u32::MAX);
    let mut data = encode_record(&written).unwrap();
    let read = decode_record(&data).unwrap();
    assert_eq!(read.uuid, written.uuid);
    assert_eq!(read.payload, written.payload);
    assert_eq!(read.send_after_ms, written.send_after_ms);
    assert_eq!(read.attempts, written.attempts);
    assert_eq!(encode_record(&read).unwrap(), data);

    data.extend_from_slice(b"rest");
    assert_eq!(decode_record(&data).unwrap().payload, written.payload);
}

#[test]
fn new_records_have_no_attempts() {
    let new = QueueRecord::new("id", vec![1], 5);
    assert_eq!(new.uuid, "id");
    assert_eq!(new.payload, vec![1]);
    assert_eq!(new.send_after_ms, 5);
    assert_eq!(new.attempts, 0);
}

#[test]
fn long_identifiers_are_refused() {
    assert!(encode_record(&record(&"x".repeat(255), b"", 0, 0)).is_ok());
    let error = encode_record(&record(&"x".repeat(256), b"", 0, 0)).unwrap_err();
    assert!(matches!(error, AppError::UuidTooLong));
    assert_eq!(error.status(), 500);
    let error = encode_record(&record(&"\u{e9}".repeat(128), b"", 0, 0)).unwrap_err();
    assert!(matches!(error, AppError::UuidTooLong));
}

#[test]
fn corrupt_records_are_refused() {
    let data = encode_record(&record("ab", b"xyz", 1, 2)).unwrap();
    for len in 0..data.len() {
        assert!(matches!(decode_record(&data[..len]), Err(AppError::QueueRecordCorrupt)));
    }
    let mut broken = data.clone();
    broken[1] = 0xff;
    assert!(matches!(decode_record(&broken), Err(AppError::QueueRecordCorrupt)));
    let mut broken = data;
    broken[15] = 0xff;
    let error = decode_record(&broken).unwrap_err();
    assert_eq!(error.message(), "queue record corrupt");
}

#[test]
fn big_endian_numbers() {
    let mut out = vec![9u8];
    push_be(&mut out, 0x0102_0304, 4);
    assert_eq!(out, vec![9, 1, 2, 3, 4]);
    assert_eq!(read_be(&out, 1, 4), 0x0102_0304);
    assert_eq!(read_be(&out, 0, 2), 0x0901);
    assert_eq!(read_be(&[0xff; 8], 0, 8), u64::MAX);
    assert_eq!(read_be(&out, 3, 0), 0);
}
