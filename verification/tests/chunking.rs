use httptester::chunking::{envelope_overhead_bytes, max_chunk_data_bytes, resolve_chunk_size};
use httptester::envelope::ChunkEnvelope;
use httptester::error::AppError;

#[test]
fn chunk_size_uses_the_room_that_is_left() {
    assert_eq!(max_chunk_data_bytes(2400, 0).unwrap(), 2250);
    assert_eq!(max_chunk_data_bytes(100, 0).unwrap(), 100);
    assert_eq!(max_chunk_data_bytes(usize::MAX, 2996).unwrap(), 3);
    assert_eq!(max_chunk_data_bytes(2, 2996).unwrap(), 2);
    assert!(matches!(max_chunk_data_bytes(2400, 2997), Err(AppError::ChunkSizeTooSmall)));
    assert!(matches!(max_chunk_data_bytes(0, 0), Err(AppError::ChunkSizeTooSmall)));
    assert!(matches!(max_chunk_data_bytes(2400, 3000), Err(AppError::ChunkOverheadTooLarge)));
    assert!(matches!(
        max_chunk_data_bytes(2400, usize::MAX),
        Err(AppError::ChunkOverheadTooLarge)
    ));
}

#[test]
fn one_more_byte_would_not_fit() {
    for overhead in 0..2997usize {
        let size = max_chunk_data_bytes(usize::MAX, overhead).unwrap();
        assert!(overhead + 4 * ((size + 2) / 3) <= 3000);
        assert!(overhead + 4 * ((size + 3) / 3) > 3000);
    }
}

#[test]
fn overhead_is_the_size_of_an_empty_envelope() {
    let expected = br#"{"request_id":"req-1","chunk_index":12,"total_chunks":34,"is_last":true,"data":""}"#;
    assert_eq!(envelope_overhead_bytes("req-1", 12, Some(34), true), expected.len());
    let expected = br#"{"request_id":"a\"b","chunk_index":1,"total_chunks":null,"is_last":false,"data":""}"#;
    assert_eq!(envelope_overhead_bytes("a\"b", 1, None, false), expected.len());
}

#[test]
fn long_identifiers_leave_no_room() {
    let id = "x".repeat(3000);
    assert!(matches!(
        resolve_chunk_size(&id, 2400, 100),
        Err(AppError::ChunkOverheadTooLarge)
    ));
}

#[test]
fn chunk_size_for_a_default_webhook() {
    // The limit has six digits and the identifier five characters.
    assert_eq!(envelope_overhead_bytes("req-1", 102_408, Some(102_408), true), 90);
    assert_eq!(resolve_chunk_size("req-1", 2400, 102_408).unwrap(), 2181);
    assert_eq!(resolve_chunk_size("req-1", 2400, 0).unwrap(), 2190);
}

#[test]
fn envelope_is_json() {
    let envelope = ChunkEnvelope {
        request_id: "a\"b\\c\u{1}\u{e9}\n".to_string(),
        chunk_index: usize::MAX,
        total_chunks: None,
        is_last: false,
        data: "QUJD".to_string(),
    };
    let json = envelope.to_json();
    let value: serde_json::Value = serde_json::from_slice(&json).unwrap();
    assert_eq!(value["request_id"].as_str().unwrap(), "a\"b\\c\u{1}\u{e9}\n");
    assert_eq!(value["chunk_index"].as_u64().unwrap(), usize::MAX as u64);
    assert!(value["total_chunks"].is_null());
    assert_eq!(value["is_last"].as_bool().unwrap(), false);
    assert_eq!(value["data"].as_str().unwrap(), "QUJD");

    let envelope = ChunkEnvelope {
        request_id: "req-1".to_string(),
        chunk_index: 0,
        total_chunks: Some(10),
        is_last: true,
        data: String::new(),
    };
    assert_eq!(
        envelope.to_json(),
        br#"{"request_id":"req-1","chunk_index":0,"total_chunks":10,"is_last":true,"data":""}"#
            .to_vec()
    );
}

#[test]
fn inner_envelopes_of_a_uuid_fit_at_every_limit() {
    let id = "123e4567-e89b-42d3-a456-426614174000";
    for total in 8..12_000usize {
        for configured in [1usize, 2, 3, 2149, 2400] {
            let size = resolve_chunk_size(id, configured, total).unwrap();
            let data = 4 * ((size + 2) / 3);
            let index = total / size;
            if index > 0 {
                assert!(envelope_overhead_bytes(id, index, None, false) + data <= 3000);
            }
        }
    }
}
