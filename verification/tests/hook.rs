use httptester::clock::{now_ms, timestamp_millis};
use httptester::config::{Config, Environment};
use httptester::error::AppError;
use httptester::hook::{enqueue_chunk, BodyEvent, Chunk, HookStream};
use httptester::models::{HookMeta, Timestamp};
use httptester::meta::collect_headers;
use httptester::record::QueueRecord;

fn cfg(vars: &[(&str, &str)]) -> Config {
    let mut env = Environment::new();
    env.set("VAPID_PUBLIC_KEY", "public");
    env.set("VAPID_PRIVATE_KEY", "private");
    for (key, value) in vars {
        env.set(key, value);
    }
    Config::from_env(&env).unwrap()
}

fn envelope(record: &QueueRecord) -> serde_json::Value {
    serde_json::from_slice(&record.payload).unwrap()
}

fn data(record: &QueueRecord) -> Vec<u8> {
    base64::decode(envelope(record)["data"].as_str().unwrap()).unwrap()
}

fn run(mut hook: HookStream, parts: &[&[u8]]) -> Vec<QueueRecord> {
    let mut records = Vec::new();
    let mut parts = parts.iter();
    loop {
        while let Some(record) = hook.next_record("0123456789ab") {
            records.push(record);
        }
        let event = match parts.next() {
            Some(part) => BodyEvent::Data(part.to_vec()),
            None => BodyEvent::End,
        };
        if hook.receive(event).unwrap() {
            break;
        }
    }
    records.push(hook.last_record("0123456789ab"));
    records
}

fn stream(meta: &[u8], body: &[u8]) -> Vec<u8> {
    let mut out = b"WHP1".to_vec();
    out.extend_from_slice(&(meta.len() as u32).to_be_bytes());
    out.extend_from_slice(meta);
    out.extend_from_slice(body);
    out
}

#[test]
fn small_webhook_is_one_chunk() {
    let hook = HookStream::begin("req-1".to_string(), b"{}", None, &cfg(&[]), 1000).ok().unwrap();
    let records = run(hook, &[b"body"]);
    assert_eq!(records.len(), 1);
    assert_eq!(records[0].uuid, "0123456789ab");
    assert_eq!(records[0].send_after_ms, 1000);
    assert_eq!(records[0].attempts, 0);
    assert_eq!(
        String::from_utf8(records[0].payload.clone()).unwrap(),
        format!(
            "{{\"request_id\":\"req-1\",\"chunk_index\":1,\"total_chunks\":1,\"is_last\":true,\"data\":\"{}\"}}",
            base64::encode(stream(b"{}", b"body"))
        )
    );
}

#[test]
fn chunks_make_up_the_stream() {
    let vars = [("CHUNK_DATA_BYTES", "7"), ("CHUNK_DELAY_MS", "20")];
    let body: Vec<u8> = (0..100u8).collect();
    for split in [1usize, 3, 7, 50, 100] {
        let hook = HookStream::begin("req-1".to_string(), b"meta!", None, &cfg(&vars), 5).ok().unwrap();
        let parts: Vec<&[u8]> = body.chunks(split).collect();
        let records = run(hook, &parts);
        let whole = stream(b"meta!", &body);
        assert_eq!(records.len(), whole.len() / 7 + 1);
        let mut joined = Vec::new();
        for (i, record) in records.iter().enumerate() {
            let value = envelope(record);
            let last = i + 1 == records.len();
            assert_eq!(value["request_id"].as_str().unwrap(), "req-1");
            assert_eq!(value["chunk_index"].as_u64().unwrap(), i as u64 + 1);
            assert_eq!(value["is_last"].as_bool().unwrap(), last);
            if last {
                assert_eq!(value["total_chunks"].as_u64().unwrap(), records.len() as u64);
            } else {
                assert!(value["total_chunks"].is_null());
                assert_eq!(data(record).len(), 7);
            }
            assert_eq!(record.send_after_ms, 5 + 20 * i as i64);
            joined.extend_from_slice(&data(record));
        }
        assert_eq!(joined, whole);
    }
}

#[test]
fn stream_that_fills_its_chunks_ends_with_an_empty_one() {
    let vars = [("CHUNK_DATA_BYTES", "5")];
    let hook = HookStream::begin("r".to_string(), b"ab", None, &cfg(&vars), 0).ok().unwrap();
    let records = run(hook, &[b"", b"12345"]);
    assert_eq!(records.len(), 4);
    assert_eq!(data(&records[3]), Vec::<u8>::new());
    assert_eq!(envelope(&records[3])["total_chunks"].as_u64().unwrap(), 4);
}

#[test]
fn envelopes_of_random_webhooks_fit() {
    let body = vec![0xabu8; 90_000];
    let mut ids = Vec::new();
    for size in ["1000", "2400", "100000"] {
        let cfg = cfg(&[("CHUNK_DATA_BYTES", size)]);
        let hook = HookStream::start(b"{}", Some("90000"), &cfg).ok().unwrap();
        let records = run(hook, &[&body]);
        for record in &records {
            assert!(record.payload.len() <= 3000);
        }
        let id = envelope(&records[0])["request_id"].as_str().unwrap().to_string();
        assert_eq!(id.len(), 36);
        assert_eq!(id.as_bytes()[14], b'4');
        assert!(id.chars().all(|c| c == '-' || (c.is_ascii_hexdigit() && !c.is_uppercase())));
        ids.push(id);
    }
    assert!(ids[0] != ids[1] && ids[1] != ids[2]);
}

#[test]
fn chunk_per_byte_up_to_the_limit() {
    let vars = [("CHUNK_DATA_BYTES", "1"), ("MAX_PAYLOAD_BYTES", "991")];
    let hook = HookStream::start(b"", None, &cfg(&vars)).ok().unwrap();
    let records = run(hook, &[&[7u8; 991]]);
    assert_eq!(records.len(), 1000);
    assert_eq!(data(&records[999]), Vec::<u8>::new());
    assert!(records.iter().all(|record| record.payload.len() <= 3000));
}

#[test]
fn webhooks_over_the_limit_are_refused() {
    let cfg = cfg(&[("MAX_PAYLOAD_BYTES", "10")]);
    let begin = |meta: &[u8], length: Option<&str>| {
        HookStream::begin("r".to_string(), meta, length, &cfg, 0)
    };
    let error = begin(&[0; 11], None).err().unwrap();
    assert!(matches!(error, AppError::PayloadExceedsLimit));
    assert_eq!((error.status(), error.message()), (413, "payload exceeds limit".to_string()));
    assert!(begin(&[0; 10], Some("0")).is_ok());
    assert!(matches!(begin(&[0; 10], Some("1")).err().unwrap(), AppError::PayloadExceedsLimit));
    assert!(begin(&[0; 4], Some("+6")).is_ok());
    assert!(matches!(begin(&[0; 4], Some("7")).err().unwrap(), AppError::PayloadExceedsLimit));
    assert!(begin(&[0; 4], Some("seven")).is_ok());
    assert!(begin(&[0; 4], Some("99999999999999999999999999")).is_ok());

    let mut hook = begin(&[0; 4], None).ok().unwrap();
    assert!(matches!(hook.receive(BodyEvent::Data(vec![1; 6])), Ok(false)));
    assert!(matches!(hook.receive(BodyEvent::Data(vec![])), Ok(false)));
    assert!(matches!(
        hook.receive(BodyEvent::Data(vec![1])),
        Err(AppError::PayloadExceedsLimit)
    ));
}

#[test]
fn identifier_without_room_is_refused() {
    let error = HookStream::begin("x".repeat(3000), b"", None, &cfg(&[]), 0).err().unwrap();
    assert!(matches!(error, AppError::ChunkOverheadTooLarge));
    let id = "x".repeat(3000 - 67 - 2 - 12 - 4 - 1);
    let error = HookStream::begin(id, b"", None, &cfg(&[]), 0).err().unwrap();
    assert!(matches!(error, AppError::ChunkSizeTooSmall));
    assert_eq!((error.status(), error.message()), (413, "chunk size too small".to_string()));
}

#[test]
fn body_that_fails_or_is_late_is_refused() {
    let mut hook = HookStream::begin("r".to_string(), b"", None, &cfg(&[]), 0).ok().unwrap();
    let error = hook.receive(BodyEvent::Failed).unwrap_err();
    assert_eq!((error.status(), error.message()), (400, "invalid request body".to_string()));
    let error = hook.receive(BodyEvent::TimedOut).unwrap_err();
    assert_eq!((error.status(), error.message()), (408, "request body timeout".to_string()));
    assert!(matches!(hook.receive(BodyEvent::End), Ok(true)));
}

#[test]
fn chunk_times_that_do_not_fit_are_seen() {
    let vars = [("CHUNK_DATA_BYTES", "4"), ("CHUNK_DELAY_MS", "1")];
    let mut hook = HookStream::begin("r".to_string(), b"", None, &cfg(&vars), i64::MAX - 1).ok().unwrap();
    assert!(hook.can_go_on());
    assert!(hook.next_chunk().is_some());
    assert!(!hook.can_go_on());
    // A delay of this size is negative in its type.
    let vars = [("CHUNK_DATA_BYTES", "4"), ("CHUNK_DELAY_MS", "18446744073709551615")];
    let mut hook = HookStream::begin("r".to_string(), b"", None, &cfg(&vars), 10).ok().unwrap();
    assert!(hook.chunk_ready() && hook.has_number());
    assert_eq!(hook.next_chunk().unwrap().send_after_ms, 10);
    assert_eq!(hook.next_chunk().unwrap().send_after_ms, 9);
    assert!(!hook.chunk_ready());
    assert!(hook.next_chunk().is_none());
    let last = hook.last_chunk();
    assert_eq!((last.index, last.total, last.is_last, last.send_after_ms), (3, Some(3), true, 8));
}

#[test]
fn chunk_becomes_a_record() {
    let chunk = Chunk { index: 3, total: None, is_last: false, data: vec![0xff, 0xfe], send_after_ms: -4 };
    let record = enqueue_chunk("id", "req", chunk);
    assert_eq!(record.uuid, "id");
    assert_eq!(record.send_after_ms, -4);
    assert_eq!(
        record.payload,
        br#"{"request_id":"req","chunk_index":3,"total_chunks":null,"is_last":false,"data":"//4="}"#
            .to_vec()
    );
}

fn header(name: &str, value: Option<&str>) -> (String, Option<String>) {
    (name.to_string(), value.map(str::to_string))
}

#[test]
fn last_header_of_a_name_counts() {
    let raw = vec![
        header("a", Some("1")),
        header("b", None),
        header("a", Some("2")),
        header("c", Some("")),
        header("b", Some("text")),
        header("a", None),
    ];
    let mut headers = collect_headers(&raw);
    headers.sort();
    let expected = vec![
        ("a".to_string(), "<binary>".to_string()),
        ("b".to_string(), "text".to_string()),
        ("c".to_string(), String::new()),
    ];
    assert_eq!(headers, expected);
    assert!(collect_headers(&[]).is_empty());
}

#[test]
fn report_is_json() {
    let raw = vec![header("x-one", Some("a\"b")), header("x-two", None)];
    let time = Timestamp { secs: 1_700_000_000, nanos: 120_000_000 };
    let meta = HookMeta::at(time, "POST", "/hook/1", Some("q=1"), &raw, Some("::1"));
    let json = meta.to_json();
    assert_eq!(
        String::from_utf8(json.clone()).unwrap(),
        concat_json(&[
            r#"{"timestamp":"2023-11-14T22:13:20.120+00:00","method":"POST","path":"/hook/1","#,
            r#""query_string":"q=1","headers":{"x-one":"a\"b","x-two":"<binary>"},"source_ip":"::1"}"#,
        ])
    );
    let value: serde_json::Value = serde_json::from_slice(&json).unwrap();
    assert_eq!(value["headers"]["x-one"].as_str().unwrap(), "a\"b");

    let meta = HookMeta::at(time, "GET", "/", None, &[], None);
    assert_eq!(meta.query_string, "");
    assert_eq!(meta.source_ip, "unknown");
    let value: serde_json::Value = serde_json::from_slice(&meta.to_json()).unwrap();
    assert!(value["headers"].as_object().unwrap().is_empty());
}

fn concat_json(parts: &[&str]) -> String {
    parts.concat()
}

#[test]
fn webhook_starts_at_the_time_of_the_clock() {
    let before = chrono::Utc::now().timestamp_millis();
    let hook = HookStream::start(b"{}", None, &cfg(&[])).ok().unwrap();
    let after = chrono::Utc::now().timestamp_millis();
    let time = hook.last_chunk().send_after_ms;
    assert!(before <= time && time <= after);
}

#[test]
fn milliseconds_are_counted_as_chrono_counts_them() {
    for (secs, nanos) in [(0, 0), (1, 999_999), (1, 1_000_000), (-1, 999_999_999), (-62, 7)] {
        let expected = chrono::DateTime::from_timestamp(secs, nanos).unwrap().timestamp_millis();
        assert_eq!(timestamp_millis(Timestamp { secs, nanos }), expected);
    }
    assert_eq!(timestamp_millis(Timestamp { secs: 12, nanos: 345_678_901 }), 12_345);
    let before = chrono::Utc::now().timestamp_millis();
    let now = now_ms();
    assert!(before <= now && now <= chrono::Utc::now().timestamp_millis());
}

#[test]
fn report_has_the_time_of_the_clock() {
    let before = chrono::Utc::now();
    let meta = HookMeta::now("GET", "/", None, &[], None);
    let after = chrono::Utc::now();
    let time = chrono::DateTime::parse_from_rfc3339(&meta.timestamp).unwrap();
    assert!(before <= time && time <= after);
}
