use std::collections::{BTreeMap, BTreeSet};

use httptester::error::AppError;
use httptester::queue::{
    check_enqueue, drop_inflight, enqueue_answer, enqueue_record, init_queue_db, requeue_inflight, ClaimScan,
    QueueMeta, QueueWrite, WriterReply,
};
use httptester::record::{decode_record, encode_record, QueueRecord};
use httptester::worker::{after_send, AfterSend, Delivery};

struct Tables {
    pending: BTreeMap<u64, Vec<u8>>,
    inflight: BTreeMap<u64, Vec<u8>>,
    meta: QueueMeta,
}

impl Tables {
    fn new() -> Self {
        Tables {
            pending: BTreeMap::new(),
            inflight: BTreeMap::new(),
            meta: QueueMeta { next_seq: None, queue_bytes: None },
        }
    }

    fn apply(&mut self, writes: Vec<QueueWrite>) {
        for write in writes {
            match write {
                QueueWrite::PutPending(seq, data) => {
                    self.pending.insert(seq, data);
                }
                QueueWrite::RemovePending(seq) => {
                    self.pending.remove(&seq);
                }
                QueueWrite::PutInflight(seq, data) => {
                    self.inflight.insert(seq, data);
                }
                QueueWrite::RemoveInflight(seq) => {
                    self.inflight.remove(&seq);
                }
                QueueWrite::SetNextSeq(n) => self.meta.next_seq = Some(n),
                QueueWrite::SetQueueBytes(n) => self.meta.queue_bytes = Some(n),
            }
        }
    }

    fn enqueue(&mut self, record: &QueueRecord, max: u64) -> Result<(), AppError> {
        let writes = enqueue_record(self.meta, record, max)?;
        self.apply(writes);
        Ok(())
    }

    fn claim(&mut self, now_ms: i64) -> Option<(u64, Vec<u8>)> {
        let mut scan = ClaimScan::new(now_ms);
        for (seq, data) in self.pending.iter() {
            if scan.offer(*seq, data.clone()) {
                break;
            }
        }
        let (found, writes) = scan.claim_next();
        self.apply(writes);
        found
    }

    fn drop(&mut self, seq: u64) {
        let len = self.inflight.get(&seq).map(|data| data.len());
        let writes = drop_inflight(self.meta, seq, len);
        self.apply(writes);
    }

    fn bytes(&self) -> u64 {
        let all = self.pending.values().chain(self.inflight.values());
        all.map(|data| data.len() as u64).sum()
    }

    fn check(&self) {
        assert_eq!(self.meta.queue_bytes.unwrap_or(0), self.bytes());
        let next = self.meta.next_seq.unwrap_or(0);
        assert!(self.pending.keys().all(|seq| *seq < next && !self.inflight.contains_key(seq)));
        assert!(self.inflight.keys().all(|seq| *seq < next));
    }
}

fn record(payload: &[u8], send_after_ms: i64) -> QueueRecord {
    QueueRecord::new("0123456789ab", payload.to_vec(), send_after_ms)
}

#[test]
fn init_keeps_what_is_there() {
    let mut tables = Tables::new();
    tables.apply(init_queue_db(tables.meta));
    assert_eq!(tables.meta, QueueMeta { next_seq: Some(0), queue_bytes: Some(0) });
    let meta = QueueMeta { next_seq: Some(7), queue_bytes: Some(9) };
    assert!(init_queue_db(meta).is_empty());
    let writes = init_queue_db(QueueMeta { next_seq: Some(7), queue_bytes: None });
    assert_eq!(writes.len(), 1);
    assert!(matches!(writes[0], QueueWrite::SetQueueBytes(0)));
    let writes = init_queue_db(QueueMeta { next_seq: None, queue_bytes: Some(9) });
    assert_eq!(writes.len(), 1);
    assert!(matches!(writes[0], QueueWrite::SetNextSeq(0)));
}

#[test]
fn queue_is_first_in_first_out_among_ready_records() {
    let mut tables = Tables::new();
    tables.enqueue(&record(b"late", 500), 1000).unwrap();
    tables.enqueue(&record(b"first", 100), 1000).unwrap();
    tables.enqueue(&record(b"second", 50), 1000).unwrap();
    tables.check();
    assert!(tables.claim(49).is_none());
    let (seq, data) = tables.claim(100).unwrap();
    assert_eq!(seq, 1);
    assert_eq!(decode_record(&data).unwrap().payload, b"first");
    tables.check();
    assert_eq!(tables.claim(100).unwrap().0, 2);
    assert!(tables.claim(100).is_none());
    assert_eq!(tables.claim(500).unwrap().0, 0);
    tables.check();
    assert_eq!(tables.inflight.len(), 3);
}

#[test]
fn full_queue_refuses_and_stays_as_it_is() {
    let mut tables = Tables::new();
    let one = record(b"xyz", 0);
    let size = encode_record(&one).unwrap().len() as u64;
    assert_eq!(size, 17 + 12 + 3);
    tables.enqueue(&one, 2 * size).unwrap();
    tables.enqueue(&one, 2 * size).unwrap();
    let error = tables.enqueue(&one, 2 * size).unwrap_err();
    assert!(matches!(error, AppError::QueueFull));
    assert_eq!(error.status(), 503);
    assert_eq!(error.message(), "queue full");
    assert_eq!(tables.pending.len(), 2);
    assert_eq!(tables.meta, QueueMeta { next_seq: Some(2), queue_bytes: Some(2 * size) });
    let (seq, _) = tables.claim(0).unwrap();
    assert!(tables.enqueue(&one, 2 * size).is_err());
    tables.drop(seq);
    tables.check();
    tables.enqueue(&one, 2 * size).unwrap();
    tables.check();
}

#[test]
fn record_that_cannot_be_laid_out_is_refused_first() {
    let long = QueueRecord::new(&"x".repeat(300), vec![], 0);
    let meta = QueueMeta { next_seq: None, queue_bytes: Some(u64::MAX) };
    assert!(matches!(enqueue_record(meta, &long, 0), Err(AppError::UuidTooLong)));
    assert!(matches!(check_enqueue(meta, &long, 0), Err(AppError::UuidTooLong)));
    assert!(matches!(check_enqueue(meta, &record(b"", 0), u64::MAX - 1), Err(AppError::QueueFull)));
    let room = QueueMeta { next_seq: Some(u64::MAX), queue_bytes: None };
    let short = record(b"xy", 0);
    assert_eq!(check_enqueue(room, &short, 31).unwrap(), encode_record(&short).unwrap());
    assert!(matches!(check_enqueue(room, &short, 30), Err(AppError::QueueFull)));
    assert!(matches!(requeue_inflight(meta, 0, &long), Err(AppError::UuidTooLong)));
}

#[test]
fn queue_over_a_smaller_limit_does_not_grow() {
    let mut tables = Tables::new();
    tables.enqueue(&record(b"abc", 0), 1000).unwrap();
    tables.enqueue(&record(b"abc", 0), 1000).unwrap();
    let before = tables.bytes();
    assert!(tables.enqueue(&record(b"", 0), 40).is_err());
    let (seq, _) = tables.claim(0).unwrap();
    assert_eq!(tables.bytes(), before);
    tables.drop(seq);
    assert!(tables.bytes() < before);
    tables.check();
}

#[test]
fn unreadable_records_are_claimed_at_once() {
    let mut tables = Tables::new();
    tables.pending.insert(3, vec![1, 2, 3]);
    assert_eq!(tables.claim(i64::MIN).unwrap(), (3, vec![1, 2, 3]));
}

#[test]
fn dropping_what_is_not_there_changes_nothing() {
    let meta = QueueMeta { next_seq: Some(1), queue_bytes: Some(5) };
    assert!(drop_inflight(meta, 0, None).is_empty());
    let writes = drop_inflight(meta, 0, Some(9));
    assert!(matches!(writes[0], QueueWrite::RemoveInflight(0)));
    assert!(matches!(writes[1], QueueWrite::SetQueueBytes(0)));
}

#[test]
fn retry_waits_behind_all_others_and_keeps_the_count() {
    let mut tables = Tables::new();
    tables.enqueue(&record(b"a", 0), 1000).unwrap();
    tables.enqueue(&record(b"b", 0), 1000).unwrap();
    let (seq, data) = tables.claim(0).unwrap();
    let before = tables.meta.queue_bytes;
    let delivery = Delivery { seq, record: decode_record(&data).unwrap() };
    match after_send(delivery, false, 1000) {
        AfterSend::Requeue(seq, retry) => {
            let writes = requeue_inflight(tables.meta, seq, &retry).unwrap();
            tables.apply(writes);
        }
        AfterSend::Drop(_) => panic!("given up"),
    }
    tables.check();
    assert_eq!(tables.meta.queue_bytes, before);
    assert_eq!(tables.claim(5000).unwrap().0, 1);
    let (seq, data) = tables.claim(1500).unwrap();
    assert_eq!(seq, 2);
    let retry = decode_record(&data).unwrap();
    assert_eq!(retry.payload, b"a");
    assert_eq!(retry.attempts, 1);
    assert_eq!(retry.send_after_ms, 1500);
}

#[test]
fn search_goes_on_past_the_first_find() {
    let mut scan = ClaimScan::new(10);
    assert!(!scan.offer(4, encode_record(&record(b"x", 11)).unwrap()));
    assert!(scan.offer(5, encode_record(&record(b"y", 10)).unwrap()));
    assert!(scan.offer(6, encode_record(&record(b"z", 0)).unwrap()));
    let (found, writes) = scan.claim_next();
    assert_eq!(found.unwrap().0, 5);
    assert!(matches!(writes[0], QueueWrite::PutInflight(5, _)));
    assert!(matches!(writes[1], QueueWrite::RemovePending(5)));
    let (found, writes) = ClaimScan::new(10).claim_next();
    assert!(found.is_none() && writes.is_empty());
}

#[test]
fn senders_are_answered() {
    let busy = enqueue_answer(WriterReply::Busy).unwrap_err();
    assert_eq!((busy.status(), busy.message()), (503, "queue writer busy".to_string()));
    let dropped = enqueue_answer(WriterReply::Dropped).unwrap_err();
    assert_eq!((dropped.status(), dropped.message()), (500, "queue writer dropped".to_string()));
    let crashed = enqueue_answer(WriterReply::Crashed("boom".to_string())).unwrap_err();
    assert_eq!(crashed.status(), 500);
    assert_eq!(crashed.message(), "queue writer crashed: boom");
    assert!(enqueue_answer(WriterReply::Answered(Ok(()))).is_ok());
    let full = enqueue_answer(WriterReply::Answered(Err(AppError::QueueFull)));
    assert!(matches!(full, Err(AppError::QueueFull)));
}

#[test]
fn queue_stays_within_its_limit_whatever_happens() {
    let mut tables = Tables::new();
    let max = 300u64;
    let mut state = 12345u64;
    let mut claimed = BTreeSet::new();
    for step in 0..2000i64 {
        state = state.wrapping_mul(6364136223846793005).wrapping_add(1442695040888963407);
        let pick = (state >> 33) % 4;
        let size = ((state >> 40) % 60) as usize;
        if pick < 2 {
            let _ = tables.enqueue(&record(&vec![7u8; size], step), max);
        } else if pick == 2 {
            if let Some((seq, _)) = tables.claim(step) {
                assert!(claimed.insert(seq));
            }
        } else if let Some(seq) = tables.inflight.keys().next().copied() {
            let data = tables.inflight[&seq].clone();
            let delivery = Delivery { seq, record: decode_record(&data).unwrap() };
            match after_send(delivery, size % 2 == 0, step) {
                AfterSend::Drop(seq) => tables.drop(seq),
                AfterSend::Requeue(seq, retry) => {
                    let writes = requeue_inflight(tables.meta, seq, &retry).unwrap();
                    tables.apply(writes);
                }
            }
        }
        tables.check();
        assert!(tables.bytes() <= max);
    }
}
