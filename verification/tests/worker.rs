use httptester::record::{encode_record, QueueRecord};
use httptester::worker::{
    after_claim, after_lookup, after_send, AfterClaim, AfterLookup, AfterSend, Claimed, Delivery,
};

fn delivery(attempts: u32) -> Delivery {
    let mut record = QueueRecord::new("id", vec![1, 2], 0);
    record.attempts = attempts;
    Delivery { seq: 9, record }
}

#[test]
fn idle_worker_sleeps() {
    assert!(matches!(after_claim(Claimed::Failed, 0), AfterClaim::Sleep(50)));
    assert!(matches!(after_claim(Claimed::Nothing, 0), AfterClaim::Sleep(50)));
}

#[test]
fn unreadable_record_is_dropped() {
    assert!(matches!(after_claim(Claimed::Entry(4, vec![1]), 0), AfterClaim::Drop(4)));
}

#[test]
fn record_is_delivered_when_its_time_has_come() {
    let waits = [(100i64, 100i64, 0u64), (99, 100, 0), (101, 100, 1), (i64::MAX, i64::MIN, u64::MAX)];
    for (send_after_ms, now_ms, wait) in waits {
        let data = encode_record(&QueueRecord::new("id", vec![7], send_after_ms)).unwrap();
        match after_claim(Claimed::Entry(4, data), now_ms) {
            AfterClaim::Deliver(delivery, wait_ms) => {
                assert_eq!(delivery.seq, 4);
                assert_eq!(delivery.record.uuid, "id");
                assert_eq!(delivery.record.payload, vec![7]);
                assert_eq!(wait_ms, wait);
            }
            other => panic!("unexpected {:?}", other),
        }
    }
}

#[test]
fn record_without_a_subscription_is_dropped() {
    assert!(matches!(after_lookup(delivery(0), false), AfterLookup::Drop(9)));
    match after_lookup(delivery(0), true) {
        AfterLookup::Send(kept) => assert_eq!((kept.seq, kept.record.payload), (9, vec![1, 2])),
        AfterLookup::Drop(_) => panic!("dropped"),
    }
}

#[test]
fn delivered_record_is_dropped() {
    assert!(matches!(after_send(delivery(0), true, i64::MAX), AfterSend::Drop(9)));
}

#[test]
fn record_is_given_up_after_five_attempts() {
    let mut current = delivery(0);
    let mut sends = 0;
    let mut now_ms = 1000;
    loop {
        sends += 1;
        match after_send(current, false, now_ms) {
            AfterSend::Drop(seq) => {
                assert_eq!(seq, 9);
                break;
            }
            AfterSend::Requeue(seq, record) => {
                assert_eq!(seq, 9);
                assert_eq!(record.attempts, sends);
                assert_eq!(record.send_after_ms, now_ms + 500);
                assert_eq!(record.uuid, "id");
                assert_eq!(record.payload, vec![1, 2]);
                current = Delivery { seq, record };
                now_ms += 700;
            }
        }
    }
    assert_eq!(sends, 5);
    assert!(matches!(after_send(delivery(u32::MAX), false, i64::MAX), AfterSend::Drop(9)));
}
