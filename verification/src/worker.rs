//! What a delivery worker does next. A worker claims a record, looks its
//! subscription up, and sends the record; after each of these it asks here.
use vstd::prelude::*;
use vstd::string::*;

use crate::queue::{
    enqueue_error, first_ready, is_ready, law_claim, law_claims_oldest_ready, law_drop, law_enqueue,
    law_init, law_requeue, QueueState, QueueStep,
};
use crate::record::{
    decode_record, law_record_round_trip, record_in, QueueRecord, RecordView,
};

verus! {

/// How long a worker sleeps when there is nothing to deliver, in milliseconds.
pub const IDLE_SLEEP_MS: u64 = 50;

/// How long a record waits after a send that failed, in milliseconds.
pub const RETRY_DELAY_MS: i64 = 500;

/// How often a record is sent before it is given up.
pub const MAX_ATTEMPTS: u32 = 5;

/// What came of an attempt to claim a record.
#[derive(Debug)]
pub enum Claimed {
    /// The queue could not be read.
    Failed,
    /// No record was ready.
    Nothing,
    /// The value under a sequence number was claimed.
    Entry(u64, Vec<u8>),
}

/// A record that is being delivered.
#[derive(Debug)]
pub struct Delivery {
    pub seq: u64,
    pub record: QueueRecord,
}

/// The content of a [`Delivery`].
pub ghost struct DeliveryView {
    pub seq: u64,
    pub record: RecordView,
}

impl View for Delivery {
    type V = DeliveryView;

    open spec fn view(&self) -> DeliveryView {
        DeliveryView { seq: self.seq, record: self.record@ }
    }
}

/// What a worker does after an attempt to claim a record.
#[derive(Debug)]
pub enum AfterClaim {
    /// It sleeps for some milliseconds and starts over.
    Sleep(u64),
    /// It drops what it claimed and starts over.
    Drop(u64),
    /// It waits for some milliseconds and looks the subscription up.
    Deliver(Delivery, u64),
}

/// How long to wait from `now_ms` until `send_after_ms`.
pub open spec fn wait_ms(send_after_ms: int, now_ms: int) -> int {
    if send_after_ms > now_ms {
        send_after_ms - now_ms
    } else {
        0
    }
}

/// After an attempt to claim a record: nothing claimed is followed by a pause,
/// a value that is no record is dropped, and a record is delivered when its time
/// has come.
pub fn after_claim(claimed: Claimed, now_ms: i64) -> (next: AfterClaim)
    ensures
        match (claimed, next) {
            (Claimed::Entry(seq, data), AfterClaim::Drop(dropped)) => {
                &&& record_in(data@) is None
                &&& dropped == seq
            },
            (Claimed::Entry(seq, data), AfterClaim::Deliver(delivery, wait)) => {
                &&& record_in(data@) == Some(delivery@.record)
                &&& delivery@.seq == seq
                &&& wait == wait_ms(delivery@.record.send_after_ms, now_ms as int)
            },
            (Claimed::Entry(_, _), AfterClaim::Sleep(_)) => false,
            (_, AfterClaim::Sleep(pause)) => pause == IDLE_SLEEP_MS,
            (_, _) => false,
        },
{
    match claimed {
        Claimed::Failed => AfterClaim::Sleep(IDLE_SLEEP_MS),
        Claimed::Nothing => AfterClaim::Sleep(IDLE_SLEEP_MS),
        Claimed::Entry(seq, data) => match decode_record(data.as_slice()) {
            Err(_) => AfterClaim::Drop(seq),
            Ok(record) => {
                let wait: u64 = if record.send_after_ms > now_ms {
                    (record.send_after_ms as i128 - now_ms as i128) as u64
                } else {
                    0
                };
                AfterClaim::Deliver(Delivery { seq, record }, wait)
            },
        },
    }
}

/// A record that was claimed because it is ready is delivered without a wait.
pub proof fn law_ready_record_does_not_wait(data: Seq<u8>, now_ms: int)
    requires
        is_ready(data, now_ms),
        record_in(data) is Some,
    ensures
        wait_ms(record_in(data)->0.send_after_ms, now_ms) == 0,
{
}

/// What a worker does once it has looked for a subscription.
#[derive(Debug)]
pub enum AfterLookup {
    /// It drops the record and starts over.
    Drop(u64),
    /// It sends the record.
    Send(Delivery),
}

/// After the search for a subscription: a record is sent where there is one,
/// and dropped where there is none.
pub fn after_lookup(delivery: Delivery, found: bool) -> (next: AfterLookup)
    ensures
        match next {
            AfterLookup::Drop(seq) => !found && seq == delivery@.seq,
            AfterLookup::Send(kept) => found && kept@ == delivery@,
        },
{
    if found {
        AfterLookup::Send(delivery)
    } else {
        AfterLookup::Drop(delivery.seq)
    }
}

/// What a worker does after it has sent a record.
#[derive(Debug)]
pub enum AfterSend {
    /// It drops the record and starts over.
    Drop(u64),
    /// It makes the record that it claimed under a sequence number wait again,
    /// changed as given, and starts over.
    Requeue(u64, QueueRecord),
}

/// The record as it waits after a send that failed at `now_ms`, unless it is
/// given up.
pub open spec fn retry_of(record: RecordView, now_ms: int) -> Option<RecordView> {
    if record.attempts + 1 >= MAX_ATTEMPTS {
        None
    } else {
        Some(
            RecordView {
                attempts: record.attempts + 1,
                send_after_ms: now_ms + RETRY_DELAY_MS,
                ..record
            },
        )
    }
}

/// After a send: a record that was delivered or that has had its attempts is
/// dropped, and any other waits for a retry. The time of the retry has to fit in
/// an `i64`.
pub fn after_send(delivery: Delivery, sent: bool, now_ms: i64) -> (next: AfterSend)
    requires
        !sent && retry_of(delivery@.record, now_ms as int) is Some ==> now_ms + RETRY_DELAY_MS
            <= i64::MAX,
    ensures
        match next {
            AfterSend::Drop(seq) => {
                &&& seq == delivery@.seq
                &&& sent || retry_of(delivery@.record, now_ms as int) is None
            },
            AfterSend::Requeue(seq, record) => {
                &&& seq == delivery@.seq
                &&& !sent
                &&& retry_of(delivery@.record, now_ms as int) == Some(record@)
            },
        },
{
    if sent {
        return AfterSend::Drop(delivery.seq);
    }
    let attempts: u32 = delivery.record.attempts.saturating_add(1);
    if attempts >= MAX_ATTEMPTS {
        return AfterSend::Drop(delivery.seq);
    }
    let mut retry: QueueRecord = delivery.record;
    retry.attempts = attempts;
    retry.send_after_ms = now_ms + RETRY_DELAY_MS;
    AfterSend::Requeue(delivery.seq, retry)
}

/// What is left of a record after sends that failed at the given times.
pub open spec fn after_failures(record: RecordView, times: Seq<int>) -> Option<RecordView>
    decreases times.len(),
{
    if times.len() == 0 {
        Some(record)
    } else {
        match after_failures(record, times.drop_last()) {
            Some(left) => retry_of(left, times.last()),
            None => None,
        }
    }
}

/// A new record is sent at most `MAX_ATTEMPTS` times. Until then it keeps its
/// identifier and its payload, counts its attempts, and waits the retry delay
/// after each.
pub proof fn law_bounded_attempts(record: RecordView, times: Seq<int>)
    requires
        record.attempts == 0,
    ensures
        after_failures(record, times) is Some <==> times.len() < MAX_ATTEMPTS,
        after_failures(record, times) matches Some(left) ==> {
            &&& left.uuid == record.uuid
            &&& left.payload == record.payload
            &&& left.attempts == times.len()
            &&& times.len() > 0 ==> left.send_after_ms == times.last() + RETRY_DELAY_MS
        },
    decreases times.len(),
{
    if times.len() > 0 {
        law_bounded_attempts(record, times.drop_last());
    }
}

/// Whether every record in a queue was sent less than `MAX_ATTEMPTS` times.
pub open spec fn has_bounded_attempts(state: QueueState) -> bool {
    &&& forall|seq: u64| #[trigger]
        state.pending.contains_key(seq) ==> record_in(state.pending[seq])->0.attempts
            < MAX_ATTEMPTS
    &&& forall|seq: u64| #[trigger]
        state.inflight.contains_key(seq) ==> record_in(state.inflight[seq])->0.attempts
            < MAX_ATTEMPTS
}

/// Whether a step is one that the server makes: it puts in records that were not
/// sent yet, and makes records wait again as its workers decide.
pub open spec fn is_server_step(state: QueueState, step: QueueStep) -> bool {
    match step {
        QueueStep::Enqueue(record) => record.attempts == 0,
        QueueStep::Retry(seq, send_after_ms, attempts) => {
            let record = record_in(state.inflight[seq])->0;
            retry_of(record, send_after_ms - RETRY_DELAY_MS) == Some(
                (RecordView { send_after_ms, attempts, ..record }),
            )
        },
        _ => true,
    }
}

/// No record in the queue is ever sent more than `MAX_ATTEMPTS` times, whatever
/// the server does.
pub proof fn law_queue_keeps_attempts_bounded(
    state: QueueState,
    step: QueueStep,
    max_bytes: u64,
)
    requires
        state.wf(),
        state.allows(step),
        max_bytes < u64::MAX,
        has_bounded_attempts(state),
        is_server_step(state, step),
    ensures
        has_bounded_attempts(state.stepped(step, max_bytes)),
{
    match step {
        QueueStep::Init => law_init(state),
        QueueStep::Enqueue(record) => if enqueue_error(state.meta, record, max_bytes) is None {
            law_enqueue(state, record, max_bytes);
            law_record_round_trip(record, Seq::empty());
            assert(record.layout() + Seq::<u8>::empty() =~= record.layout());
        },
        QueueStep::Claim(now_ms) => {
            law_claims_oldest_ready(state, now_ms);
            if let Some((seq, data)) = first_ready(state.waiting(), now_ms) {
                law_claim(state, seq);
            }
        },
        QueueStep::Drop(seq) => law_drop(state, seq),
        QueueStep::Retry(seq, send_after_ms, attempts) => {
            law_requeue(state, seq, send_after_ms, attempts);
        },
    }
}

/// How long a worker waits: until the time of the record, and not at all where that
/// has passed.
pub proof fn law_wait(send_after_ms: int, now_ms: int)
    ensures
        wait_ms(send_after_ms, now_ms) >= 0,
        now_ms + wait_ms(send_after_ms, now_ms) >= send_after_ms,
        wait_ms(send_after_ms, now_ms) == 0 || now_ms + wait_ms(send_after_ms, now_ms)
            == send_after_ms,
{
}

/// A record whose fifth send fails is given up; any other waits for half a second,
/// with one attempt more and else unchanged.
pub proof fn law_retry(record: RecordView, now_ms: int)
    ensures
        retry_of(record, now_ms) is None <==> record.attempts >= 4,
        retry_of(record, now_ms) matches Some(retry) ==> {
            &&& retry.uuid == record.uuid
            &&& retry.payload == record.payload
            &&& retry.attempts == record.attempts + 1
            &&& retry.send_after_ms == now_ms + 500
        },
{
}

/// A worker with nothing to deliver pauses for a twentieth of a second.
pub proof fn law_idle_pause()
    ensures
        20 * IDLE_SLEEP_MS == 1000,
{
}

} // verus!
