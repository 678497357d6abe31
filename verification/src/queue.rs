//! The delivery queue: what each of its transactions writes.
//!
//! The queue is two tables of records by sequence number, those that wait and
//! those that are being delivered, with the next sequence number and the number
//! of bytes in both tables beside them. A transaction reads a few values, asks
//! this module what to write, and writes that.
use vstd::prelude::*;
use vstd::string::*;
use vstd::utf8::*;

use crate::error::AppError;
use crate::record::{
    decode_record, encode_record, law_reading, law_record_is_canonical, law_record_round_trip,
    law_records_that_can_be_laid_out, law_retry_keeps_size, record_in, QueueRecord, RecordView,
};

verus! {

/// The numbers that the queue keeps beside its tables. Either may be missing,
/// and then counts as zero.
#[derive(Clone, Copy, Debug, PartialEq, Eq, Structural)]
pub struct QueueMeta {
    pub next_seq: Option<u64>,
    pub queue_bytes: Option<u64>,
}

/// A number that may be missing.
pub open spec fn or_zero(n: Option<u64>) -> u64 {
    match n {
        Some(n) => n,
        None => 0,
    }
}

fn or_zero_exec(n: Option<u64>) -> (value: u64)
    ensures
        value == or_zero(n),
{
    match n {
        Some(n) => n,
        None => 0,
    }
}

/// One write of a transaction on the queue.
#[derive(Debug)]
pub enum QueueWrite {
    PutPending(u64, Vec<u8>),
    RemovePending(u64),
    PutInflight(u64, Vec<u8>),
    RemoveInflight(u64),
    SetNextSeq(u64),
    SetQueueBytes(u64),
}

/// The content of a [`QueueWrite`].
pub ghost enum WriteView {
    PutPending(u64, Seq<u8>),
    RemovePending(u64),
    PutInflight(u64, Seq<u8>),
    RemoveInflight(u64),
    SetNextSeq(u64),
    SetQueueBytes(u64),
}

impl View for QueueWrite {
    type V = WriteView;

    open spec fn view(&self) -> WriteView {
        match *self {
            QueueWrite::PutPending(seq, data) => WriteView::PutPending(seq, data@),
            QueueWrite::RemovePending(seq) => WriteView::RemovePending(seq),
            QueueWrite::PutInflight(seq, data) => WriteView::PutInflight(seq, data@),
            QueueWrite::RemoveInflight(seq) => WriteView::RemoveInflight(seq),
            QueueWrite::SetNextSeq(n) => WriteView::SetNextSeq(n),
            QueueWrite::SetQueueBytes(n) => WriteView::SetQueueBytes(n),
        }
    }
}

/// The content of a list of writes.
pub open spec fn write_views(writes: Seq<QueueWrite>) -> Seq<WriteView> {
    writes.map_values(|w: QueueWrite| w@)
}

/// Everything that the queue holds.
#[verifier::ext_equal]
pub ghost struct QueueState {
    pub pending: Map<u64, Seq<u8>>,
    pub inflight: Map<u64, Seq<u8>>,
    pub meta: QueueMeta,
}

impl QueueState {
    /// The queue after one write.
    pub open spec fn apply(self, write: WriteView) -> QueueState {
        match write {
            WriteView::PutPending(seq, data) => QueueState {
                pending: self.pending.insert(seq, data),
                ..self
            },
            WriteView::RemovePending(seq) => QueueState {
                pending: self.pending.remove(seq),
                ..self
            },
            WriteView::PutInflight(seq, data) => QueueState {
                inflight: self.inflight.insert(seq, data),
                ..self
            },
            WriteView::RemoveInflight(seq) => QueueState {
                inflight: self.inflight.remove(seq),
                ..self
            },
            WriteView::SetNextSeq(n) => QueueState {
                meta: QueueMeta { next_seq: Some(n), ..self.meta },
                ..self
            },
            WriteView::SetQueueBytes(n) => QueueState {
                meta: QueueMeta { queue_bytes: Some(n), ..self.meta },
                ..self
            },
        }
    }

    /// The queue after some writes, in order.
    pub open spec fn apply_all(self, writes: Seq<WriteView>) -> QueueState
        decreases writes.len(),
    {
        if writes.len() == 0 {
            self
        } else {
            self.apply_all(writes.drop_last()).apply(writes.last())
        }
    }

    /// The sequence number of the next record.
    pub open spec fn next_seq(self) -> u64 {
        or_zero(self.meta.next_seq)
    }

    /// How many bytes the queue takes itself to hold.
    pub open spec fn queue_bytes(self) -> u64 {
        or_zero(self.meta.queue_bytes)
    }

    /// The queue once its numbers are in place.
    pub open spec fn initialized(self) -> QueueState {
        QueueState {
            meta: QueueMeta {
                next_seq: Some(self.next_seq()),
                queue_bytes: Some(self.queue_bytes()),
            },
            ..self
        }
    }

    /// The queue with one more record waiting.
    pub open spec fn enqueued(self, data: Seq<u8>) -> QueueState {
        QueueState {
            pending: self.pending.insert(self.next_seq(), data),
            inflight: self.inflight,
            meta: QueueMeta {
                next_seq: Some((self.next_seq() + 1) as u64),
                queue_bytes: Some((self.queue_bytes() + data.len()) as u64),
            },
        }
    }

    /// The queue with a waiting record taken for delivery.
    pub open spec fn claimed(self, seq: u64) -> QueueState {
        QueueState {
            pending: self.pending.remove(seq),
            inflight: self.inflight.insert(seq, self.pending[seq]),
            meta: self.meta,
        }
    }

    /// The queue without a record that was being delivered. Where there is none
    /// under that number, nothing changes.
    pub open spec fn dropped(self, seq: u64) -> QueueState {
        if self.inflight.contains_key(seq) {
            QueueState {
                pending: self.pending,
                inflight: self.inflight.remove(seq),
                meta: QueueMeta {
                    next_seq: self.meta.next_seq,
                    queue_bytes: Some(
                        if self.queue_bytes() < self.inflight[seq].len() {
                            0
                        } else {
                            (self.queue_bytes() - self.inflight[seq].len()) as u64
                        },
                    ),
                },
            }
        } else {
            self
        }
    }

    /// The queue with a record that was being delivered waiting again, behind
    /// all others.
    pub open spec fn requeued(self, seq: u64, data: Seq<u8>) -> QueueState {
        QueueState {
            pending: self.pending.insert(self.next_seq(), data),
            inflight: self.inflight.remove(seq),
            meta: QueueMeta {
                next_seq: Some((self.next_seq() + 1) as u64),
                queue_bytes: self.meta.queue_bytes,
            },
        }
    }
}

/// The writes that put the numbers of a queue in place.
pub open spec fn init_writes(meta: QueueMeta) -> Seq<WriteView> {
    (if meta.next_seq is None {
        seq![WriteView::SetNextSeq(0)]
    } else {
        Seq::empty()
    }) + (if meta.queue_bytes is None {
        seq![WriteView::SetQueueBytes(0)]
    } else {
        Seq::empty()
    })
}

/// What to write into a queue so that its numbers are in place. Numbers that
/// are there stay as they are.
pub fn init_queue_db(meta: QueueMeta) -> (writes: Vec<QueueWrite>)
    ensures
        write_views(writes@) == init_writes(meta),
{
    let mut writes: Vec<QueueWrite> = Vec::new();
    if meta.next_seq.is_none() {
        writes.push(QueueWrite::SetNextSeq(0));
    }
    if meta.queue_bytes.is_none() {
        writes.push(QueueWrite::SetQueueBytes(0));
    }
    proof {
        assert(write_views(writes@) =~= init_writes(meta));
    }
    writes
}

/// The sum of two sizes, or the largest number where it does not fit.
pub open spec fn saturating_sum(a: u64, b: nat) -> u64 {
    if a + b > u64::MAX {
        u64::MAX
    } else {
        (a + b) as u64
    }
}

/// Why a record is refused, if it is: it cannot be laid out, or it would take
/// the queue above `max_bytes`.
pub open spec fn enqueue_error(
    meta: QueueMeta,
    record: RecordView,
    max_bytes: u64,
) -> Option<AppError> {
    if record.layout_error() is Some {
        record.layout_error()
    } else if saturating_sum(or_zero(meta.queue_bytes), record.layout().len()) > max_bytes {
        Some(AppError::QueueFull)
    } else {
        None
    }
}

/// The layout of a record that is to be put into a queue of at most `max_bytes`,
/// unless it is refused.
pub fn check_enqueue(meta: QueueMeta, record: &QueueRecord, max_bytes: u64) -> (r: Result<
    Vec<u8>,
    AppError,
>)
    ensures
        match r {
            Ok(data) => {
                &&& enqueue_error(meta, record@, max_bytes) is None
                &&& data@ == record@.layout()
            },
            Err(e) => enqueue_error(meta, record@, max_bytes) == Some(e),
        },
{
    let data: Vec<u8> = encode_record(record)?;
    let current_bytes: u64 = or_zero_exec(meta.queue_bytes);
    if current_bytes.saturating_add(data.len() as u64) > max_bytes {
        return Err(AppError::QueueFull);
    }
    Ok(data)
}

/// The writes that put a record into the queue.
pub open spec fn enqueue_writes(meta: QueueMeta, data: Seq<u8>) -> Seq<WriteView> {
    seq![
        WriteView::PutPending(or_zero(meta.next_seq), data),
        WriteView::SetNextSeq((or_zero(meta.next_seq) + 1) as u64),
        WriteView::SetQueueBytes(saturating_sum(or_zero(meta.queue_bytes), data.len())),
    ]
}

/// What to write to put `record` into a queue of at most `max_bytes`. Sequence
/// numbers must not have run out.
pub fn enqueue_record(meta: QueueMeta, record: &QueueRecord, max_bytes: u64) -> (r: Result<
    Vec<QueueWrite>,
    AppError,
>)
    requires
        enqueue_error(meta, record@, max_bytes) is None ==> or_zero(meta.next_seq) < u64::MAX,
    ensures
        match r {
            Ok(writes) => {
                &&& enqueue_error(meta, record@, max_bytes) is None
                &&& write_views(writes@) == enqueue_writes(meta, record@.layout())
            },
            Err(e) => enqueue_error(meta, record@, max_bytes) == Some(e),
        },
{
    let data: Vec<u8> = check_enqueue(meta, record, max_bytes)?;
    let next_seq: u64 = or_zero_exec(meta.next_seq);
    let current_bytes: u64 = or_zero_exec(meta.queue_bytes);
    let next_bytes: u64 = current_bytes.saturating_add(data.len() as u64);
    let mut writes: Vec<QueueWrite> = Vec::new();
    writes.push(QueueWrite::PutPending(next_seq, data));
    writes.push(QueueWrite::SetNextSeq(next_seq + 1));
    writes.push(QueueWrite::SetQueueBytes(next_bytes));
    proof {
        assert(write_views(writes@) =~= enqueue_writes(meta, record@.layout()));
    }
    Ok(writes)
}

/// How many records may wait for the one task that writes them into the queue.
pub const WRITE_BUFFER: usize = 1024;

/// What came of handing a record to the task that writes it into the queue.
#[derive(Debug)]
pub enum WriterReply {
    /// Too many records wait for the task.
    Busy,
    /// The task went away without an answer.
    Dropped,
    /// The task failed on the record, with a description of how.
    Crashed(String),
    /// The task wrote the record, or was refused.
    Answered(Result<(), AppError>),
}

/// What the sender of a record is told.
pub fn enqueue_answer(reply: WriterReply) -> (r: Result<(), AppError>)
    ensures
        match reply {
            WriterReply::Busy => r == Err::<(), AppError>(AppError::QueueWriterBusy),
            WriterReply::Dropped => r == Err::<(), AppError>(AppError::QueueWriterDropped),
            WriterReply::Crashed(how) => r == Err::<(), AppError>(
                AppError::QueueWriterCrashed(how),
            ),
            WriterReply::Answered(result) => r == result,
        },
{
    match reply {
        WriterReply::Busy => Err(AppError::QueueWriterBusy),
        WriterReply::Dropped => Err(AppError::QueueWriterDropped),
        WriterReply::Crashed(how) => Err(AppError::QueueWriterCrashed(how)),
        WriterReply::Answered(result) => result,
    }
}

/// Whether a stored record may be delivered at `now_ms`. What cannot be read as
/// a record is always ready, so that it leaves the queue.
pub open spec fn is_ready(data: Seq<u8>, now_ms: int) -> bool {
    match record_in(data) {
        Some(record) => record.send_after_ms <= now_ms,
        None => true,
    }
}

/// The first of some stored records that is ready.
pub open spec fn first_ready(entries: Seq<(u64, Seq<u8>)>, now_ms: int) -> Option<(u64, Seq<u8>)>
    decreases entries.len(),
{
    if entries.len() == 0 {
        None
    } else {
        match first_ready(entries.drop_last(), now_ms) {
            Some(entry) => Some(entry),
            None => if is_ready(entries.last().1, now_ms) {
                Some(entries.last())
            } else {
                None
            },
        }
    }
}

/// The content of an optional stored record.
pub open spec fn entry_view(entry: Option<(u64, Vec<u8>)>) -> Option<(u64, Seq<u8>)> {
    match entry {
        Some((seq, data)) => Some((seq, data@)),
        None => None,
    }
}

/// The writes that take a waiting record for delivery.
pub open spec fn claim_writes(entry: Option<(u64, Seq<u8>)>) -> Seq<WriteView> {
    match entry {
        Some((seq, data)) => seq![
            WriteView::PutInflight(seq, data),
            WriteView::RemovePending(seq),
        ],
        None => Seq::empty(),
    }
}

/// A search for the first waiting record that is ready. The waiting records are
/// offered in the order of their sequence numbers, until one is taken.
pub struct ClaimScan {
    now_ms: i64,
    selected: Option<(u64, Vec<u8>)>,
    offered: Ghost<Seq<(u64, Seq<u8>)>>,
}

impl ClaimScan {
    /// The time that the search is made for.
    pub closed spec fn now_ms(&self) -> int {
        self.now_ms as int
    }

    /// The records that were offered so far.
    pub closed spec fn offered(&self) -> Seq<(u64, Seq<u8>)> {
        self.offered@
    }

    /// What was found is the first ready record of those that were offered.
    pub closed spec fn wf(&self) -> bool {
        entry_view(self.selected) == first_ready(self.offered@, self.now_ms as int)
    }

    /// A search before any record was offered.
    pub fn new(now_ms: i64) -> (scan: Self)
        ensures
            scan.wf(),
            scan.now_ms() == now_ms,
            scan.offered() == Seq::<(u64, Seq<u8>)>::empty(),
    {
        ClaimScan { now_ms, selected: None, offered: Ghost(Seq::empty()) }
    }

    /// Offers the next waiting record. Returns whether the search is over.
    pub fn offer(&mut self, seq: u64, data: Vec<u8>) -> (over: bool)
        requires
            old(self).wf(),
        ensures
            final(self).wf(),
            final(self).now_ms() == old(self).now_ms(),
            final(self).offered() == old(self).offered().push((seq, data@)),
            over == (first_ready(final(self).offered(), final(self).now_ms()) is Some),
    {
        let ghost before = self.offered@;
        proof {
            assert(before.push((seq, data@)).drop_last() =~= before);
        }
        self.offered = Ghost(before.push((seq, data@)));
        if self.selected.is_some() {
            return true;
        }
        let ready: bool = match decode_record(data.as_slice()) {
            Ok(record) => record.send_after_ms <= self.now_ms,
            Err(_) => true,
        };
        if ready {
            self.selected = Some((seq, data));
        }
        ready
    }

    /// The record that was found, and what to write to take it for delivery.
    pub fn claim_next(self) -> (r: (Option<(u64, Vec<u8>)>, Vec<QueueWrite>))
        requires
            self.wf(),
        ensures
            entry_view(r.0) == first_ready(self.offered(), self.now_ms()),
            write_views(r.1@) == claim_writes(first_ready(self.offered(), self.now_ms())),
    {
        let mut writes: Vec<QueueWrite> = Vec::new();
        match self.selected {
            Some((seq, data)) => {
                let copy: Vec<u8> = data.clone();
                proof {
                    assert(copy@ =~= data@);
                }
                writes.push(QueueWrite::PutInflight(seq, copy));
                writes.push(QueueWrite::RemovePending(seq));
                proof {
                    assert(write_views(writes@) =~= claim_writes(Some((seq, data@))));
                }
                (Some((seq, data)), writes)
            },
            None => {
                proof {
                    assert(write_views(writes@) =~= claim_writes(None));
                }
                (None, writes)
            },
        }
    }
}

/// The writes that take a record that was being delivered, and is `stored_len`
/// bytes long if it is there, out of the queue.
pub open spec fn drop_writes(
    meta: QueueMeta,
    seq: u64,
    stored_len: Option<nat>,
) -> Seq<WriteView> {
    match stored_len {
        Some(len) => seq![
            WriteView::RemoveInflight(seq),
            WriteView::SetQueueBytes(
                if or_zero(meta.queue_bytes) < len {
                    0
                } else {
                    (or_zero(meta.queue_bytes) - len) as u64
                },
            ),
        ],
        None => Seq::empty(),
    }
}

/// What to write to take a record that was being delivered out of the queue.
/// `stored_len` is its size, if it is there.
pub fn drop_inflight(meta: QueueMeta, seq: u64, stored_len: Option<usize>) -> (writes: Vec<
    QueueWrite,
>)
    ensures
        write_views(writes@) == drop_writes(meta, seq, crate::envelope::opt_nat(stored_len)),
{
    let mut writes: Vec<QueueWrite> = Vec::new();
    match stored_len {
        Some(len) => {
            let current_bytes: u64 = or_zero_exec(meta.queue_bytes);
            writes.push(QueueWrite::RemoveInflight(seq));
            writes.push(QueueWrite::SetQueueBytes(current_bytes.saturating_sub(len as u64)));
        },
        None => {},
    }
    proof {
        assert(write_views(writes@) =~= drop_writes(
            meta,
            seq,
            crate::envelope::opt_nat(stored_len),
        ));
    }
    writes
}

/// The writes that make a record that was being delivered wait again.
pub open spec fn requeue_writes(meta: QueueMeta, seq: u64, data: Seq<u8>) -> Seq<WriteView> {
    seq![
        WriteView::RemoveInflight(seq),
        WriteView::PutPending(or_zero(meta.next_seq), data),
        WriteView::SetNextSeq((or_zero(meta.next_seq) + 1) as u64),
    ]
}

/// What to write to make the record that was being delivered as `seq` wait
/// again, as `record`. Sequence numbers must not have run out.
pub fn requeue_inflight(meta: QueueMeta, seq: u64, record: &QueueRecord) -> (r: Result<
    Vec<QueueWrite>,
    AppError,
>)
    requires
        record@.layout_error() is None ==> or_zero(meta.next_seq) < u64::MAX,
    ensures
        match r {
            Ok(writes) => {
                &&& record@.layout_error() is None
                &&& write_views(writes@) == requeue_writes(meta, seq, record@.layout())
            },
            Err(e) => record@.layout_error() == Some(e),
        },
{
    let data: Vec<u8> = encode_record(record)?;
    let next_seq: u64 = or_zero_exec(meta.next_seq);
    let mut writes: Vec<QueueWrite> = Vec::new();
    writes.push(QueueWrite::RemoveInflight(seq));
    writes.push(QueueWrite::PutPending(next_seq, data));
    writes.push(QueueWrite::SetNextSeq(next_seq + 1));
    proof {
        assert(write_views(writes@) =~= requeue_writes(meta, seq, record@.layout()));
    }
    Ok(writes)
}

/// The bytes of all values in a table.
pub open spec fn total_bytes(table: Map<u64, Seq<u8>>) -> nat
    decreases table.dom().len(),
{
    if table.dom().finite() && table.dom().len() > 0 {
        let seq = table.dom().choose();
        table[seq].len() + total_bytes(table.remove(seq))
    } else {
        0
    }
}

proof fn lemma_total_remove(table: Map<u64, Seq<u8>>, seq: u64)
    requires
        table.dom().finite(),
        table.contains_key(seq),
    ensures
        total_bytes(table) == table[seq].len() + total_bytes(table.remove(seq)),
    decreases table.dom().len(),
{
    let first = table.dom().choose();
    if first != seq {
        lemma_total_remove(table.remove(first), seq);
        lemma_total_remove(table.remove(seq), first);
        assert(table.remove(first).remove(seq) =~= table.remove(seq).remove(first));
    }
}

proof fn lemma_total_insert(table: Map<u64, Seq<u8>>, seq: u64, data: Seq<u8>)
    requires
        table.dom().finite(),
        !table.contains_key(seq),
    ensures
        total_bytes(table.insert(seq, data)) == total_bytes(table) + data.len(),
{
    lemma_total_remove(table.insert(seq, data), seq);
    assert(table.insert(seq, data).remove(seq) =~= table);
}

/// A stored value that is the layout of a record and nothing more.
pub open spec fn is_record(data: Seq<u8>) -> bool {
    record_in(data) is Some && data == record_in(data)->0.layout()
}

impl QueueState {
    /// A queue that nothing was ever put into.
    pub open spec fn fresh() -> QueueState {
        QueueState {
            pending: Map::empty(),
            inflight: Map::empty(),
            meta: QueueMeta { next_seq: None, queue_bytes: None },
        }
    }

    /// The invariant of the queue: sequence numbers below the next one, each in
    /// at most one table, with records as values, and an exact count of bytes.
    pub open spec fn wf(self) -> bool {
        &&& self.pending.dom().finite()
        &&& self.inflight.dom().finite()
        &&& forall|seq: u64| #[trigger]
            self.pending.contains_key(seq) ==> seq < self.next_seq() && is_record(
                self.pending[seq],
            ) && !self.inflight.contains_key(seq)
        &&& forall|seq: u64| #[trigger]
            self.inflight.contains_key(seq) ==> seq < self.next_seq() && is_record(
                self.inflight[seq],
            )
        &&& self.queue_bytes() == total_bytes(self.pending) + total_bytes(self.inflight)
    }

    /// The sequence numbers of the waiting records are below the next one.
    pub open spec fn is_numbered(self) -> bool {
        forall|seq: u64| #[trigger] self.pending.contains_key(seq) ==> seq < self.next_seq()
    }

    /// The waiting records, oldest first.
    pub open spec fn waiting(self) -> Seq<(u64, Seq<u8>)> {
        entries_below(self.pending, self.next_seq() as nat)
    }
}

/// The entries of a table below the sequence number `end`, in order.
pub open spec fn entries_below(table: Map<u64, Seq<u8>>, end: nat) -> Seq<(u64, Seq<u8>)>
    decreases end,
{
    if end == 0 {
        Seq::empty()
    } else {
        let seq = (end - 1) as u64;
        let before = entries_below(table, (end - 1) as nat);
        if table.contains_key(seq) {
            before.push((seq, table[seq]))
        } else {
            before
        }
    }
}

proof fn lemma_apply_two(state: QueueState, a: WriteView, b: WriteView)
    ensures
        state.apply_all(seq![a, b]) == state.apply(a).apply(b),
{
    reveal_with_fuel(QueueState::apply_all, 3);
    assert(seq![a, b].drop_last() =~= seq![a]);
    assert(seq![a].drop_last() =~= Seq::<WriteView>::empty());
}

proof fn lemma_apply_three(state: QueueState, a: WriteView, b: WriteView, c: WriteView)
    ensures
        state.apply_all(seq![a, b, c]) == state.apply(a).apply(b).apply(c),
{
    lemma_apply_two(state, a, b);
    assert(seq![a, b, c].drop_last() =~= seq![a, b]);
}

/// Initializing a queue puts its numbers in place and changes nothing else.
pub proof fn law_init(state: QueueState)
    ensures
        state.apply_all(init_writes(state.meta)) == state.initialized(),
        state.wf() ==> state.initialized().wf(),
{
    let writes = init_writes(state.meta);
    reveal_with_fuel(QueueState::apply_all, 3);
    if writes.len() == 2 {
        assert(writes.drop_last() =~= seq![WriteView::SetNextSeq(0)]);
        assert(writes.drop_last().drop_last() =~= Seq::<WriteView>::empty());
    } else if writes.len() == 1 {
        assert(writes.drop_last() =~= Seq::<WriteView>::empty());
    }
    assert(state.apply_all(writes) =~= state.initialized());
}

/// Putting a record into the queue adds it behind all others, adds its size to
/// the count, and keeps the count within the limit.
pub proof fn law_enqueue(state: QueueState, record: RecordView, max_bytes: u64)
    requires
        enqueue_error(state.meta, record, max_bytes) is None,
        state.next_seq() < u64::MAX,
        max_bytes < u64::MAX,
    ensures
        state.apply_all(enqueue_writes(state.meta, record.layout())) == state.enqueued(
            record.layout(),
        ),
        state.enqueued(record.layout()).queue_bytes() <= max_bytes,
        state.wf() && record.in_range() ==> state.enqueued(record.layout()).wf(),
{
    let data = record.layout();
    let after = state.enqueued(data);
    lemma_apply_three(
        state,
        WriteView::PutPending(state.next_seq(), data),
        WriteView::SetNextSeq((state.next_seq() + 1) as u64),
        WriteView::SetQueueBytes(saturating_sum(state.queue_bytes(), data.len())),
    );
    assert(state.apply_all(enqueue_writes(state.meta, data)) =~= after);
    if state.wf() && record.in_range() {
        law_record_round_trip(record, Seq::empty());
        assert(data + Seq::<u8>::empty() =~= data);
        assert(!state.pending.contains_key(state.next_seq()));
        assert(!state.inflight.contains_key(state.next_seq()));
        lemma_total_insert(state.pending, state.next_seq(), data);
    }
}

/// Taking a waiting record for delivery moves it from one table to the other
/// and leaves the count as it is.
pub proof fn law_claim(state: QueueState, seq: u64)
    requires
        state.pending.contains_key(seq),
    ensures
        state.apply_all(claim_writes(Some((seq, state.pending[seq])))) == state.claimed(seq),
        state.wf() ==> state.claimed(seq).wf(),
{
    let data = state.pending[seq];
    lemma_apply_two(state, WriteView::PutInflight(seq, data), WriteView::RemovePending(seq));
    assert(state.apply_all(claim_writes(Some((seq, data)))) =~= state.claimed(seq));
    if state.wf() {
        lemma_total_remove(state.pending, seq);
        lemma_total_insert(state.inflight, seq, data);
    }
}

/// The size of the value under `seq`, if there is one.
pub open spec fn stored_len(table: Map<u64, Seq<u8>>, seq: u64) -> Option<nat> {
    if table.contains_key(seq) {
        Some(table[seq].len())
    } else {
        None
    }
}

/// Dropping a record that was being delivered takes it out and takes its size
/// off the count.
pub proof fn law_drop(state: QueueState, seq: u64)
    ensures
        state.apply_all(drop_writes(state.meta, seq, stored_len(state.inflight, seq)))
            == state.dropped(seq),
        state.wf() ==> state.dropped(seq).wf(),
        state.dropped(seq).queue_bytes() <= state.queue_bytes(),
{
    let writes = drop_writes(state.meta, seq, stored_len(state.inflight, seq));
    if state.inflight.contains_key(seq) {
        lemma_apply_two(state, writes[0], writes[1]);
        assert(writes =~= seq![writes[0], writes[1]]);
        assert(state.apply_all(writes) =~= state.dropped(seq));
        if state.wf() {
            lemma_total_remove(state.inflight, seq);
        }
    }
}

/// A retry makes the record wait again behind all others, as it was but for the
/// time and the number of attempts, and leaves the count as it is.
pub proof fn law_requeue(state: QueueState, seq: u64, send_after_ms: int, attempts: nat)
    requires
        state.wf(),
        state.inflight.contains_key(seq),
        state.next_seq() < u64::MAX,
        i64::MIN <= send_after_ms <= i64::MAX,
        attempts <= u32::MAX,
    ensures
        ({
            let record = RecordView {
                send_after_ms,
                attempts,
                ..record_in(state.inflight[seq])->0
            };
            let after = state.requeued(seq, record.layout());
            &&& record.layout_error() is None
            &&& state.apply_all(requeue_writes(state.meta, seq, record.layout())) == after
            &&& after.wf()
            &&& after.queue_bytes() == state.queue_bytes()
            &&& record_in(after.pending[state.next_seq()]) == Some(record)
        }),
{
    let old_record = record_in(state.inflight[seq])->0;
    let record = RecordView { send_after_ms, attempts, ..old_record };
    let data = record.layout();
    let after = state.requeued(seq, data);
    law_record_is_canonical(state.inflight[seq]);
    law_retry_keeps_size(old_record, send_after_ms, attempts);
    lemma_apply_three(
        state,
        WriteView::RemoveInflight(seq),
        WriteView::PutPending(state.next_seq(), data),
        WriteView::SetNextSeq((state.next_seq() + 1) as u64),
    );
    assert(state.apply_all(requeue_writes(state.meta, seq, data)) =~= after);
    law_record_round_trip(record, Seq::empty());
    assert(data + Seq::<u8>::empty() =~= data);
    assert(!state.pending.contains_key(state.next_seq()));
    lemma_total_insert(state.pending, state.next_seq(), data);
    lemma_total_remove(state.inflight, seq);
}

proof fn lemma_entries_below(table: Map<u64, Seq<u8>>, end: nat, now_ms: int)
    requires
        end <= u64::MAX,
    ensures
        match first_ready(entries_below(table, end), now_ms) {
            Some((seq, data)) => {
                &&& seq < end
                &&& table.contains_key(seq)
                &&& table[seq] == data
                &&& is_ready(data, now_ms)
                &&& forall|other: u64| #[trigger]
                    table.contains_key(other) && other < seq ==> !is_ready(table[other], now_ms)
            },
            None => forall|other: u64| #[trigger]
                table.contains_key(other) && other < end ==> !is_ready(table[other], now_ms),
        },
    decreases end,
{
    if end > 0 {
        let seq = (end - 1) as u64;
        let before = entries_below(table, (end - 1) as nat);
        lemma_entries_below(table, (end - 1) as nat, now_ms);
        if table.contains_key(seq) {
            assert(before.push((seq, table[seq])).drop_last() =~= before);
        }
    }
}

/// The record that a search over all waiting records finds is the oldest of
/// those that are ready; it finds none only where none is ready.
pub proof fn law_claims_oldest_ready(state: QueueState, now_ms: int)
    requires
        state.is_numbered(),
    ensures
        match first_ready(state.waiting(), now_ms) {
            Some((seq, data)) => {
                &&& state.pending.contains_key(seq)
                &&& state.pending[seq] == data
                &&& is_ready(data, now_ms)
                &&& forall|other: u64| #[trigger]
                    state.pending.contains_key(other) && other < seq ==> !is_ready(
                        state.pending[other],
                        now_ms,
                    )
            },
            None => forall|other: u64| #[trigger]
                state.pending.contains_key(other) ==> !is_ready(state.pending[other], now_ms),
        },
{
    lemma_entries_below(state.pending, state.next_seq() as nat, now_ms);
}

/// A search may stop at the first ready record: what follows does not matter.
pub proof fn law_search_may_stop(
    entries: Seq<(u64, Seq<u8>)>,
    rest: Seq<(u64, Seq<u8>)>,
    now_ms: int,
)
    requires
        first_ready(entries, now_ms) is Some,
    ensures
        first_ready(entries + rest, now_ms) == first_ready(entries, now_ms),
    decreases rest.len(),
{
    if rest.len() > 0 {
        law_search_may_stop(entries, rest.drop_last(), now_ms);
        assert((entries + rest).drop_last() =~= entries + rest.drop_last());
    } else {
        assert(entries + rest =~= entries);
    }
}

/// What was put into the queue comes out of it: once it is the oldest ready
/// record, it is the one that is claimed, and it reads as it was put in.
pub proof fn law_enqueued_record_is_claimed(state: QueueState, record: RecordView, now_ms: int)
    requires
        state.is_numbered(),
        record.in_range(),
        record.layout_error() is None,
        state.next_seq() < u64::MAX,
        record.send_after_ms <= now_ms,
        forall|other: u64| #[trigger]
            state.pending.contains_key(other) ==> !is_ready(state.pending[other], now_ms),
    ensures
        first_ready(state.enqueued(record.layout()).waiting(), now_ms) == Some(
            (state.next_seq(), record.layout()),
        ),
        record_in(record.layout()) == Some(record),
{
    let after = state.enqueued(record.layout());
    law_record_round_trip(record, Seq::empty());
    assert(record.layout() + Seq::<u8>::empty() =~= record.layout());
    assert(after.pending.contains_key(state.next_seq()));
    lemma_entries_below(after.pending, after.next_seq() as nat, now_ms);
    let found = first_ready(after.waiting(), now_ms);
    assert(found is Some);
    let (seq, data) = found->0;
    if seq != state.next_seq() {
        assert(state.pending.contains_key(seq));
        assert(is_ready(state.pending[seq], now_ms));
    }
}

/// What can happen to a queue.
pub ghost enum QueueStep {
    /// The queue is opened.
    Init,
    /// A record is put into it, if there is room.
    Enqueue(RecordView),
    /// The oldest record that is ready at a time is taken for delivery.
    Claim(int),
    /// A record that was being delivered is dropped.
    Drop(u64),
    /// A record that was being delivered waits again, for a new time and with a
    /// new number of attempts.
    Retry(u64, int, nat),
}

impl QueueState {
    /// Whether a step can be made: sequence numbers have not run out, and the
    /// record of a retry is there.
    pub open spec fn allows(self, step: QueueStep) -> bool {
        match step {
            QueueStep::Enqueue(record) => record.in_range() && self.next_seq() < u64::MAX,
            QueueStep::Retry(seq, send_after_ms, attempts) => {
                &&& self.inflight.contains_key(seq)
                &&& self.next_seq() < u64::MAX
                &&& i64::MIN <= send_after_ms <= i64::MAX
                &&& attempts <= u32::MAX
            },
            _ => true,
        }
    }

    /// The queue after a step.
    pub open spec fn stepped(self, step: QueueStep, max_bytes: u64) -> QueueState {
        match step {
            QueueStep::Init => self.apply_all(init_writes(self.meta)),
            QueueStep::Enqueue(record) => if enqueue_error(
                self.meta,
                record,
                max_bytes,
            ) is None {
                self.apply_all(enqueue_writes(self.meta, record.layout()))
            } else {
                self
            },
            QueueStep::Claim(now_ms) => self.apply_all(
                claim_writes(first_ready(self.waiting(), now_ms)),
            ),
            QueueStep::Drop(seq) => self.apply_all(
                drop_writes(self.meta, seq, stored_len(self.inflight, seq)),
            ),
            QueueStep::Retry(seq, send_after_ms, attempts) => self.apply_all(
                requeue_writes(
                    self.meta,
                    seq,
                    (RecordView {
                        send_after_ms,
                        attempts,
                        ..record_in(self.inflight[seq])->0
                    }).layout(),
                ),
            ),
        }
    }
}

/// Every step keeps the invariant of the queue, and keeps its size within the
/// limit. A queue that is larger than its limit, because it was opened again with
/// a smaller one, does not grow.
pub proof fn law_step_keeps_queue(state: QueueState, step: QueueStep, max_bytes: u64)
    requires
        state.wf(),
        state.allows(step),
        max_bytes < u64::MAX,
    ensures
        state.stepped(step, max_bytes).wf(),
        state.stepped(step, max_bytes).queue_bytes() <= max_bytes || state.stepped(
            step,
            max_bytes,
        ).queue_bytes() <= state.queue_bytes(),
{
    match step {
        QueueStep::Init => law_init(state),
        QueueStep::Enqueue(record) => if enqueue_error(state.meta, record, max_bytes) is None {
            law_enqueue(state, record, max_bytes);
        },
        QueueStep::Claim(now_ms) => {
            law_claims_oldest_ready(state, now_ms);
            if let Some((seq, data)) = first_ready(state.waiting(), now_ms) {
                law_claim(state, seq);
            }
        },
        QueueStep::Drop(seq) => law_drop(state, seq),
        QueueStep::Retry(seq, send_after_ms, attempts) => {
            law_requeue(state, seq, send_after_ms, attempts);
        },
    }
}

/// A queue that was made from a fresh one by some steps, each of them allowed.
pub open spec fn is_history(states: Seq<QueueState>, steps: Seq<QueueStep>, max_bytes: u64) -> bool {
    &&& states.len() == steps.len() + 1
    &&& states[0] == QueueState::fresh()
    &&& forall|i: int|
        0 <= i < steps.len() ==> states[i].allows(#[trigger] steps[i]) && states[i + 1]
            == states[i].stepped(steps[i], max_bytes)
}

/// Whatever happens to a queue, the bytes in its tables never exceed its limit,
/// and its count of them is exact.
pub proof fn law_queue_is_bounded(
    states: Seq<QueueState>,
    steps: Seq<QueueStep>,
    max_bytes: u64,
    i: int,
)
    requires
        is_history(states, steps, max_bytes),
        max_bytes < u64::MAX,
        0 <= i < states.len(),
    ensures
        states[i].wf(),
        total_bytes(states[i].pending) + total_bytes(states[i].inflight)
            == states[i].queue_bytes() <= max_bytes,
    decreases i,
{
    if i > 0 {
        law_queue_is_bounded(states, steps, max_bytes, i - 1);
        law_step_keeps_queue(states[i - 1], steps[i - 1], max_bytes);
    }
}

proof fn lemma_not_waiting_again(state: QueueState, step: QueueStep, max_bytes: u64, seq: u64)
    requires
        state.wf(),
        state.allows(step),
        max_bytes < u64::MAX,
        !state.pending.contains_key(seq),
        seq < state.next_seq(),
    ensures
        !state.stepped(step, max_bytes).pending.contains_key(seq),
        seq < state.stepped(step, max_bytes).next_seq(),
{
    match step {
        QueueStep::Init => law_init(state),
        QueueStep::Enqueue(record) => if enqueue_error(state.meta, record, max_bytes) is None {
            law_enqueue(state, record, max_bytes);
        },
        QueueStep::Claim(now_ms) => {
            law_claims_oldest_ready(state, now_ms);
            if let Some((other, data)) = first_ready(state.waiting(), now_ms) {
                law_claim(state, other);
            }
        },
        QueueStep::Drop(other) => law_drop(state, other),
        QueueStep::Retry(other, send_after_ms, attempts) => {
            law_requeue(state, other, send_after_ms, attempts);
        },
    }
}

proof fn lemma_not_waiting_later(
    states: Seq<QueueState>,
    steps: Seq<QueueStep>,
    max_bytes: u64,
    seq: u64,
    i: int,
    j: int,
)
    requires
        is_history(states, steps, max_bytes),
        max_bytes < u64::MAX,
        0 <= i <= j < states.len(),
        !states[i].pending.contains_key(seq),
        seq < states[i].next_seq(),
    ensures
        !states[j].pending.contains_key(seq),
    decreases j - i,
{
    if i < j {
        law_queue_is_bounded(states, steps, max_bytes, i);
        lemma_not_waiting_again(states[i], steps[i], max_bytes, seq);
        lemma_not_waiting_later(states, steps, max_bytes, seq, i + 1, j);
    }
}

/// No sequence number is ever claimed twice: what two workers deliver are two
/// records, and a record that is tried again has a new number.
pub proof fn law_claimed_once(
    states: Seq<QueueState>,
    steps: Seq<QueueStep>,
    max_bytes: u64,
    i: int,
    j: int,
    first_ms: int,
    second_ms: int,
)
    requires
        is_history(states, steps, max_bytes),
        max_bytes < u64::MAX,
        0 <= i < j < steps.len(),
        steps[i] == QueueStep::Claim(first_ms),
        steps[j] == QueueStep::Claim(second_ms),
    ensures
        first_ready(states[i].waiting(), first_ms) matches Some(first) ==> (first_ready(
            states[j].waiting(),
            second_ms,
        ) matches Some(second) ==> first.0 != second.0),
{
    if let Some((seq, data)) = first_ready(states[i].waiting(), first_ms) {
        law_queue_is_bounded(states, steps, max_bytes, i);
        law_queue_is_bounded(states, steps, max_bytes, j);
        law_claims_oldest_ready(states[i], first_ms);
        law_claims_oldest_ready(states[j], second_ms);
        law_claim(states[i], seq);
        assert(states[i].allows(steps[i]));
        assert(states[i + 1] == states[i].claimed(seq));
        lemma_not_waiting_later(states, steps, max_bytes, seq, i + 1, j);
    }
}

/// A missing number counts as zero.
pub proof fn law_missing_numbers(state: QueueState, n: u64)
    ensures
        or_zero(Some(n)) == n,
        or_zero(None) == 0,
        state.meta.next_seq matches Some(next) ==> state.next_seq() == next,
        state.meta.next_seq is None ==> state.next_seq() == 0,
        state.meta.queue_bytes matches Some(bytes) ==> state.queue_bytes() == bytes,
        state.meta.queue_bytes is None ==> state.queue_bytes() == 0,
{
}

/// A record is put into a queue exactly if it can be laid out and the bytes in the
/// queue and its own, 17 more than its identifier and its payload, are together at
/// most the limit. A record that can be laid out is refused because the queue is
/// full, and for no other reason. A queue whose limit is the largest number is never
/// full.
pub proof fn law_record_is_accepted(meta: QueueMeta, record: RecordView, max_bytes: u64)
    ensures
        ({
            let used: int = match meta.queue_bytes {
                Some(n) => n as int,
                None => 0,
            };
            let size = 17 + encode_utf8(record.uuid).len() + record.payload.len();
            let fits = used + size <= max_bytes || max_bytes == 18446744073709551615;
            let short = encode_utf8(record.uuid).len() <= 255 && record.payload.len()
                <= 4294967295;
            &&& short ==> record.layout().len() == size
            &&& enqueue_error(meta, record, max_bytes) is None <==> short && fits
            &&& enqueue_error(meta, record, max_bytes) == Some(AppError::QueueFull) <==> short
                && !fits
        }),
{
    law_retry_keeps_size(record, record.send_after_ms, record.attempts);
    law_records_that_can_be_laid_out(record);
}

/// What each transaction does to the tables and the numbers of a queue.
pub proof fn law_transactions(
    state: QueueState,
    seq: u64,
    data: Seq<u8>,
)
    requires
        state.next_seq() < u64::MAX,
    ensures
        ({
            let init = state.apply_all(init_writes(state.meta));
            &&& init.pending == state.pending
            &&& init.inflight == state.inflight
            &&& init.meta.next_seq == Some(state.next_seq())
            &&& init.meta.queue_bytes == Some(state.queue_bytes())
        }),
        ({
            let put = state.apply_all(enqueue_writes(state.meta, data));
            &&& put.pending == state.pending.insert(state.next_seq(), data)
            &&& put.inflight == state.inflight
            &&& put.next_seq() == state.next_seq() + 1
            &&& state.queue_bytes() + data.len() <= 18446744073709551615 ==> put.queue_bytes()
                == state.queue_bytes() + data.len()
            &&& state.queue_bytes() + data.len() > 18446744073709551615 ==> put.queue_bytes()
                == 18446744073709551615
        }),
        state.pending.contains_key(seq) ==> ({
            let claimed = state.apply_all(claim_writes(Some((seq, state.pending[seq]))));
            &&& claimed.pending == state.pending.remove(seq)
            &&& claimed.inflight == state.inflight.insert(seq, state.pending[seq])
            &&& claimed.meta == state.meta
        }),
        state.apply_all(claim_writes(None)) == state,
        state.inflight.contains_key(seq) ==> ({
            let dropped = state.apply_all(
                drop_writes(state.meta, seq, Some(state.inflight[seq].len())),
            );
            &&& dropped.pending == state.pending
            &&& dropped.inflight == state.inflight.remove(seq)
            &&& dropped.next_seq() == state.next_seq()
            &&& state.inflight[seq].len() <= state.queue_bytes() ==> dropped.queue_bytes()
                == state.queue_bytes() - state.inflight[seq].len()
            &&& state.inflight[seq].len() > state.queue_bytes() ==> dropped.queue_bytes() == 0
        }),
        state.apply_all(drop_writes(state.meta, seq, None)) == state,
        ({
            let requeued = state.apply_all(requeue_writes(state.meta, seq, data));
            &&& requeued.pending == state.pending.insert(state.next_seq(), data)
            &&& requeued.inflight == state.inflight.remove(seq)
            &&& requeued.next_seq() == state.next_seq() + 1
            &&& requeued.meta.queue_bytes == state.meta.queue_bytes
        }),
{
    law_init(state);
    lemma_apply_three(
        state,
        WriteView::PutPending(state.next_seq(), data),
        WriteView::SetNextSeq((state.next_seq() + 1) as u64),
        WriteView::SetQueueBytes(saturating_sum(state.queue_bytes(), data.len())),
    );
    if state.pending.contains_key(seq) {
        law_claim(state, seq);
    }
    law_drop(state, seq);
    lemma_apply_three(
        state,
        WriteView::RemoveInflight(seq),
        WriteView::PutPending(state.next_seq(), data),
        WriteView::SetNextSeq((state.next_seq() + 1) as u64),
    );
}

/// A record is ready from its time on, and what is no record at any time.
pub proof fn law_ready_from_its_time_on(data: Seq<u8>, record: RecordView, now_ms: int)
    ensures
        record.in_range() && record.layout_error() is None && record.layout().is_prefix_of(data)
            ==> (is_ready(data, now_ms) <==> record.send_after_ms <= now_ms),
        record_in(data) is None ==> is_ready(data, now_ms),
{
    law_reading(data, record);
}

/// Of some stored records the first ready one is found: it is ready and none before
/// it is. None is found exactly if none is ready.
pub proof fn law_first_ready(entries: Seq<(u64, Seq<u8>)>, now_ms: int)
    ensures
        match first_ready(entries, now_ms) {
            Some(entry) => exists|i: int|
                {
                    &&& 0 <= i < entries.len()
                    &&& #[trigger] entries[i] == entry
                    &&& is_ready(entries[i].1, now_ms)
                    &&& forall|j: int| 0 <= j < i ==> !is_ready(#[trigger] entries[j].1, now_ms)
                },
            None => forall|i: int|
                0 <= i < entries.len() ==> !is_ready(#[trigger] entries[i].1, now_ms),
        },
    decreases entries.len(),
{
    if entries.len() > 0 {
        let front = entries.drop_last();
        law_first_ready(front, now_ms);
        match first_ready(front, now_ms) {
            Some(entry) => {
                let i = choose|i: int|
                    {
                        &&& 0 <= i < front.len()
                        &&& #[trigger] front[i] == entry
                        &&& is_ready(front[i].1, now_ms)
                        &&& forall|j: int| 0 <= j < i ==> !is_ready(#[trigger] front[j].1, now_ms)
                    };
                assert(entries[i] == entry);
                assert forall|j: int| 0 <= j < i implies !is_ready(
                    #[trigger] entries[j].1,
                    now_ms,
                ) by {
                    assert(front[j] == entries[j]);
                }
            },
            None => {
                assert forall|j: int| 0 <= j < front.len() implies !is_ready(
                    #[trigger] entries[j].1,
                    now_ms,
                ) by {
                    assert(front[j] == entries[j]);
                }
                assert(entries[entries.len() - 1] == entries.last());
            },
        }
    }
}

/// [`check_enqueue`] refuses a record with an identifier of at most 255 bytes and a
/// payload of at most 4294967295 only if the bytes in the queue and those of the
/// record are together above the limit, and gives its layout otherwise.
pub proof fn law_check_enqueue(
    meta: QueueMeta,
    record: QueueRecord,
    max_bytes: u64,
    r: Result<Vec<u8>, AppError>,
)
    requires
        call_ensures(check_enqueue, (meta, &record, max_bytes), r),
        encode_utf8(record@.uuid).len() <= 255,
        record@.payload.len() <= 4294967295,
    ensures
        ({
            let used: int = match meta.queue_bytes {
                Some(n) => n as int,
                None => 0,
            };
            let size = 17 + encode_utf8(record@.uuid).len() + record@.payload.len();
            &&& used + size <= max_bytes ==> r is Ok
            &&& r is Err ==> used + size > max_bytes && r == Err::<Vec<u8>, AppError>(
                AppError::QueueFull,
            )
            &&& r matches Ok(data) ==> data@.len() == size && data@ == record@.layout()
        }),
{
    law_record_is_accepted(meta, record@, max_bytes);
}

} // verus!
