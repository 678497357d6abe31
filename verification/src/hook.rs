//! The way of a webhook into the queue: it is checked, turned into a stream of
//! bytes, and cut into chunks as the bytes arrive.
//!
//! The stream begins with a marker, the size of the report on the webhook and the
//! report; the body follows.
use vstd::prelude::*;
use vstd::string::*;
use vstd::utf8::*;

use crate::chunking::{
    law_chunk_size_is_largest, law_large_webhook_envelopes_fit, law_last_envelope_fits,
    law_uuid_envelopes_fit, law_worst_overhead, resolve_chunk_size, resolved_chunk_size,
    worst_overhead, MAX_ENVELOPE_BYTES,
};
use crate::clock::{is_clock_ms, is_read_ms, now_ms};
use crate::config::{Config, ConfigView};
use crate::envelope::{
    envelope_json, envelope_size, is_plain_json, lemma_json_word_sizes, opt_nat, push_bytes,
    ChunkEnvelope, EnvelopeView,
};
use crate::error::AppError;
use crate::number::{decimal, parse_unsigned, unsigned_value};
use crate::outside::{
    base64_encode, base64_len, base64_text, is_base64_char, is_drawn_uuid, is_plain_json_char,
    is_uuid_v4, json_string, lemma_drawn_uuid, random_uuid,
};
use crate::rate_limiter::{after_request, lets_through, RateLimiter};
use crate::record::{
    as_signed, be_bytes, be_value, lemma_be_round_trip, lemma_pow256, new_record, push_be,
    QueueRecord,
};

verus! {

/// Whether a webhook for `uuid` that comes in at `now` is accepted. One that
/// nobody subscribed to is refused, and does not count for the limit.
pub fn check_webhook(known: bool, limiter: &mut RateLimiter, uuid: &str, now: u64) -> (r: Result<
    (),
    AppError,
>)
    ensures
        final(limiter).limit() == old(limiter).limit(),
        if !known {
            &&& r == Err::<(), AppError>(AppError::SubscriptionNotFound)
            &&& final(limiter).entries() == old(limiter).entries()
        } else {
            &&& final(limiter).entries() == after_request(
                old(limiter).limit(),
                old(limiter).entries(),
                uuid@,
                now,
            )
            &&& r == if lets_through(old(limiter).limit(), old(limiter).entries(), uuid@, now) {
                Ok::<(), AppError>(())
            } else {
                Err::<(), AppError>(AppError::RateLimitExceeded)
            }
        },
{
    if !known {
        return Err(AppError::SubscriptionNotFound);
    }
    if !limiter.allow(uuid, now) {
        return Err(AppError::RateLimitExceeded);
    }
    Ok(())
}

/// What a stream begins with: the marker, the size of the report and the report.
pub open spec fn stream_prefix(meta: Seq<u8>) -> Seq<u8> {
    seq![0x57u8, 0x48u8, 0x50u8, 0x31u8] + be_bytes(meta.len(), 4) + meta
}

/// The marker, the report and the body can be told apart in a stream.
pub proof fn law_stream_can_be_read(meta: Seq<u8>, body: Seq<u8>)
    requires
        meta.len() <= u32::MAX,
    ensures
        ({
            let stream = stream_prefix(meta) + body;
            let size = be_value(stream.subrange(4, 8)) as int;
            &&& stream.len() == 8 + meta.len() + body.len()
            &&& stream.subrange(0, 4) == seq![0x57u8, 0x48u8, 0x50u8, 0x31u8]
            &&& size == meta.len()
            &&& stream.subrange(8, 8 + size) == meta
            &&& stream.skip(8 + size) == body
        }),
{
    let stream = stream_prefix(meta) + body;
    lemma_pow256();
    lemma_be_round_trip(meta.len(), 4);
    assert(stream.subrange(4, 8) =~= be_bytes(meta.len(), 4));
    assert(stream.subrange(0, 4) =~= seq![0x57u8, 0x48u8, 0x50u8, 0x31u8]);
    assert(stream.subrange(8, 8 + meta.len() as int) =~= meta);
    assert(stream.skip(8 + meta.len() as int) =~= body);
}

/// The size of the body that a request announces, if it announces one that can
/// be read.
pub open spec fn declared_length(content_length: Option<&str>) -> Option<nat> {
    match content_length {
        Some(text) => match unsigned_value(text@, usize::MAX as nat) {
            Ok(n) => Some(n),
            Err(_) => None,
        },
        None => None,
    }
}

/// The largest stream that a webhook can make.
pub open spec fn max_stream_bytes(cfg: ConfigView) -> nat {
    if cfg.max_payload_bytes + 8 > usize::MAX {
        usize::MAX as nat
    } else {
        cfg.max_payload_bytes + 8
    }
}

/// Why a webhook is refused before its body is read, if it is.
pub open spec fn begin_error(
    request_id: Seq<char>,
    meta_len: nat,
    content_length: Option<&str>,
    cfg: ConfigView,
) -> Option<AppError> {
    if meta_len > cfg.max_payload_bytes {
        Some(AppError::PayloadExceedsLimit)
    } else if meta_len > u32::MAX {
        Some(AppError::MetadataTooLarge)
    } else if declared_length(content_length) is Some && declared_length(content_length)->0
        > cfg.max_payload_bytes - meta_len {
        Some(AppError::PayloadExceedsLimit)
    } else {
        match resolved_chunk_size(request_id, cfg.chunk_data_bytes, max_stream_bytes(cfg)) {
            Ok(_) => None,
            Err(e) => Some(e),
        }
    }
}

/// One chunk of a stream, with the time from which it may be delivered.
#[derive(Debug)]
pub struct Chunk {
    pub index: usize,
    pub total: Option<usize>,
    pub is_last: bool,
    pub data: Vec<u8>,
    pub send_after_ms: i64,
}

/// The envelope of a chunk.
pub open spec fn chunk_envelope(request_id: Seq<char>, chunk: Chunk) -> EnvelopeView {
    EnvelopeView {
        request_id,
        chunk_index: chunk.index as nat,
        total_chunks: opt_nat(chunk.total),
        is_last: chunk.is_last,
        data: base64_text(chunk.data@),
    }
}

/// The size of the envelope of a chunk.
pub open spec fn chunk_envelope_size(request_id: Seq<char>, chunk: Chunk) -> nat {
    envelope_size(
        request_id,
        chunk.index as nat,
        opt_nat(chunk.total),
        chunk.is_last,
        base64_len(chunk.data@.len()),
    )
}

/// The record that delivers a chunk to the subscription `uuid`: the chunk in
/// base64, in its envelope.
pub fn enqueue_chunk(uuid: &str, request_id: &str, chunk: Chunk) -> (record: QueueRecord)
    requires
        base64_len(chunk.data@.len()) <= usize::MAX,
    ensures
        record@ == new_record(
            uuid@,
            envelope_json(chunk_envelope(request_id@, chunk)),
            chunk.send_after_ms as int,
        ),
        record@.payload.len() == chunk_envelope_size(request_id@, chunk),
        is_plain_json(request_id@) ==> json_string(request_id@).len() == request_id@.len() + 2,
{
    let envelope = ChunkEnvelope {
        request_id: request_id.to_owned(),
        chunk_index: chunk.index,
        total_chunks: chunk.total,
        is_last: chunk.is_last,
        data: base64_encode(chunk.data.as_slice()),
    };
    proof {
        assert forall|i: int| 0 <= i < envelope.data@.len() implies is_plain_json_char(
            #[trigger] envelope.data@[i],
        ) by {
            assert(is_base64_char(envelope.data@[i]));
        }
        assert(envelope@ =~= chunk_envelope(request_id@, chunk));
    }
    let payload: Vec<u8> = envelope.to_json();
    QueueRecord::new(uuid, payload, chunk.send_after_ms)
}

/// What comes of waiting for more of a body.
#[derive(Debug)]
pub enum BodyEvent {
    /// Some bytes came.
    Data(Vec<u8>),
    /// The body is complete.
    End,
    /// The body could not be read.
    Failed,
    /// Nothing came in time.
    TimedOut,
}

/// A webhook whose body is being received.
pub struct HookStream {
    request_id: String,
    chunk_size: usize,
    buffer: Vec<u8>,
    chunk_index: usize,
    total_body_bytes: usize,
    max_body_bytes: usize,
    next_send_after_ms: i64,
    delay_ms: i64,
    stream: Ghost<Seq<u8>>,
    cfg: Ghost<ConfigView>,
}

/// The state of a [`HookStream`].
#[verifier::ext_equal]
pub ghost struct HookView {
    pub request_id: Seq<char>,
    /// The bytes per chunk.
    pub chunk_size: nat,
    /// The number of chunks that were taken.
    pub taken: nat,
    /// All bytes of the stream so far.
    pub stream: Seq<u8>,
    /// How many of these are of the body, and how many may be.
    pub body_len: nat,
    pub max_body_len: nat,
    /// The time of the next chunk, and the time between two chunks.
    pub next_send_after_ms: int,
    pub delay_ms: int,
    /// The configuration that the webhook was begun under.
    pub cfg: ConfigView,
}

impl HookView {
    /// The bytes that no chunk was made of yet.
    pub open spec fn rest(self) -> Seq<u8> {
        self.stream.skip((self.taken * self.chunk_size) as int)
    }

    /// The invariant: the chunks that were taken are of the stream, and the
    /// stream stays within what the chunk size was made for.
    pub open spec fn wf(self) -> bool {
        &&& resolved_chunk_size(
            self.request_id,
            self.cfg.chunk_data_bytes,
            max_stream_bytes(self.cfg),
        ) == Ok::<nat, AppError>(self.chunk_size)
        &&& self.taken * self.chunk_size <= self.stream.len()
        &&& 8 + self.body_len <= self.stream.len()
        &&& self.body_len <= self.max_body_len
        &&& self.stream.len() - self.body_len + self.max_body_len
            == self.cfg.max_payload_bytes + 8
    }

    /// Whether every full chunk was taken.
    pub open spec fn is_drained(self) -> bool {
        self.rest().len() < self.chunk_size
    }

    /// The next full chunk.
    pub open spec fn next_data(self) -> Seq<u8> {
        self.stream.subrange(
            (self.taken * self.chunk_size) as int,
            ((self.taken + 1) * self.chunk_size) as int,
        )
    }
}

/// Some arithmetic on full chunks.
proof fn lemma_one_more(n: nat, size: nat)
    ensures
        (n + 1) * size == n * size + size,
        n * size >= 0,
{
    assert((n + 1) * size == n * size + size) by (nonlinear_arith);
}

proof fn lemma_count_bound(n: nat, size: nat, total: nat)
    requires
        n * size <= total,
        size >= 1,
    ensures
        n <= total,
        size >= 2 ==> 2 * n <= total,
{
    assert(n <= total) by (nonlinear_arith)
        requires
            n * size <= total,
            size >= 1,
    ;
    if size >= 2 {
        assert(2 * n <= total) by (nonlinear_arith)
            requires
                n * size <= total,
                size >= 2,
        ;
    }
}

/// A number has at most one digit more than the number before it.
proof fn lemma_decimal_successor(n: nat)
    ensures
        decimal(n + 1).len() <= decimal(n).len() + 1,
    decreases n,
{
    if n + 1 >= 10 {
        if (n + 1) % 10 == 0 {
            assert((n + 1) / 10 == n / 10 + 1);
            if n >= 10 {
                lemma_decimal_successor(n / 10);
            } else {
                assert(n == 9);
                assert(decimal(1).len() == 1);
            }
        } else {
            assert((n + 1) / 10 == n / 10);
        }
    }
}

/// Every envelope of a webhook whose identifier is a UUID fits in a push
/// message, whatever the configuration is.
pub proof fn law_envelopes_fit(view: HookView, chunk: Chunk)
    requires
        view.wf(),
        is_uuid_v4(view.request_id),
        json_string(view.request_id).len() == view.request_id.len() + 2,
        chunk.index == view.taken + 1,
        if chunk.is_last {
            &&& view.is_drained()
            &&& chunk.data@ == view.rest()
            &&& chunk.total == Some(chunk.index)
        } else {
            &&& !view.is_drained()
            &&& chunk.data@ == view.next_data()
            &&& chunk.total is None
        },
    ensures
        chunk_envelope_size(view.request_id, chunk) <= MAX_ENVELOPE_BYTES,
{
    let max_total = max_stream_bytes(view.cfg);
    let index = chunk.index as nat;
    let configured = view.cfg.chunk_data_bytes;
    lemma_one_more(view.taken, view.chunk_size);
    lemma_count_bound(view.taken, view.chunk_size, view.stream.len());
    if chunk.is_last {
        if index <= max_total {
            law_last_envelope_fits(
                view.request_id,
                configured,
                max_total,
                view.chunk_size,
                index,
                chunk.data@.len(),
            );
        } else {
            // One chunk per byte, and nothing left for the last.
            assert(index == max_total + 1);
            assert(chunk.data@.len() == 0);
            lemma_decimal_successor(max_total);
            lemma_json_word_sizes();
            assert(worst_overhead(view.request_id, max_total) + 4 <= MAX_ENVELOPE_BYTES);
        }
    } else {
        if index * view.chunk_size <= max_total {
            law_uuid_envelopes_fit(
                view.request_id,
                configured,
                max_total,
                view.chunk_size,
                index,
            );
        } else {
            law_large_webhook_envelopes_fit(
                view.request_id,
                configured,
                max_total,
                view.chunk_size,
                index,
            );
        }
    }
}

impl HookStream {
    /// The state of the webhook.
    pub closed spec fn state(&self) -> HookView {
        HookView {
            request_id: self.request_id@,
            chunk_size: self.chunk_size as nat,
            taken: self.chunk_index as nat,
            stream: self.stream@,
            body_len: self.total_body_bytes as nat,
            max_body_len: self.max_body_bytes as nat,
            next_send_after_ms: self.next_send_after_ms as int,
            delay_ms: self.delay_ms as int,
            cfg: self.cfg@,
        }
    }

    /// The invariant: the buffer holds what no chunk was made of yet.
    pub closed spec fn wf(&self) -> bool {
        &&& self.state().wf()
        &&& self.buffer@ == self.state().rest()
    }

    /// Begins a webhook with the identifier `request_id` at `now_ms`. `meta` is
    /// the report on it and `content_length` the header of that name, if there is
    /// one and it is text.
    pub fn begin(
        request_id: String,
        meta: &[u8],
        content_length: Option<&str>,
        cfg: &Config,
        now_ms: i64,
    ) -> (r: Result<HookStream, AppError>)
        ensures
            match r {
                Ok(hook) => {
                    &&& begin_error(request_id@, meta@.len(), content_length, cfg@) is None
                    &&& hook.wf()
                    &&& hook.state().wf()
                    &&& hook.state().request_id == request_id@
                    &&& hook.state().taken == 0
                    &&& hook.state().stream == stream_prefix(meta@)
                    &&& hook.state().body_len == 0
                    &&& hook.state().max_body_len == cfg@.max_payload_bytes - meta@.len()
                    &&& hook.state().next_send_after_ms == now_ms
                    &&& hook.state().delay_ms == as_signed(cfg@.chunk_delay_ms)
                    &&& hook.state().cfg == cfg@
                },
                Err(e) => begin_error(request_id@, meta@.len(), content_length, cfg@) == Some(e),
            },
    {
        if meta.len() > cfg.max_payload_bytes {
            return Err(AppError::PayloadExceedsLimit);
        }
        if meta.len() > 0xffff_ffff {
            return Err(AppError::MetadataTooLarge);
        }
        let max_body_bytes: usize = cfg.max_payload_bytes - meta.len();
        match content_length {
            Some(text) => match parse_unsigned(text, usize::MAX as u64) {
                Ok(length) => {
                    if length as usize > max_body_bytes {
                        return Err(AppError::PayloadExceedsLimit);
                    }
                },
                Err(_) => {},
            },
            None => {},
        }
        let mut prefix: Vec<u8> = Vec::new();
        prefix.push(0x57);
        prefix.push(0x48);
        prefix.push(0x50);
        prefix.push(0x31);
        push_be(&mut prefix, meta.len() as u64, 4);
        push_bytes(&mut prefix, meta);
        proof {
            assert(prefix@ =~= stream_prefix(meta@));
            law_stream_can_be_read(meta@, Seq::empty());
            assert(stream_prefix(meta@) + Seq::<u8>::empty() =~= stream_prefix(meta@));
        }
        let max_total_bytes: usize = prefix.len().saturating_add(max_body_bytes);
        let chunk_size: usize = resolve_chunk_size(
            request_id.as_str(),
            cfg.chunk_data_bytes,
            max_total_bytes,
        )?;
        let delay_ms: i64 = if cfg.chunk_delay_ms <= i64::MAX as u64 {
            cfg.chunk_delay_ms as i64
        } else {
            (cfg.chunk_delay_ms as i128 - 0x1_0000_0000_0000_0000) as i64
        };
        let hook = HookStream {
            request_id,
            chunk_size,
            stream: Ghost(prefix@),
            buffer: prefix,
            chunk_index: 0,
            total_body_bytes: 0,
            max_body_bytes,
            next_send_after_ms: now_ms,
            delay_ms,
            cfg: Ghost(cfg@),
        };
        proof {
            let size = hook.state().chunk_size;
            assert(0nat * size == 0) by (nonlinear_arith);
            assert(hook.state().rest() =~= hook.buffer@);
        }
        Ok(hook)
    }

    /// Begins a webhook now, under a random identifier.
    pub fn start(meta: &[u8], content_length: Option<&str>, cfg: &Config) -> (r: Result<
        HookStream,
        AppError,
    >)
        ensures
            match r {
                Ok(hook) => {
                    &&& begin_error(
                        hook.state().request_id,
                        meta@.len(),
                        content_length,
                        cfg@,
                    ) is None
                    &&& hook.wf()
                    &&& hook.state().wf()
                    &&& is_uuid_v4(hook.state().request_id)
                    &&& is_drawn_uuid(hook.state().request_id)
                    &&& hook.state().taken == 0
                    &&& hook.state().stream == stream_prefix(meta@)
                    &&& hook.state().body_len == 0
                    &&& hook.state().max_body_len == cfg@.max_payload_bytes - meta@.len()
                    &&& is_clock_ms(hook.state().next_send_after_ms)
                    &&& is_read_ms(hook.state().next_send_after_ms)
                    &&& hook.state().delay_ms == as_signed(cfg@.chunk_delay_ms)
                    &&& hook.state().cfg == cfg@
                },
                Err(e) => exists|id: Seq<char>|
                    is_uuid_v4(id) && is_drawn_uuid(id) && #[trigger] begin_error(
                        id,
                        meta@.len(),
                        content_length,
                        cfg@,
                    ) == Some(e),
            },
    {
        let request_id: String = random_uuid();
        proof {
            lemma_drawn_uuid(request_id);
        }
        HookStream::begin(request_id, meta, content_length, cfg, now_ms())
    }

    /// Whether the number of the next chunk and the time after it fit in their
    /// types.
    pub open spec fn has_next(&self) -> bool {
        &&& self.state().taken < usize::MAX
        &&& i64::MIN <= self.state().next_send_after_ms + self.state().delay_ms <= i64::MAX
    }

    /// Whether the bytes of another full chunk have come.
    pub fn chunk_ready(&self) -> (ready: bool)
        requires
            self.wf(),
        ensures
            ready == !self.state().is_drained(),
    {
        self.buffer.len() >= self.chunk_size
    }

    /// Whether the number of the next chunk fits in its type.
    pub fn has_number(&self) -> (yes: bool)
        ensures
            yes == (self.state().taken < usize::MAX),
    {
        self.chunk_index < usize::MAX
    }

    /// Whether the number of the next chunk and the time after it fit in their
    /// types.
    pub fn can_go_on(&self) -> (yes: bool)
        ensures
            yes == self.has_next(),
    {
        let next: i128 = self.next_send_after_ms as i128 + self.delay_ms as i128;
        self.chunk_index < usize::MAX && i64::MIN as i128 <= next && next <= i64::MAX as i128
    }

    /// Takes the next full chunk, if the bytes for it have come.
    pub fn next_chunk(&mut self) -> (chunk: Option<Chunk>)
        requires
            old(self).wf(),
            old(self).state().is_drained() || old(self).has_next(),
        ensures
            final(self).wf(),
            final(self).state().wf(),
            match chunk {
                Some(chunk) => {
                    &&& !old(self).state().is_drained()
                    &&& chunk.index == old(self).state().taken + 1
                    &&& chunk.total is None
                    &&& !chunk.is_last
                    &&& chunk.data@ == old(self).state().next_data()
                    &&& chunk.send_after_ms == old(self).state().next_send_after_ms
                },
                None => old(self).state().is_drained(),
            },
            final(self).state() == old(self).state().stepped(HookStep::Take),
    {
        if self.buffer.len() < self.chunk_size {
            return None;
        }
        let ghost before = self.state();
        let mut data: Vec<u8> = self.buffer.split_off(self.chunk_size);
        std::mem::swap(&mut data, &mut self.buffer);
        let send_after_ms: i64 = self.next_send_after_ms;
        self.chunk_index = self.chunk_index + 1;
        self.next_send_after_ms = self.next_send_after_ms + self.delay_ms;
        proof {
            lemma_one_more(before.taken, before.chunk_size);
            assert(data@ =~= before.next_data());
            assert(self.buffer@ =~= self.state().rest());
        }
        Some(Chunk { index: self.chunk_index, total: None, is_last: false, data, send_after_ms })
    }

    /// Takes in what came of waiting for more of the body. Returns whether the
    /// body is complete.
    pub fn receive(&mut self, event: BodyEvent) -> (r: Result<bool, AppError>)
        requires
            old(self).wf(),
        ensures
            final(self).wf(),
            final(self).state().wf(),
            match event {
                BodyEvent::Data(bytes) => if old(self).state().body_len + bytes@.len() > old(
                    self,
                ).state().max_body_len {
                    &&& r == Err::<bool, AppError>(AppError::PayloadExceedsLimit)
                    &&& final(self).state() == old(self).state()
                } else {
                    &&& r == Ok::<bool, AppError>(false)
                    &&& final(self).state() == old(self).state().stepped(
                        HookStep::Receive(bytes@),
                    )
                },
                BodyEvent::End => r == Ok::<bool, AppError>(true) && final(self).state() == old(
                    self,
                ).state(),
                BodyEvent::Failed => {
                    &&& r == Err::<bool, AppError>(AppError::InvalidBody)
                    &&& final(self).state() == old(self).state()
                },
                BodyEvent::TimedOut => {
                    &&& r == Err::<bool, AppError>(AppError::BodyTimeout)
                    &&& final(self).state() == old(self).state()
                },
            },
    {
        match event {
            BodyEvent::Data(bytes) => {
                if bytes.len() > self.max_body_bytes - self.total_body_bytes {
                    return Err(AppError::PayloadExceedsLimit);
                }
                let ghost before = self.state();
                self.total_body_bytes = self.total_body_bytes + bytes.len();
                push_bytes(&mut self.buffer, bytes.as_slice());
                self.stream = Ghost(before.stream + bytes@);
                proof {
                    assert(self.buffer@ =~= self.state().rest());
                }
                Ok(false)
            },
            BodyEvent::End => Ok(true),
            BodyEvent::Failed => Err(AppError::InvalidBody),
            BodyEvent::TimedOut => Err(AppError::BodyTimeout),
        }
    }

    /// Takes the last chunk: what is left once every full chunk was taken.
    pub fn last_chunk(self) -> (chunk: Chunk)
        requires
            self.wf(),
            self.state().is_drained(),
            self.state().taken < usize::MAX,
        ensures
            chunk.index == self.state().taken + 1,
            chunk.total == Some(chunk.index),
            chunk.is_last,
            chunk.data@ == self.state().rest(),
            chunk.send_after_ms == self.state().next_send_after_ms,
    {
        let index: usize = self.chunk_index + 1;
        Chunk {
            index,
            total: Some(index),
            is_last: true,
            data: self.buffer,
            send_after_ms: self.next_send_after_ms,
        }
    }

    /// Takes the next full chunk, if the bytes for it have come, as a record for
    /// the subscription `uuid`.
    pub fn next_record(&mut self, uuid: &str) -> (record: Option<QueueRecord>)
        requires
            old(self).wf(),
            old(self).state().is_drained() || old(self).has_next(),
        ensures
            final(self).wf(),
            final(self).state().wf(),
            final(self).state() == old(self).state().stepped(HookStep::Take),
            record is None <==> old(self).state().is_drained(),
            record matches Some(record) ==> {
                &&& record@ == new_record(
                    uuid@,
                    envelope_json(old(self).state().next_envelope()),
                    old(self).state().next_send_after_ms,
                )
                &&& is_uuid_v4(old(self).state().request_id) ==> record@.payload.len()
                    <= MAX_ENVELOPE_BYTES
                &&& is_uuid_v4(old(self).state().request_id) && encode_utf8(uuid@).len() <= u8::MAX
                    ==> record@.in_range() && record@.layout_error() is None
            },
    {
        let ghost before = self.state();
        match self.next_chunk() {
            Some(chunk) => {
                proof {
                    lemma_one_more(before.taken, before.chunk_size);
                    assert(chunk_envelope(before.request_id, chunk) =~= before.next_envelope());
                }
                let ghost taken_chunk = chunk;
                let record: QueueRecord = enqueue_chunk(uuid, self.request_id.as_str(), chunk);
                proof {
                    if is_uuid_v4(before.request_id) {
                        law_envelopes_fit(before, taken_chunk);
                    }
                }
                Some(record)
            },
            None => None,
        }
    }

    /// Takes the last chunk, as a record for the subscription `uuid`.
    pub fn last_record(self, uuid: &str) -> (record: QueueRecord)
        requires
            self.wf(),
            self.state().is_drained(),
            self.state().taken < usize::MAX,
        ensures
            record@ == new_record(
                uuid@,
                envelope_json(self.state().last_envelope()),
                self.state().next_send_after_ms,
            ),
            is_uuid_v4(self.state().request_id) ==> record@.payload.len() <= MAX_ENVELOPE_BYTES,
            is_uuid_v4(self.state().request_id) && encode_utf8(uuid@).len() <= u8::MAX
                ==> record@.in_range() && record@.layout_error() is None,
    {
        let ghost before = self.state();
        let request_id: String = self.request_id.clone();
        let chunk: Chunk = self.last_chunk();
        let ghost taken_chunk = chunk;
        proof {
            assert(chunk_envelope(before.request_id, chunk) =~= before.last_envelope());
        }
        let record: QueueRecord = enqueue_chunk(uuid, request_id.as_str(), chunk);
        proof {
            if is_uuid_v4(before.request_id) {
                law_envelopes_fit(before, taken_chunk);
            }
        }
        record
    }
}

/// What happens to a webhook while its body is received.
pub ghost enum HookStep {
    /// The next full chunk is taken, if the bytes for it have come.
    Take,
    /// Some bytes of the body come, and are taken in if they are not too many.
    Receive(Seq<u8>),
}

impl HookView {
    /// The envelope of the next full chunk.
    pub open spec fn next_envelope(self) -> EnvelopeView {
        EnvelopeView {
            request_id: self.request_id,
            chunk_index: self.taken + 1,
            total_chunks: None,
            is_last: false,
            data: base64_text(self.next_data()),
        }
    }

    /// The envelope of the last chunk.
    pub open spec fn last_envelope(self) -> EnvelopeView {
        EnvelopeView {
            request_id: self.request_id,
            chunk_index: self.taken + 1,
            total_chunks: Some(self.taken + 1),
            is_last: true,
            data: base64_text(self.rest()),
        }
    }

    /// The webhook after a step.
    pub open spec fn stepped(self, step: HookStep) -> HookView {
        match step {
            HookStep::Take => if self.is_drained() {
                self
            } else {
                HookView {
                    taken: self.taken + 1,
                    next_send_after_ms: self.next_send_after_ms + self.delay_ms,
                    ..self
                }
            },
            HookStep::Receive(bytes) => if self.body_len + bytes.len() > self.max_body_len {
                self
            } else {
                HookView {
                    stream: self.stream + bytes,
                    body_len: self.body_len + bytes.len(),
                    ..self
                }
            },
        }
    }

    /// The webhook after some steps.
    pub open spec fn after(self, steps: Seq<HookStep>) -> HookView
        decreases steps.len(),
    {
        if steps.len() == 0 {
            self
        } else {
            self.after(steps.drop_last()).stepped(steps.last())
        }
    }

    /// The chunks that are taken in some steps, with their times.
    pub open spec fn chunks_taken(self, steps: Seq<HookStep>) -> Seq<(Seq<u8>, int)>
        decreases steps.len(),
    {
        if steps.len() == 0 {
            Seq::empty()
        } else {
            let before = self.after(steps.drop_last());
            let chunks = self.chunks_taken(steps.drop_last());
            if steps.last() is Take && !before.is_drained() {
                chunks.push((before.next_data(), before.next_send_after_ms))
            } else {
                chunks
            }
        }
    }

    /// The bytes of the body that are taken in during some steps.
    pub open spec fn received(self, steps: Seq<HookStep>) -> Seq<u8>
        decreases steps.len(),
    {
        if steps.len() == 0 {
            Seq::empty()
        } else {
            let before = self.after(steps.drop_last());
            let bytes = self.received(steps.drop_last());
            match steps.last() {
                HookStep::Receive(more) => if before.body_len + more.len()
                    > before.max_body_len {
                    bytes
                } else {
                    bytes + more
                },
                HookStep::Take => bytes,
            }
        }
    }
}

/// The bytes of some chunks, one after the other.
pub open spec fn joined(chunks: Seq<(Seq<u8>, int)>) -> Seq<u8>
    decreases chunks.len(),
{
    if chunks.len() == 0 {
        Seq::empty()
    } else {
        joined(chunks.drop_last()) + chunks.last().0
    }
}

/// Every step keeps the invariant of a webhook.
pub proof fn law_step_keeps_hook(view: HookView, step: HookStep)
    requires
        view.wf(),
    ensures
        view.stepped(step).wf(),
{
    lemma_one_more(view.taken, view.chunk_size);
}

/// A webhook never takes in more than its limit, marker and size apart, and with
/// a limit a few bytes below the largest `usize` its chunks never run out of
/// numbers.
pub proof fn law_webhook_is_bounded(view: HookView)
    requires
        view.wf(),
    ensures
        view.stream.len() <= view.cfg.max_payload_bytes + 8,
        view.cfg.max_payload_bytes + 8 < usize::MAX ==> view.taken < usize::MAX,
{
    lemma_count_bound(view.taken, view.chunk_size, view.stream.len());
}

/// The status of each answer to a webhook that is not accepted.
pub proof fn law_webhook_statuses(
    request_id: Seq<char>,
    meta_len: nat,
    content_length: Option<&str>,
    cfg: ConfigView,
)
    ensures
        AppError::SubscriptionNotFound@.status == 404,
        AppError::RateLimitExceeded@.status == 429,
        AppError::BodyTimeout@.status == 408,
        AppError::InvalidBody@.status == 400,
        AppError::QueueFull@.status == 503,
        begin_error(request_id, meta_len, content_length, cfg) matches Some(e) ==> e@.status
            == 413,
{
}

/// Nothing of a webhook is lost, doubled or reordered on the way: however its
/// body comes in, the chunks, put together in the order of their numbers, are the
/// first bytes of the stream, and with the last chunk they are the whole stream.
/// Full chunks have the same size, and their times are equally far apart.
pub proof fn law_chunks_make_up_the_stream(start: HookView, steps: Seq<HookStep>)
    requires
        start.wf(),
        start.taken == 0,
    ensures
        ({
            let end = start.after(steps);
            let chunks = start.chunks_taken(steps);
            &&& end.wf()
            &&& end.stream == start.stream + start.received(steps)
            &&& chunks.len() == end.taken
            &&& joined(chunks) + end.rest() == end.stream
            &&& end.chunk_size == start.chunk_size
            &&& end.delay_ms == start.delay_ms
            &&& end.next_send_after_ms == start.next_send_after_ms + end.taken * start.delay_ms
            &&& forall|i: int|
                0 <= i < chunks.len() ==> (#[trigger] chunks[i]).0.len() == start.chunk_size
                    && chunks[i].1 == start.next_send_after_ms + i * start.delay_ms
        }),
    decreases steps.len(),
{
    if steps.len() == 0 {
        let size = start.chunk_size;
        let delay = start.delay_ms;
        assert(0nat * size == 0) by (nonlinear_arith);
        assert(0nat * delay == 0) by (nonlinear_arith);
        assert(start.stream =~= start.stream + Seq::<u8>::empty());
        assert(joined(start.chunks_taken(steps)) + start.rest() =~= start.stream);
    } else {
        let front = steps.drop_last();
        law_chunks_make_up_the_stream(start, front);
        let before = start.after(front);
        let chunks = start.chunks_taken(front);
        law_step_keeps_hook(before, steps.last());
        let end = start.after(steps);
        lemma_one_more(before.taken, before.chunk_size);
        match steps.last() {
            HookStep::Take => {
                if !before.is_drained() {
                    let taken = before.taken;
                    let delay = start.delay_ms;
                    assert((taken + 1) * delay == taken * delay + delay) by (nonlinear_arith);
                    let all = start.chunks_taken(steps);
                    assert(all.drop_last() =~= chunks);
                    assert(before.next_data() + end.rest() =~= before.rest());
                    assert(joined(all) + end.rest() =~= joined(chunks) + before.rest());
                }
            },
            HookStep::Receive(bytes) => {
                if before.body_len + bytes.len() <= before.max_body_len {
                    assert(end.rest() =~= before.rest() + bytes);
                    assert(joined(chunks) + end.rest() =~= before.stream + bytes);
                    assert(end.stream =~= start.stream + start.received(steps));
                }
            },
        }
    }
}

/// A webhook is begun exactly if its report and the body that it announces are
/// together within the limit, the report has at most 4294967295 bytes, chunks may
/// hold a byte, and the largest envelope leaves room for one. It is refused for its
/// size, or for that of its report, only above these limits.
pub proof fn law_webhook_is_begun(
    request_id: Seq<char>,
    meta_len: nat,
    content_length: Option<&str>,
    cfg: ConfigView,
)
    ensures
        ({
            let announced = match content_length {
                Some(text) => match unsigned_value(text@, usize::MAX as nat) {
                    Ok(n) => n,
                    Err(_) => 0,
                },
                None => 0,
            };
            let largest = if cfg.max_payload_bytes + 8 <= usize::MAX {
                cfg.max_payload_bytes + 8
            } else {
                usize::MAX as nat
            };
            let envelope = 71 + json_string(request_id).len() + 2 * decimal(largest).len();
            let error = begin_error(request_id, meta_len, content_length, cfg);
            &&& error is None <==> meta_len + announced <= cfg.max_payload_bytes && meta_len
                <= 4294967295 && cfg.chunk_data_bytes >= 1 && envelope + 4 <= 3000
            &&& error == Some(AppError::PayloadExceedsLimit) <==> meta_len > cfg.max_payload_bytes
                || (meta_len <= 4294967295 && meta_len + announced > cfg.max_payload_bytes)
            &&& error == Some(AppError::MetadataTooLarge) <==> 4294967295 < meta_len
                <= cfg.max_payload_bytes
            &&& error == Some(AppError::ChunkOverheadTooLarge) ==> envelope >= 3000
            &&& error == Some(AppError::ChunkSizeTooSmall) ==> envelope < 3000 && (
            cfg.chunk_data_bytes == 0 || envelope + 4 > 3000)
        }),
{
    let largest = max_stream_bytes(cfg);
    law_worst_overhead(request_id, cfg.chunk_data_bytes, largest);
    law_chunk_size_is_largest(cfg.chunk_data_bytes, worst_overhead(request_id, largest));
}

/// The chunks of a webhook are as large as asked for, and smaller only where a byte
/// more would make the largest envelope too large for a push message.
pub proof fn law_chunks_are_as_large_as_they_may_be(view: HookView)
    requires
        view.wf(),
    ensures
        ({
            let largest = if view.cfg.max_payload_bytes + 8 <= usize::MAX {
                view.cfg.max_payload_bytes + 8
            } else {
                usize::MAX as nat
            };
            let envelope = 71 + json_string(view.request_id).len() + 2 * decimal(largest).len();
            &&& 1 <= view.chunk_size <= view.cfg.chunk_data_bytes
            &&& envelope + 4 * ((view.chunk_size + 2) / 3) <= 3000
            &&& view.chunk_size == view.cfg.chunk_data_bytes || envelope + 4 * ((view.chunk_size + 3)
                / 3) > 3000
        }),
{
    let largest = max_stream_bytes(view.cfg);
    law_worst_overhead(view.request_id, view.cfg.chunk_data_bytes, largest);
    law_chunk_size_is_largest(view.cfg.chunk_data_bytes, worst_overhead(view.request_id, largest));
}

/// A full chunk is ready as soon as the stream goes on for its size behind the
/// chunks that were taken, and holds the bytes that follow these; the last chunk
/// holds all bytes that follow them.
pub proof fn law_bytes_of_chunks(view: HookView, i: int)
    requires
        view.wf(),
        i >= 0,
    ensures
        view.is_drained() <==> view.stream.len() < view.taken * view.chunk_size + view.chunk_size,
        !view.is_drained() ==> view.next_data().len() == view.chunk_size,
        !view.is_drained() && i < view.chunk_size ==> view.next_data()[i] == view.stream[view.taken
            * view.chunk_size + i],
        view.rest().len() == view.stream.len() - view.taken * view.chunk_size,
        i < view.rest().len() ==> view.rest()[i] == view.stream[view.taken * view.chunk_size + i],
{
    lemma_one_more(view.taken, view.chunk_size);
}

/// The envelopes of a webhook carry its identifier and the chunks in base64,
/// numbered from one. The number of chunks is known, and given, with the last.
pub proof fn law_envelopes_are_numbered(view: HookView)
    ensures
        view.next_envelope().request_id == view.request_id,
        view.next_envelope().chunk_index == view.taken + 1,
        view.next_envelope().total_chunks is None,
        !view.next_envelope().is_last,
        view.next_envelope().data == base64_text(view.next_data()),
        view.last_envelope().request_id == view.request_id,
        view.last_envelope().chunk_index == view.taken + 1,
        view.last_envelope().total_chunks == Some(view.taken + 1),
        view.last_envelope().is_last,
        view.last_envelope().data == base64_text(view.rest()),
{
}

/// The envelope of a chunk says what the chunk says, with the bytes in base64.
pub proof fn law_envelope_of_chunk(request_id: Seq<char>, chunk: Chunk)
    ensures
        chunk_envelope(request_id, chunk).request_id == request_id,
        chunk_envelope(request_id, chunk).chunk_index == chunk.index,
        chunk_envelope(request_id, chunk).is_last == chunk.is_last,
        chunk_envelope(request_id, chunk).data == base64_text(chunk.data@),
        chunk.total is None ==> chunk_envelope(request_id, chunk).total_chunks is None,
        chunk.total matches Some(n) ==> chunk_envelope(request_id, chunk).total_chunks == Some(
            n as nat,
        ),
{
}

/// Bytes of the body are taken in, behind those that came before, exactly if the
/// body stays within its limit; they change nothing else.
pub proof fn law_bytes_are_taken_in(view: HookView, bytes: Seq<u8>)
    ensures
        ({
            let after = view.stepped(HookStep::Receive(bytes));
            &&& view.body_len + bytes.len() <= view.max_body_len ==> after.stream == view.stream
                + bytes && after.body_len == view.body_len + bytes.len()
            &&& view.body_len + bytes.len() > view.max_body_len ==> after.stream == view.stream
                && after.body_len == view.body_len
            &&& after.taken == view.taken
            &&& after.next_send_after_ms == view.next_send_after_ms
            &&& after.request_id == view.request_id
            &&& after.chunk_size == view.chunk_size
            &&& after.max_body_len == view.max_body_len
            &&& after.delay_ms == view.delay_ms
            &&& after.cfg == view.cfg
        }),
{
}

/// To take a full chunk moves the number and the time on by one chunk, and changes
/// nothing else; without a full chunk nothing changes.
pub proof fn law_taking_a_chunk(view: HookView)
    ensures
        ({
            let after = view.stepped(HookStep::Take);
            let n: int = if view.stream.skip((view.taken * view.chunk_size) as int).len()
                >= view.chunk_size {
                1
            } else {
                0
            };
            &&& after.taken == view.taken + n
            &&& after.next_send_after_ms == view.next_send_after_ms + n * view.delay_ms
            &&& after.stream == view.stream
            &&& after.body_len == view.body_len
            &&& after.request_id == view.request_id
            &&& after.chunk_size == view.chunk_size
            &&& after.max_body_len == view.max_body_len
            &&& after.delay_ms == view.delay_ms
            &&& after.cfg == view.cfg
        }),
{
}

/// Another chunk can be taken unless the numbers or the times run out, and with a
/// limit a few bytes below the largest `usize` the numbers never do.
pub proof fn law_webhook_can_go_on(hook: HookStream)
    requires
        hook.state().wf(),
    ensures
        hook.has_next() <==> hook.state().taken < usize::MAX && -9223372036854775808
            <= hook.state().next_send_after_ms + hook.state().delay_ms <= 9223372036854775807,
        hook.state().cfg.max_payload_bytes + 8 < usize::MAX && -9223372036854775808
            <= hook.state().next_send_after_ms + hook.state().delay_ms <= 9223372036854775807
            ==> hook.has_next(),
{
    law_webhook_is_bounded(hook.state());
}

/// [`HookStream::begin`] begins a webhook whose report and announced body are
/// together within the limit, whose report has at most 4294967295 bytes, and whose
/// largest envelope leaves room for a byte, and no other. The stream then begins with
/// the report, and as much of a body may follow as the limit leaves.
pub proof fn law_begin(
    request_id: String,
    meta: &[u8],
    content_length: Option<&str>,
    cfg: Config,
    now_ms: i64,
    r: Result<HookStream, AppError>,
)
    requires
        call_ensures(HookStream::begin, (request_id, meta, content_length, &cfg, now_ms), r),
    ensures
        ({
            let announced = match content_length {
                Some(text) => match unsigned_value(text@, usize::MAX as nat) {
                    Ok(n) => n,
                    Err(_) => 0,
                },
                None => 0,
            };
            let largest = if cfg@.max_payload_bytes + 8 <= usize::MAX {
                cfg@.max_payload_bytes + 8
            } else {
                usize::MAX as nat
            };
            let envelope = 71 + json_string(request_id@).len() + 2 * decimal(largest).len();
            &&& r is Ok <==> meta@.len() + announced <= cfg@.max_payload_bytes && meta@.len()
                <= 4294967295 && cfg@.chunk_data_bytes >= 1 && envelope + 4 <= 3000
            &&& r matches Ok(hook) ==> {
                &&& hook.state().stream.len() == 8 + meta@.len()
                &&& hook.state().stream.skip(8) == meta@
                &&& hook.state().max_body_len == cfg@.max_payload_bytes - meta@.len()
                &&& hook.state().next_send_after_ms == now_ms
            }
        }),
{
    law_webhook_is_begun(request_id@, meta@.len(), content_length, cfg@);
    if r is Ok {
        law_stream_can_be_read(meta@, Seq::empty());
        assert(stream_prefix(meta@) + Seq::<u8>::empty() =~= stream_prefix(meta@));
        assert(stream_prefix(meta@).skip(8) =~= meta@);
    }
}

} // verus!
