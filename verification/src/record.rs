//! The layout of a queued record on disk: the length of the identifier in one
//! byte, the identifier, the earliest time of delivery, the number of attempts
//! made, the length of the payload, and the payload. Numbers are big-endian.
use vstd::prelude::*;
use vstd::string::*;
use vstd::utf8::*;

use crate::envelope::push_bytes;
use crate::error::AppError;
use crate::outside::text_from_utf8;

verus! {

/// The lowest `width` bytes of `n`, most significant first.
pub open spec fn be_bytes(n: nat, width: nat) -> Seq<u8>
    decreases width,
{
    if width == 0 {
        Seq::empty()
    } else {
        be_bytes(n / 256, (width - 1) as nat).push((n % 256) as u8)
    }
}

/// The number that big-endian bytes denote.
pub open spec fn be_value(s: Seq<u8>) -> nat
    decreases s.len(),
{
    if s.len() == 0 {
        0
    } else {
        be_value(s.drop_last()) * 256 + s.last() as nat
    }
}

/// 256 to the power `width`.
pub open spec fn pow256(width: nat) -> nat
    decreases width,
{
    if width == 0 {
        1
    } else {
        256 * pow256((width - 1) as nat)
    }
}

/// The powers that the layout makes use of.
pub proof fn lemma_pow256()
    ensures
        pow256(4) == 0x1_0000_0000,
        pow256(8) == 0x1_0000_0000_0000_0000,
{
    reveal_with_fuel(pow256, 9);
}

/// Reading back `width` big-endian bytes gives the number that was written.
pub proof fn lemma_be_round_trip(n: nat, width: nat)
    requires
        n < pow256(width),
    ensures
        be_bytes(n, width).len() == width,
        be_value(be_bytes(n, width)) == n,
    decreases width,
{
    if width > 0 {
        lemma_be_round_trip(n / 256, (width - 1) as nat);
        assert(be_bytes(n, width).drop_last() =~= be_bytes(n / 256, (width - 1) as nat));
    }
}

/// Writing the number that some bytes denote gives the bytes.
pub proof fn lemma_be_value_bytes(s: Seq<u8>)
    ensures
        be_value(s) < pow256(s.len()),
        be_bytes(be_value(s), s.len()) == s,
    decreases s.len(),
{
    if s.len() > 0 {
        lemma_be_value_bytes(s.drop_last());
        let v = be_value(s.drop_last());
        assert((v * 256 + s.last() as nat) / 256 == v);
        assert(be_bytes(be_value(s), s.len()) =~= s);
    } else {
        assert(be_bytes(0, 0) =~= s);
    }
}

/// The length of big-endian bytes.
pub proof fn lemma_be_bytes_len(n: nat, width: nat)
    ensures
        be_bytes(n, width).len() == width,
    decreases width,
{
    if width > 0 {
        lemma_be_bytes_len(n / 256, (width - 1) as nat);
    }
}

/// Appends the lowest `width` bytes of `n`, most significant first.
pub fn push_be(out: &mut Vec<u8>, n: u64, width: usize)
    ensures
        final(out)@ == old(out)@ + be_bytes(n as nat, width as nat),
    decreases width,
{
    if width > 0 {
        push_be(out, n / 256, width - 1);
        out.push((n % 256) as u8);
    }
    proof {
        assert(out@ =~= old(out)@ + be_bytes(n as nat, width as nat));
    }
}

/// Reads `width` big-endian bytes.
pub fn read_be(data: &[u8], from: usize, width: usize) -> (n: u64)
    requires
        width <= 8,
        from + width <= data@.len(),
    ensures
        n == be_value(data@.subrange(from as int, from + width)),
{
    let ghost s = data@.subrange(from as int, from + width);
    let mut n: u64 = 0;
    let mut i: usize = 0;
    proof {
        assert(s.take(0) =~= Seq::<u8>::empty());
    }
    while i < width
        invariant
            i <= width <= 8,
            from + width <= data.len(),
            s == data@.subrange(from as int, from + width),
            n == be_value(s.take(i as int)),
        decreases width - i,
    {
        proof {
            lemma_be_value_bytes(s.take(i + 1));
            lemma_pow256_grows((i + 1) as nat, 8);
            lemma_pow256();
            assert(s.take(i + 1).drop_last() =~= s.take(i as int));
            assert(s.take(i + 1).last() == s[i as int]);
        }
        n = n * 256 + data[from + i] as u64;
        i = i + 1;
    }
    proof {
        assert(s.take(i as int) =~= s);
    }
    n
}

proof fn lemma_pow256_grows(a: nat, b: nat)
    requires
        a <= b,
    ensures
        1 <= pow256(a) <= pow256(b),
    decreases b,
{
    if a == 0 {
        if b > 0 {
            lemma_pow256_grows(0, (b - 1) as nat);
        }
    } else {
        lemma_pow256_grows((a - 1) as nat, (b - 1) as nat);
    }
}

/// A signed number as the unsigned number with the same 64 bits.
pub open spec fn as_unsigned(n: int) -> nat {
    if n >= 0 {
        n as nat
    } else {
        (n + 0x1_0000_0000_0000_0000) as nat
    }
}

/// An unsigned number as the signed number with the same 64 bits.
pub open spec fn as_signed(n: nat) -> int {
    if n <= i64::MAX {
        n as int
    } else {
        n - 0x1_0000_0000_0000_0000
    }
}

/// One delivery in the queue.
#[derive(Clone, Debug)]
pub struct QueueRecord {
    pub uuid: String,
    pub payload: Vec<u8>,
    pub send_after_ms: i64,
    pub attempts: u32,
}

/// The content of a [`QueueRecord`].
#[verifier::ext_equal]
pub ghost struct RecordView {
    pub uuid: Seq<char>,
    pub payload: Seq<u8>,
    pub send_after_ms: int,
    pub attempts: nat,
}

impl View for QueueRecord {
    type V = RecordView;

    open spec fn view(&self) -> RecordView {
        RecordView {
            uuid: self.uuid@,
            payload: self.payload@,
            send_after_ms: self.send_after_ms as int,
            attempts: self.attempts as nat,
        }
    }
}

impl QueueRecord {
    /// A record for `uuid` that was not sent yet.
    pub fn new(uuid: &str, payload: Vec<u8>, send_after_ms: i64) -> (record: Self)
        ensures
            record@ == new_record(uuid@, payload@, send_after_ms as int),
    {
        QueueRecord { uuid: uuid.to_owned(), payload, send_after_ms, attempts: 0 }
    }
}

/// A record that was not sent yet.
pub open spec fn new_record(uuid: Seq<char>, payload: Seq<u8>, send_after_ms: int) -> RecordView {
    RecordView { uuid, payload, send_after_ms, attempts: 0 }
}

impl RecordView {
    /// The numbers are in the range of their fields.
    pub open spec fn in_range(self) -> bool {
        &&& i64::MIN <= self.send_after_ms <= i64::MAX
        &&& self.attempts <= u32::MAX
    }

    /// What keeps the record from being laid out, if anything.
    pub open spec fn layout_error(self) -> Option<AppError> {
        if encode_utf8(self.uuid).len() > u8::MAX {
            Some(AppError::UuidTooLong)
        } else if self.payload.len() > u32::MAX {
            Some(AppError::QueuePayloadTooLarge)
        } else {
            None
        }
    }

    /// The record as it is laid out.
    pub open spec fn layout(self) -> Seq<u8> {
        seq![encode_utf8(self.uuid).len() as u8] + encode_utf8(self.uuid) + be_bytes(
            as_unsigned(self.send_after_ms),
            8,
        ) + be_bytes(self.attempts, 4) + be_bytes(self.payload.len(), 4) + self.payload
    }
}

/// The record that begins `data`, if there is one. What follows it is ignored.
pub open spec fn record_in(data: Seq<u8>) -> Option<RecordView> {
    if data.len() < 17 {
        None
    } else {
        let uuid_end = 1 + data[0] as int;
        if data.len() < uuid_end + 16 || !valid_utf8(data.subrange(1, uuid_end)) {
            None
        } else {
            let start = uuid_end + 16;
            let payload_len = be_value(data.subrange(uuid_end + 12, start));
            if data.len() < start + payload_len {
                None
            } else {
                Some(
                    RecordView {
                        uuid: decode_utf8(data.subrange(1, uuid_end)),
                        payload: data.subrange(start, start + payload_len),
                        send_after_ms: as_signed(be_value(data.subrange(uuid_end, uuid_end + 8))),
                        attempts: be_value(data.subrange(uuid_end + 8, uuid_end + 12)),
                    },
                )
            }
        }
    }
}

/// Reading a record back gives what was written, whatever follows it.
pub proof fn law_record_round_trip(record: RecordView, rest: Seq<u8>)
    requires
        record.in_range(),
        record.layout_error() is None,
    ensures
        record_in(record.layout() + rest) == Some(record),
{
    let uuid = encode_utf8(record.uuid);
    let send_after = be_bytes(as_unsigned(record.send_after_ms), 8);
    let attempts = be_bytes(record.attempts, 4);
    let payload_len = be_bytes(record.payload.len(), 4);
    lemma_pow256();
    lemma_be_round_trip(as_unsigned(record.send_after_ms), 8);
    lemma_be_round_trip(record.attempts, 4);
    lemma_be_round_trip(record.payload.len(), 4);
    encode_utf8_valid_utf8(record.uuid);
    encode_utf8_decode_utf8(record.uuid);
    let data = record.layout() + rest;
    let n = uuid.len() as int;
    assert(data[0] == n);
    assert(data.subrange(1, 1 + n) =~= uuid);
    assert(data.subrange(1 + n, 9 + n) =~= send_after);
    assert(data.subrange(9 + n, 13 + n) =~= attempts);
    assert(data.subrange(13 + n, 17 + n) =~= payload_len);
    assert(data.subrange(17 + n, 17 + n + record.payload.len()) =~= record.payload);
}

/// Whatever is read as a record begins with the layout of that record, and the
/// record can be written again.
pub proof fn law_record_is_canonical(data: Seq<u8>)
    requires
        record_in(data) is Some,
    ensures
        ({
            let record = record_in(data)->0;
            &&& record.in_range()
            &&& record.layout_error() is None
            &&& record.layout().len() <= data.len()
            &&& data.take(record.layout().len() as int) == record.layout()
        }),
{
    let record = record_in(data)->0;
    let n = data[0] as int;
    lemma_pow256();
    lemma_be_value_bytes(data.subrange(1 + n, 9 + n));
    lemma_be_value_bytes(data.subrange(9 + n, 13 + n));
    lemma_be_value_bytes(data.subrange(13 + n, 17 + n));
    decode_utf8_encode_utf8(data.subrange(1, 1 + n));
    assert(data.take(record.layout().len() as int) =~= record.layout());
}

/// The size of a record depends on its identifier and its payload alone: a
/// retry takes the room of the first attempt.
pub proof fn law_retry_keeps_size(record: RecordView, send_after_ms: int, attempts: nat)
    ensures
        (RecordView { send_after_ms, attempts, ..record }).layout().len() == record.layout().len(),
        record.layout().len() == 17 + encode_utf8(record.uuid).len() + record.payload.len(),
{
    lemma_be_bytes_len(as_unsigned(record.send_after_ms), 8);
    lemma_be_bytes_len(as_unsigned(send_after_ms), 8);
    lemma_be_bytes_len(record.attempts, 4);
    lemma_be_bytes_len(attempts, 4);
    lemma_be_bytes_len(record.payload.len(), 4);
}

/// Lays a record out.
pub fn encode_record(record: &QueueRecord) -> (r: Result<Vec<u8>, AppError>)
    ensures
        match r {
            Ok(data) => record@.layout_error() is None && data@ == record@.layout(),
            Err(e) => record@.layout_error() == Some(e),
        },
{
    let uuid: &[u8] = record.uuid.as_str().as_bytes();
    if uuid.len() > 255 {
        return Err(AppError::UuidTooLong);
    }
    if record.payload.len() > 0xffff_ffff {
        return Err(AppError::QueuePayloadTooLarge);
    }
    let mut out: Vec<u8> = Vec::new();
    out.push(uuid.len() as u8);
    push_bytes(&mut out, uuid);
    let send_after: u64 = if record.send_after_ms >= 0 {
        record.send_after_ms as u64
    } else {
        (record.send_after_ms as i128 + 0x1_0000_0000_0000_0000) as u64
    };
    push_be(&mut out, send_after, 8);
    push_be(&mut out, record.attempts as u64, 4);
    push_be(&mut out, record.payload.len() as u64, 4);
    push_bytes(&mut out, record.payload.as_slice());
    proof {
        assert(out@ =~= record@.layout());
    }
    Ok(out)
}

/// A copy of a part of `data`.
fn copy_range(data: &[u8], from: usize, to: usize) -> (part: Vec<u8>)
    requires
        from <= to <= data@.len(),
    ensures
        part@ == data@.subrange(from as int, to as int),
{
    let mut part: Vec<u8> = Vec::new();
    push_bytes(&mut part, vstd::slice::slice_subrange(data, from, to));
    proof {
        assert(part@ =~= data@.subrange(from as int, to as int));
    }
    part
}

/// Reads the record that begins `data`.
pub fn decode_record(data: &[u8]) -> (r: Result<QueueRecord, AppError>)
    ensures
        match r {
            Ok(record) => record_in(data@) == Some(record@),
            Err(e) => record_in(data@) is None && e == AppError::QueueRecordCorrupt,
        },
{
    if data.len() < 17 {
        return Err(AppError::QueueRecordCorrupt);
    }
    let uuid_end: usize = 1 + data[0] as usize;
    if data.len() < uuid_end + 16 {
        return Err(AppError::QueueRecordCorrupt);
    }
    let uuid: String = match text_from_utf8(copy_range(data, 1, uuid_end)) {
        Some(uuid) => uuid,
        None => return Err(AppError::QueueRecordCorrupt),
    };
    proof {
        lemma_pow256();
        lemma_be_value_bytes(data@.subrange(uuid_end + 8, uuid_end + 12));
        lemma_be_value_bytes(data@.subrange(uuid_end + 12, uuid_end + 16));
    }
    let unsigned: u64 = read_be(data, uuid_end, 8);
    let send_after_ms: i64 = if unsigned <= i64::MAX as u64 {
        unsigned as i64
    } else {
        (unsigned as i128 - 0x1_0000_0000_0000_0000) as i64
    };
    let attempts: u32 = read_be(data, uuid_end + 8, 4) as u32;
    let payload_len: u64 = read_be(data, uuid_end + 12, 4);
    let start: usize = uuid_end + 16;
    if ((data.len() - start) as u64) < payload_len {
        return Err(AppError::QueueRecordCorrupt);
    }
    let payload: Vec<u8> = copy_range(data, start, start + payload_len as usize);
    Ok(QueueRecord { uuid, payload, send_after_ms, attempts })
}

/// What big-endian bytes denote, for the widths that the layout makes use of.
pub proof fn law_big_endian(a: u8, b: u8, c: u8, d: u8, s: Seq<u8>)
    ensures
        be_value(seq![a, b, c, d]) == a * 16777216 + b * 65536 + c * 256 + d,
        be_value(s.push(a)) == be_value(s) * 256 + a,
        be_value(Seq::empty()) == 0,
{
    let four = seq![a, b, c, d];
    let three = seq![a, b, c];
    let two = seq![a, b];
    let one = seq![a];
    assert(four.drop_last() =~= three);
    assert(three.drop_last() =~= two);
    assert(two.drop_last() =~= one);
    assert(one.drop_last() =~= Seq::<u8>::empty());
    reveal_with_fuel(be_value, 5);
    assert(s.push(a).drop_last() =~= s);
}

/// Numbers of 64 bits without and with a sign: they differ by a multiple of two to
/// the power of 64, and the signed one is in the range of an `i64`.
pub proof fn law_signed_bits(n: int, m: nat)
    requires
        m <= u64::MAX,
        i64::MIN <= n <= i64::MAX,
    ensures
        -9223372036854775808 <= as_signed(m) <= 9223372036854775807,
        as_signed(m) == m || as_signed(m) == m - 18446744073709551616,
        m <= 9223372036854775807 ==> as_signed(m) == m,
        as_signed(as_unsigned(n)) == n,
        as_unsigned(as_signed(m)) == m,
{
}

/// A record can be laid out exactly if its identifier has at most 255 bytes and its
/// payload at most 4294967295.
pub proof fn law_records_that_can_be_laid_out(record: RecordView)
    ensures
        record.layout_error() is None <==> encode_utf8(record.uuid).len() <= 255
            && record.payload.len() <= 4294967295,
        record.layout_error() == Some(AppError::UuidTooLong) <==> encode_utf8(record.uuid).len()
            > 255,
        record.layout_error() == Some(AppError::QueuePayloadTooLarge) <==> encode_utf8(
            record.uuid,
        ).len() <= 255 && record.payload.len() > 4294967295,
{
}

/// Where the parts of a record stand in its layout.
pub proof fn law_layout(record: RecordView)
    requires
        record.in_range(),
        record.layout_error() is None,
    ensures
        ({
            let data = record.layout();
            let n = encode_utf8(record.uuid).len() as int;
            &&& data.len() == 17 + n + record.payload.len()
            &&& data[0] == n
            &&& data.subrange(1, 1 + n) == encode_utf8(record.uuid)
            &&& be_value(data.subrange(1 + n, 9 + n)) == if record.send_after_ms >= 0 {
                record.send_after_ms
            } else {
                record.send_after_ms + 18446744073709551616
            }
            &&& be_value(data.subrange(9 + n, 13 + n)) == record.attempts
            &&& be_value(data.subrange(13 + n, 17 + n)) == record.payload.len()
            &&& data.skip(17 + n) == record.payload
        }),
{
    let uuid = encode_utf8(record.uuid);
    let data = record.layout();
    let n = uuid.len() as int;
    lemma_pow256();
    lemma_be_round_trip(as_unsigned(record.send_after_ms), 8);
    lemma_be_round_trip(record.attempts, 4);
    lemma_be_round_trip(record.payload.len(), 4);
    assert(data.subrange(1, 1 + n) =~= uuid);
    assert(data.subrange(1 + n, 9 + n) =~= be_bytes(as_unsigned(record.send_after_ms), 8));
    assert(data.subrange(9 + n, 13 + n) =~= be_bytes(record.attempts, 4));
    assert(data.subrange(13 + n, 17 + n) =~= be_bytes(record.payload.len(), 4));
    assert(data.skip(17 + n) =~= record.payload);
}

/// A record that is read from some bytes is one that the bytes begin with, and a
/// record that they begin with is read.
pub proof fn law_reading(data: Seq<u8>, record: RecordView)
    ensures
        record_in(data) == Some(record) <==> record.in_range() && record.layout_error() is None
            && record.layout().is_prefix_of(data),
{
    if record_in(data) == Some(record) {
        law_record_is_canonical(data);
    }
    if record.in_range() && record.layout_error() is None && record.layout().is_prefix_of(data) {
        let rest = data.skip(record.layout().len() as int);
        assert(data =~= record.layout() + rest);
        law_record_round_trip(record, rest);
    }
}

/// A record that was not sent yet holds what it was made of, and no attempt.
pub proof fn law_new_record(uuid: Seq<char>, payload: Seq<u8>, send_after_ms: int)
    ensures
        new_record(uuid, payload, send_after_ms).uuid == uuid,
        new_record(uuid, payload, send_after_ms).payload == payload,
        new_record(uuid, payload, send_after_ms).send_after_ms == send_after_ms,
        new_record(uuid, payload, send_after_ms).attempts == 0,
{
}

} // verus!
