//! How large the chunks of a webhook may be, so that each fits in one push
//! message once it is encoded and wrapped in its envelope.
use vstd::prelude::*;
use vstd::string::*;

use crate::envelope::{envelope_size, is_plain_json, lemma_json_word_sizes, opt_nat, ChunkEnvelope};
use crate::error::AppError;
use crate::number::{decimal, lemma_decimal_len_monotonic};
use crate::outside::{base64_len, is_uuid_v4, json_string};

verus! {

/// The largest envelope that a push message carries.
pub const MAX_ENVELOPE_BYTES: usize = 3000;

/// The most bytes whose base64 form has at most `available` characters.
pub open spec fn max_raw_bytes(available: nat) -> nat {
    available / 4 * 3
}

/// The number of bytes per chunk, given what was asked for and what the
/// envelope takes for itself.
pub open spec fn chunk_data_bytes(configured: nat, overhead: nat) -> Result<nat, AppError> {
    if overhead >= MAX_ENVELOPE_BYTES {
        Err(AppError::ChunkOverheadTooLarge)
    } else {
        let max_raw = max_raw_bytes((MAX_ENVELOPE_BYTES - overhead) as nat);
        let size = if configured <= max_raw {
            configured
        } else {
            max_raw
        };
        if size == 0 {
            Err(AppError::ChunkSizeTooSmall)
        } else {
            Ok(size)
        }
    }
}

/// `max_raw_bytes` is the largest number of bytes that fits: it does fit, and
/// one more byte does not.
pub proof fn law_max_raw_bytes_is_largest(available: nat)
    ensures
        base64_len(max_raw_bytes(available)) <= available,
        base64_len(max_raw_bytes(available) + 1) > available,
{
}

/// The number of bytes per chunk: `configured`, or less where the envelope
/// leaves less room.
pub fn max_chunk_data_bytes(configured: usize, overhead: usize) -> (r: Result<usize, AppError>)
    ensures
        match r {
            Ok(size) => chunk_data_bytes(configured as nat, overhead as nat) == Ok::<
                nat,
                AppError,
            >(size as nat),
            Err(e) => chunk_data_bytes(configured as nat, overhead as nat) == Err::<
                nat,
                AppError,
            >(e),
        },
{
    if overhead >= MAX_ENVELOPE_BYTES {
        return Err(AppError::ChunkOverheadTooLarge);
    }
    let available: usize = MAX_ENVELOPE_BYTES - overhead;
    let max_raw: usize = (available / 4) * 3;
    let chunk_size: usize = if configured <= max_raw {
        configured
    } else {
        max_raw
    };
    if chunk_size == 0 {
        return Err(AppError::ChunkSizeTooSmall);
    }
    Ok(chunk_size)
}

/// The size of an envelope without data.
pub fn envelope_overhead_bytes(
    request_id: &str,
    chunk_index: usize,
    total_chunks: Option<usize>,
    is_last: bool,
) -> (size: usize)
    ensures
        size == envelope_size(
            request_id@,
            chunk_index as nat,
            opt_nat(total_chunks),
            is_last,
            0,
        ),
        is_plain_json(request_id@) ==> json_string(request_id@).len() == request_id@.len() + 2,
{
    let envelope = ChunkEnvelope {
        request_id: request_id.to_owned(),
        chunk_index,
        total_chunks,
        is_last,
        data: String::new(),
    };
    envelope.to_json().len()
}

/// The larger of `n` and one.
pub open spec fn at_least_one(n: nat) -> nat {
    if n == 0 {
        1
    } else {
        n
    }
}

/// What the envelope of the last chunk takes for itself when a webhook of
/// `max_total_bytes` is sent byte by byte.
pub open spec fn worst_overhead(request_id: Seq<char>, max_total_bytes: nat) -> nat {
    let worst = at_least_one(max_total_bytes);
    envelope_size(request_id, worst, Some(worst), true, 0)
}

/// The number of bytes per chunk for a webhook of at most `max_total_bytes`.
pub open spec fn resolved_chunk_size(
    request_id: Seq<char>,
    configured: nat,
    max_total_bytes: nat,
) -> Result<nat, AppError> {
    chunk_data_bytes(configured, worst_overhead(request_id, max_total_bytes))
}

/// The number of bytes per chunk for a webhook of at most `max_total_bytes`:
/// `configured`, or less where the envelope leaves less room.
pub fn resolve_chunk_size(request_id: &str, configured: usize, max_total_bytes: usize) -> (r:
    Result<usize, AppError>)
    ensures
        match r {
            Ok(size) => resolved_chunk_size(
                request_id@,
                configured as nat,
                max_total_bytes as nat,
            ) == Ok::<nat, AppError>(size as nat),
            Err(e) => resolved_chunk_size(
                request_id@,
                configured as nat,
                max_total_bytes as nat,
            ) == Err::<nat, AppError>(e),
        },
        is_plain_json(request_id@) ==> json_string(request_id@).len() == request_id@.len() + 2,
{
    let worst_index: usize = if max_total_bytes == 0 {
        1
    } else {
        max_total_bytes
    };
    let overhead: usize = envelope_overhead_bytes(
        request_id,
        worst_index,
        Some(worst_index),
        true,
    );
    max_chunk_data_bytes(configured, overhead)
}

/// The envelope of the last chunk fits in a push message, whatever the request
/// identifier and the limits are.
pub proof fn law_last_envelope_fits(
    request_id: Seq<char>,
    configured: nat,
    max_total_bytes: nat,
    chunk_size: nat,
    chunk_index: nat,
    data_len: nat,
)
    requires
        resolved_chunk_size(request_id, configured, max_total_bytes) == Ok::<nat, AppError>(
            chunk_size,
        ),
        1 <= chunk_index <= at_least_one(max_total_bytes),
        data_len <= chunk_size,
    ensures
        envelope_size(request_id, chunk_index, Some(chunk_index), true, base64_len(data_len))
            <= MAX_ENVELOPE_BYTES,
{
    let worst = at_least_one(max_total_bytes);
    lemma_decimal_len_monotonic(chunk_index, worst);
    lemma_json_word_sizes();
}

/// The envelope of a chunk that is not the last fits in a push message exactly
/// where its index, `null` and `false` are not longer than the worst index twice
/// and `true`, the room that the chunk size leaves unused included.
pub proof fn law_inner_envelope_fits(
    request_id: Seq<char>,
    configured: nat,
    max_total_bytes: nat,
    chunk_size: nat,
    chunk_index: nat,
)
    requires
        resolved_chunk_size(request_id, configured, max_total_bytes) == Ok::<nat, AppError>(
            chunk_size,
        ),
    ensures
        envelope_size(request_id, chunk_index, None, false, base64_len(chunk_size))
            <= MAX_ENVELOPE_BYTES <==> decimal(chunk_index).len() + 5 <= 2 * decimal(
            at_least_one(max_total_bytes),
        ).len() + (MAX_ENVELOPE_BYTES - worst_overhead(request_id, max_total_bytes)
            - base64_len(chunk_size)),
{
    lemma_json_word_sizes();
}

/// From ten thousand bytes on, every envelope fits in a push message, whatever
/// the request identifier is.
pub proof fn law_large_webhook_envelopes_fit(
    request_id: Seq<char>,
    configured: nat,
    max_total_bytes: nat,
    chunk_size: nat,
    chunk_index: nat,
)
    requires
        resolved_chunk_size(request_id, configured, max_total_bytes) == Ok::<nat, AppError>(
            chunk_size,
        ),
        max_total_bytes >= 10000,
        1 <= chunk_index <= max_total_bytes,
    ensures
        envelope_size(request_id, chunk_index, None, false, base64_len(chunk_size))
            <= MAX_ENVELOPE_BYTES,
        envelope_size(request_id, chunk_index, Some(chunk_index), true, base64_len(chunk_size))
            <= MAX_ENVELOPE_BYTES,
{
    law_last_envelope_fits(
        request_id,
        configured,
        max_total_bytes,
        chunk_size,
        chunk_index,
        chunk_size,
    );
    law_inner_envelope_fits(request_id, configured, max_total_bytes, chunk_size, chunk_index);
    lemma_decimal_len_monotonic(chunk_index, max_total_bytes);
    lemma_decimal_len_monotonic(10000, max_total_bytes);
    assert(decimal(10000).len() == 5) by {
        reveal_with_fuel(decimal, 5);
    }
}

/// Every envelope of a webhook whose identifier is a UUID fits in a push
/// message, whatever the limits are.
pub proof fn law_uuid_envelopes_fit(
    request_id: Seq<char>,
    configured: nat,
    max_total_bytes: nat,
    chunk_size: nat,
    chunk_index: nat,
)
    requires
        is_uuid_v4(request_id),
        json_string(request_id).len() == request_id.len() + 2,
        resolved_chunk_size(request_id, configured, max_total_bytes) == Ok::<nat, AppError>(
            chunk_size,
        ),
        1 <= chunk_index,
        chunk_index * chunk_size <= max_total_bytes,
    ensures
        envelope_size(request_id, chunk_index, None, false, base64_len(chunk_size))
            <= MAX_ENVELOPE_BYTES,
{
    lemma_json_word_sizes();
    law_inner_envelope_fits(request_id, configured, max_total_bytes, chunk_size, chunk_index);
    let worst = at_least_one(max_total_bytes);
    let overhead = worst_overhead(request_id, max_total_bytes);
    let available = (MAX_ENVELOPE_BYTES - overhead) as nat;
    assert(chunk_index <= max_total_bytes) by (nonlinear_arith)
        requires
            chunk_index * chunk_size <= max_total_bytes,
            chunk_size >= 1,
    ;
    lemma_decimal_len_monotonic(chunk_index, worst);
    if max_total_bytes >= 10000 {
        law_large_webhook_envelopes_fit(
            request_id,
            configured,
            max_total_bytes,
            chunk_size,
            chunk_index,
        );
    } else {
        lemma_decimal_len_monotonic(worst, 9999);
        assert(decimal(9999).len() == 4) by {
            reveal_with_fuel(decimal, 4);
        }
        if chunk_size + 3 <= max_raw_bytes(available) {
            // A quadruple of base64 is left over.
            assert(base64_len(chunk_size) + 4 <= available);
        } else {
            assert(chunk_size >= 2000);
            assert(chunk_index <= 9) by (nonlinear_arith)
                requires
                    chunk_index * chunk_size <= max_total_bytes,
                    chunk_size >= 2000,
                    max_total_bytes < 10000,
            ;
            assert(max_total_bytes >= 1000) by (nonlinear_arith)
                requires
                    chunk_index * chunk_size <= max_total_bytes,
                    chunk_size >= 2000,
                    chunk_index >= 1,
            ;
            lemma_decimal_len_monotonic(chunk_index, 9);
            lemma_decimal_len_monotonic(1000, worst);
            assert(decimal(9).len() == 1);
            assert(decimal(1000).len() == 4) by {
                reveal_with_fuel(decimal, 4);
            }
        }
    }
}

/// The number of bytes per chunk is the largest that is not above what was asked
/// for and whose base64 form, four characters for every three bytes begun, fits in
/// 3000 bytes beside what the envelope takes for itself. Where not even one byte
/// fits, or none was asked for, there is an error.
pub proof fn law_chunk_size_is_largest(configured: nat, overhead: nat)
    ensures
        match chunk_data_bytes(configured, overhead) {
            Ok(size) => {
                &&& 1 <= size <= configured
                &&& overhead + 4 * ((size + 2) / 3) <= 3000
                &&& size == configured || overhead + 4 * ((size + 1 + 2) / 3) > 3000
            },
            Err(AppError::ChunkOverheadTooLarge) => overhead >= 3000,
            Err(AppError::ChunkSizeTooSmall) => overhead < 3000 && (configured == 0 || overhead + 4
                > 3000),
            Err(_) => false,
        },
{
}

/// What the worst envelope takes for itself: the fixed text, the identifier, and
/// twice the digits of the largest number of chunks.
pub proof fn law_worst_overhead(request_id: Seq<char>, configured: nat, max_total_bytes: nat)
    ensures
        worst_overhead(request_id, max_total_bytes) == 71 + json_string(request_id).len() + 2
            * decimal(if max_total_bytes == 0 {
            1
        } else {
            max_total_bytes
        }).len(),
        resolved_chunk_size(request_id, configured, max_total_bytes) == chunk_data_bytes(
            configured,
            worst_overhead(request_id, max_total_bytes),
        ),
{
    lemma_json_word_sizes();
}

} // verus!
