//! The JSON envelope that carries one chunk of a webhook to the browser.
use vstd::prelude::*;
use vstd::string::*;
use vstd::utf8::*;

use crate::meta::{json_strings_end_by_themselves, lemma_cancel, lemma_grouping};
use crate::number::{decimal, law_decimal_reads_back, push_decimal};
use crate::outside::{is_plain_json_char, json_string, to_json_string};

verus! {

/// One chunk of a webhook, as the browser receives it.
#[derive(Debug)]
pub struct ChunkEnvelope {
    pub request_id: String,
    pub chunk_index: usize,
    pub total_chunks: Option<usize>,
    pub is_last: bool,
    pub data: String,
}

/// The content of a [`ChunkEnvelope`].
#[verifier::ext_equal]
pub ghost struct EnvelopeView {
    pub request_id: Seq<char>,
    pub chunk_index: nat,
    pub total_chunks: Option<nat>,
    pub is_last: bool,
    pub data: Seq<char>,
}

/// A count that may be unknown, as a plain number.
pub open spec fn opt_nat(n: Option<usize>) -> Option<nat> {
    match n {
        Some(n) => Some(n as nat),
        None => None,
    }
}

impl View for ChunkEnvelope {
    type V = EnvelopeView;

    open spec fn view(&self) -> EnvelopeView {
        EnvelopeView {
            request_id: self.request_id@,
            chunk_index: self.chunk_index as nat,
            total_chunks: opt_nat(self.total_chunks),
            is_last: self.is_last,
            data: self.data@,
        }
    }
}

/// `true` or `false` in JSON.
pub open spec fn json_bool(b: bool) -> Seq<u8> {
    if b {
        encode_utf8("true"@)
    } else {
        encode_utf8("false"@)
    }
}

/// A number, or `null` where there is none, in JSON.
pub open spec fn json_opt_number(n: Option<nat>) -> Seq<u8> {
    match n {
        Some(n) => decimal(n),
        None => encode_utf8("null"@),
    }
}

/// The envelope in JSON: its five members in order, without white space.
pub open spec fn envelope_json(e: EnvelopeView) -> Seq<u8> {
    encode_utf8("{\"request_id\":"@) + json_string(e.request_id) + encode_utf8(
        ",\"chunk_index\":"@,
    ) + decimal(e.chunk_index) + encode_utf8(",\"total_chunks\":"@) + json_opt_number(
        e.total_chunks,
    ) + encode_utf8(",\"is_last\":"@) + json_bool(e.is_last) + encode_utf8(",\"data\":"@)
        + json_string(e.data) + encode_utf8("}"@)
}

/// A text that JSON holds as itself, between quotes.
pub open spec fn is_plain_json(s: Seq<char>) -> bool {
    forall|i: int| 0 <= i < s.len() ==> is_plain_json_char(#[trigger] s[i])
}

/// The size in bytes of an envelope whose data is `data_len` plain characters.
pub open spec fn envelope_size(
    request_id: Seq<char>,
    chunk_index: nat,
    total_chunks: Option<nat>,
    is_last: bool,
    data_len: nat,
) -> nat {
    67 + json_string(request_id).len() + decimal(chunk_index).len() + json_opt_number(
        total_chunks,
    ).len() + json_bool(is_last).len() + data_len
}

/// The sizes of the words in an envelope.
pub proof fn lemma_json_word_sizes()
    ensures
        json_bool(true).len() == 4,
        json_bool(false).len() == 5,
        json_opt_number(None).len() == 4,
        encode_utf8("{\"request_id\":"@).len() == 14,
        encode_utf8(",\"chunk_index\":"@).len() == 15,
        encode_utf8(",\"total_chunks\":"@).len() == 16,
        encode_utf8(",\"is_last\":"@).len() == 11,
        encode_utf8(",\"data\":"@).len() == 8,
        encode_utf8("}"@).len() == 1,
{
    reveal_strlit("true");
    reveal_strlit("false");
    reveal_strlit("null");
    reveal_strlit("{\"request_id\":");
    reveal_strlit(",\"chunk_index\":");
    reveal_strlit(",\"total_chunks\":");
    reveal_strlit(",\"is_last\":");
    reveal_strlit(",\"data\":");
    reveal_strlit("}");
    is_ascii_chars_encode_utf8("true"@);
    is_ascii_chars_encode_utf8("false"@);
    is_ascii_chars_encode_utf8("null"@);
    is_ascii_chars_encode_utf8("{\"request_id\":"@);
    is_ascii_chars_encode_utf8(",\"chunk_index\":"@);
    is_ascii_chars_encode_utf8(",\"total_chunks\":"@);
    is_ascii_chars_encode_utf8(",\"is_last\":"@);
    is_ascii_chars_encode_utf8(",\"data\":"@);
    is_ascii_chars_encode_utf8("}"@);
}

/// Appends the UTF-8 form of `text`.
pub fn push_text(out: &mut Vec<u8>, text: &str)
    ensures
        final(out)@ == old(out)@ + encode_utf8(text@),
{
    push_bytes(out, text.as_bytes());
}

/// Appends `bytes`.
pub fn push_bytes(out: &mut Vec<u8>, bytes: &[u8])
    ensures
        final(out)@ == old(out)@ + bytes@,
{
    out.extend_from_slice(bytes);
    proof {
        assert(out@ =~= old(out)@ + bytes@);
    }
}

impl ChunkEnvelope {
    /// The envelope as JSON.
    pub fn to_json(&self) -> (json: Vec<u8>)
        ensures
            json@ == envelope_json(self@),
            is_plain_json(self.data@) ==> json@.len() == envelope_size(
                self@.request_id,
                self@.chunk_index,
                self@.total_chunks,
                self@.is_last,
                self@.data.len(),
            ),
            is_plain_json(self.request_id@) ==> json_string(self.request_id@).len()
                == self.request_id@.len() + 2,
    {
        let mut out: Vec<u8> = Vec::new();
        push_text(&mut out, "{\"request_id\":");
        push_bytes(&mut out, to_json_string(self.request_id.as_str()).as_slice());
        push_text(&mut out, ",\"chunk_index\":");
        push_decimal(&mut out, self.chunk_index as u64);
        push_text(&mut out, ",\"total_chunks\":");
        match self.total_chunks {
            Some(n) => push_decimal(&mut out, n as u64),
            None => push_text(&mut out, "null"),
        }
        push_text(&mut out, ",\"is_last\":");
        push_text(&mut out, if self.is_last { "true" } else { "false" });
        push_text(&mut out, ",\"data\":");
        push_bytes(&mut out, to_json_string(self.data.as_str()).as_slice());
        push_text(&mut out, "}");
        proof {
            assert(out@ =~= envelope_json(self@));
            lemma_json_word_sizes();
            if is_plain_json(self.data@) {
                is_ascii_chars_encode_utf8(self.data@);
            }
            if is_plain_json(self.request_id@) {
                is_ascii_chars_encode_utf8(self.request_id@);
            }
        }
        out
    }
}

/// The envelope in JSON: its five members, each with its name.
pub proof fn law_envelope_members(e: EnvelopeView)
    ensures
        envelope_json(e) == encode_utf8("{\"request_id\":"@) + json_string(e.request_id)
            + encode_utf8(",\"chunk_index\":"@) + decimal(e.chunk_index) + encode_utf8(
            ",\"total_chunks\":"@,
        ) + (match e.total_chunks {
            Some(n) => decimal(n),
            None => encode_utf8("null"@),
        }) + encode_utf8(",\"is_last\":"@) + (if e.is_last {
            encode_utf8("true"@)
        } else {
            encode_utf8("false"@)
        }) + encode_utf8(",\"data\":"@) + json_string(e.data) + encode_utf8("}"@),
{
}

/// The size of an envelope is the size of its JSON, where the data stands in it as
/// itself between quotes.
pub proof fn law_envelope_size(e: EnvelopeView)
    requires
        json_string(e.data).len() == e.data.len() + 2,
    ensures
        envelope_json(e).len() == envelope_size(
            e.request_id,
            e.chunk_index,
            e.total_chunks,
            e.is_last,
            e.data.len(),
        ),
{
    lemma_json_word_sizes();
}

/// Whether no comma stands in `word`.
spec fn has_no_comma(word: Seq<u8>) -> bool {
    forall|i: int| 0 <= i < word.len() ==> #[trigger] word[i] != 0x2c
}

proof fn lemma_word_ends_at_comma(u: Seq<u8>, v: Seq<u8>, p: Seq<u8>, x: Seq<u8>, y: Seq<u8>)
    requires
        u + (p + x) == v + (p + y),
        p.len() > 0,
        p[0] == 0x2c,
        has_no_comma(u),
        has_no_comma(v),
    ensures
        u == v,
        x == y,
{
    let left = u + (p + x);
    let right = v + (p + y);
    if u.len() < v.len() {
        assert(left[u.len() as int] == 0x2c);
        assert(right[u.len() as int] == v[u.len() as int]);
    }
    if v.len() < u.len() {
        assert(right[v.len() as int] == 0x2c);
        assert(left[v.len() as int] == u[v.len() as int]);
    }
    assert forall|i: int| 0 <= i < u.len() implies u[i] == v[i] by {
        assert(left[i] == u[i]);
        assert(right[i] == v[i]);
    }
    assert(u =~= v);
    lemma_cancel(u, p + x, p + y);
    lemma_cancel(p, x, y);
}

proof fn lemma_words_of_envelope(a: Option<nat>, b: Option<nat>, p: bool, q: bool)
    ensures
        has_no_comma(json_opt_number(a)),
        has_no_comma(json_bool(p)),
        json_opt_number(a) == json_opt_number(b) ==> a == b,
        json_bool(p) == json_bool(q) ==> p == q,
{
    reveal_strlit("true");
    reveal_strlit("false");
    reveal_strlit("null");
    is_ascii_chars_encode_utf8("true"@);
    is_ascii_chars_encode_utf8("false"@);
    is_ascii_chars_encode_utf8("null"@);
    assert(json_opt_number(None)[0] == 0x6e);
    if a is Some {
        let max = if b is Some && b->0 > a->0 {
            b->0
        } else {
            a->0
        };
        law_decimal_reads_back(a->0, max);
        if b is Some {
            law_decimal_reads_back(b->0, max);
        }
    } else if b is Some {
        law_decimal_reads_back(b->0, b->0);
    }
}

proof fn lemma_envelope_from_the_left(e: EnvelopeView)
    ensures
        envelope_json(e) == encode_utf8("{\"request_id\":"@) + (json_string(e.request_id) + (
        encode_utf8(",\"chunk_index\":"@) + (decimal(e.chunk_index) + (encode_utf8(
            ",\"total_chunks\":"@,
        ) + (json_opt_number(e.total_chunks) + (encode_utf8(",\"is_last\":"@) + (json_bool(e.is_last)
            + (encode_utf8(",\"data\":"@) + (json_string(e.data) + encode_utf8("}"@)))))))))),
{
    let open = encode_utf8("{\"request_id\":"@);
    let id = json_string(e.request_id);
    let i = encode_utf8(",\"chunk_index\":"@);
    let index = decimal(e.chunk_index);
    let t = encode_utf8(",\"total_chunks\":"@);
    let total = json_opt_number(e.total_chunks);
    let l = encode_utf8(",\"is_last\":"@);
    let last = json_bool(e.is_last);
    let d = encode_utf8(",\"data\":"@);
    let data = json_string(e.data);
    let end = encode_utf8("}"@);
    let to_index = open + id + i;
    let to_total = to_index + index + t;
    let to_last = to_total + total + l;
    let to_data = to_last + last + d;
    let from_data = data + end;
    let from_last = last + (d + from_data);
    let from_total = total + (l + from_last);
    let from_index = index + (t + from_total);
    lemma_grouping(to_data, data, end);
    lemma_grouping(to_last + last, d, from_data);
    lemma_grouping(to_last, last, d + from_data);
    lemma_grouping(to_total + total, l, from_last);
    lemma_grouping(to_total, total, l + from_last);
    lemma_grouping(to_index + index, t, from_total);
    lemma_grouping(to_index, index, t + from_total);
    lemma_grouping(open + id, i, from_index);
    lemma_grouping(open, id, i + from_index);
}

/// Two envelopes with the same JSON are the same: nothing of an envelope is lost in
/// it.
pub proof fn law_different_envelopes_differ(a: EnvelopeView, b: EnvelopeView)
    requires
        json_strings_end_by_themselves(),
        envelope_json(a) == envelope_json(b),
    ensures
        a == b,
{
    lemma_envelope_from_the_left(a);
    lemma_envelope_from_the_left(b);
    reveal_strlit(",\"total_chunks\":");
    reveal_strlit(",\"is_last\":");
    reveal_strlit(",\"data\":");
    is_ascii_chars_encode_utf8(",\"total_chunks\":"@);
    is_ascii_chars_encode_utf8(",\"is_last\":"@);
    is_ascii_chars_encode_utf8(",\"data\":"@);
    let i = encode_utf8(",\"chunk_index\":"@);
    let t = encode_utf8(",\"total_chunks\":"@);
    let l = encode_utf8(",\"is_last\":"@);
    let d = encode_utf8(",\"data\":"@);
    let end = encode_utf8("}"@);
    let last_a = json_bool(a.is_last) + (d + (json_string(a.data) + end));
    let last_b = json_bool(b.is_last) + (d + (json_string(b.data) + end));
    let total_a = json_opt_number(a.total_chunks) + (l + last_a);
    let total_b = json_opt_number(b.total_chunks) + (l + last_b);
    let index_a = decimal(a.chunk_index) + (t + total_a);
    let index_b = decimal(b.chunk_index) + (t + total_b);
    lemma_cancel(
        encode_utf8("{\"request_id\":"@),
        json_string(a.request_id) + (i + index_a),
        json_string(b.request_id) + (i + index_b),
    );
    lemma_cancel(i, index_a, index_b);
    lemma_words_of_envelope(a.total_chunks, b.total_chunks, a.is_last, b.is_last);
    lemma_words_of_envelope(b.total_chunks, a.total_chunks, b.is_last, a.is_last);
    lemma_words_of_envelope(Some(a.chunk_index), Some(b.chunk_index), true, true);
    lemma_words_of_envelope(Some(b.chunk_index), Some(a.chunk_index), true, true);
    lemma_word_ends_at_comma(
        json_opt_number(Some(a.chunk_index)),
        json_opt_number(Some(b.chunk_index)),
        t,
        total_a,
        total_b,
    );
    lemma_word_ends_at_comma(
        json_opt_number(a.total_chunks),
        json_opt_number(b.total_chunks),
        l,
        last_a,
        last_b,
    );
    lemma_word_ends_at_comma(
        json_bool(a.is_last),
        json_bool(b.is_last),
        d,
        json_string(a.data) + end,
        json_string(b.data) + end,
    );
}

} // verus!
