//! What is reported of a webhook besides its body.
use vstd::prelude::*;
use vstd::string::*;
use vstd::utf8::*;

use crate::envelope::{push_bytes, push_text};
use crate::models::{HookMeta, Timestamp};
use crate::outside::{
    is_clock_reading, is_moment, json_string, lemma_clock_reading, rfc3339_text, to_json_string,
    to_rfc3339, utc_now,
};
use crate::text::same_text;

verus! {

/// The value of a header that is reported: its text, or a placeholder where it
/// is not text.
pub open spec fn header_value(value: Option<String>) -> Seq<char> {
    match value {
        Some(text) => text@,
        None => "<binary>"@,
    }
}

/// The headers that are reported, by name. Of several with one name the last
/// counts.
pub open spec fn header_map(raw: Seq<(String, Option<String>)>) -> Map<Seq<char>, Seq<char>>
    decreases raw.len(),
{
    if raw.len() == 0 {
        Map::empty()
    } else {
        header_map(raw.drop_last()).insert(raw.last().0@, header_value(raw.last().1))
    }
}

/// Whether `list` holds the entries of `map`, each once.
pub open spec fn lists(list: Seq<(String, String)>, map: Map<Seq<char>, Seq<char>>) -> bool {
    &&& forall|i: int, j: int|
        0 <= i < j < list.len() ==> (#[trigger] list[i]).0@ != (#[trigger] list[j]).0@
    &&& forall|i: int|
        0 <= i < list.len() ==> map.contains_key((#[trigger] list[i]).0@) && map[list[i].0@]
            == list[i].1@
    &&& forall|name: Seq<char>| #[trigger]
        map.contains_key(name) ==> exists|i: int|
            0 <= i < list.len() && (#[trigger] list[i]).0@ == name
}

/// Where `list` has an entry named `name`, if it has one.
fn position(list: &Vec<(String, String)>, name: &str) -> (at: Option<usize>)
    ensures
        match at {
            Some(i) => i < list@.len() && list@[i as int].0@ == name@,
            None => forall|i: int| 0 <= i < list@.len() ==> (#[trigger] list@[i]).0@ != name@,
        },
{
    let mut i: usize = 0;
    while i < list.len()
        invariant
            i <= list@.len(),
            forall|j: int| 0 <= j < i ==> (#[trigger] list@[j]).0@ != name@,
        decreases list.len() - i,
    {
        if same_text(list[i].0.as_str(), name) {
            return Some(i);
        }
        i = i + 1;
    }
    None
}

/// The headers to report, given all headers of a request in order.
pub fn collect_headers(raw: &[(String, Option<String>)]) -> (headers: Vec<(String, String)>)
    ensures
        lists(headers@, header_map(raw@)),
{
    let mut headers: Vec<(String, String)> = Vec::new();
    let mut i: usize = 0;
    proof {
        assert(raw@.take(0) =~= Seq::<(String, Option<String>)>::empty());
    }
    while i < raw.len()
        invariant
            i <= raw@.len(),
            lists(headers@, header_map(raw@.take(i as int))),
        decreases raw.len() - i,
    {
        let ghost before = headers@;
        let ghost old_map = header_map(raw@.take(i as int));
        let ghost new_map = header_map(raw@.take(i + 1));
        proof {
            assert(raw@.take(i + 1).drop_last() =~= raw@.take(i as int));
        }
        let name: String = raw[i].0.clone();
        let value: String = match &raw[i].1 {
            Some(text) => text.clone(),
            None => "<binary>".to_owned(),
        };
        let ghost entry = (name, value);
        match position(&headers, name.as_str()) {
            Some(at) => {
                headers.set(at, (name, value));
                proof {
                    assert forall|k: Seq<char>| #[trigger] new_map.contains_key(k) implies exists|
                        j: int,
                    | 0 <= j < headers@.len() && (#[trigger] headers@[j]).0@ == k by {
                        if k == entry.0@ {
                            assert(headers@[at as int].0@ == k);
                        } else {
                            let j = choose|j: int|
                                0 <= j < before.len() && (#[trigger] before[j]).0@ == k;
                            assert(headers@[j].0@ == k);
                        }
                    }
                }
            },
            None => {
                headers.push((name, value));
                proof {
                    assert forall|k: Seq<char>| #[trigger] new_map.contains_key(k) implies exists|
                        j: int,
                    | 0 <= j < headers@.len() && (#[trigger] headers@[j]).0@ == k by {
                        if k == entry.0@ {
                            assert(headers@[before.len() as int].0@ == k);
                        } else {
                            let j = choose|j: int|
                                0 <= j < before.len() && (#[trigger] before[j]).0@ == k;
                            assert(headers@[j].0@ == k);
                        }
                    }
                }
            },
        }
        i = i + 1;
    }
    proof {
        assert(raw@.take(i as int) =~= raw@);
    }
    headers
}

/// Headers as the members of a JSON object, without its braces.
pub open spec fn header_members(headers: Seq<(String, String)>) -> Seq<u8>
    decreases headers.len(),
{
    if headers.len() == 0 {
        Seq::empty()
    } else {
        let before = header_members(headers.drop_last());
        let separator = if headers.len() == 1 {
            Seq::empty()
        } else {
            encode_utf8(","@)
        };
        before + separator + json_string(headers.last().0@) + encode_utf8(":"@) + json_string(
            headers.last().1@,
        )
    }
}

/// The report on a webhook in JSON: its six members in order, without white
/// space.
pub open spec fn meta_json(meta: HookMeta) -> Seq<u8> {
    encode_utf8("{\"timestamp\":"@) + json_string(meta.timestamp@) + encode_utf8(
        ",\"method\":"@,
    ) + json_string(meta.method@) + encode_utf8(",\"path\":"@) + json_string(meta.path@)
        + encode_utf8(",\"query_string\":"@) + json_string(meta.query_string@) + encode_utf8(
        ",\"headers\":{"@,
    ) + header_members(meta.headers@) + encode_utf8("},\"source_ip\":"@) + json_string(
        meta.source_ip@,
    ) + encode_utf8("}"@)
}

/// Appends the JSON string literal for `text`.
fn push_json_string(out: &mut Vec<u8>, text: &str)
    ensures
        final(out)@ == old(out)@ + json_string(text@),
{
    push_bytes(out, to_json_string(text).as_slice());
}

/// Appends headers as the members of a JSON object.
fn push_header_members(out: &mut Vec<u8>, headers: &Vec<(String, String)>)
    ensures
        final(out)@ == old(out)@ + header_members(headers@),
{
    let ghost start = out@;
    let mut i: usize = 0;
    proof {
        assert(headers@.take(0) =~= Seq::<(String, String)>::empty());
        assert(start + Seq::<u8>::empty() =~= start);
    }
    while i < headers.len()
        invariant
            i <= headers@.len(),
            out@ == start + header_members(headers@.take(i as int)),
        decreases headers.len() - i,
    {
        proof {
            assert(headers@.take(i + 1).drop_last() =~= headers@.take(i as int));
            assert(headers@.take(i + 1).last() == headers@[i as int]);
        }
        if i > 0 {
            push_text(out, ",");
        }
        push_json_string(out, headers[i].0.as_str());
        push_text(out, ":");
        push_json_string(out, headers[i].1.as_str());
        i = i + 1;
        proof {
            assert(out@ =~= start + header_members(headers@.take(i as int)));
        }
    }
    proof {
        assert(headers@.take(i as int) =~= headers@);
    }
}

/// The text of an optional part of a request, or `default`.
pub open spec fn text_or(text: Option<&str>, default: Seq<char>) -> Seq<char> {
    match text {
        Some(text) => text@,
        None => default,
    }
}

impl HookMeta {
    /// The report on a webhook that came in at `time`. A request without a query
    /// has an empty one, and a sender without a known address is `unknown`.
    pub fn at(
        time: Timestamp,
        method: &str,
        path: &str,
        query: Option<&str>,
        raw_headers: &[(String, Option<String>)],
        source_ip: Option<&str>,
    ) -> (meta: Self)
        requires
            is_moment(time),
        ensures
            meta.timestamp@ == rfc3339_text(time.secs, time.nanos),
            meta.method@ == method@,
            meta.path@ == path@,
            meta.query_string@ == text_or(query, ""@),
            lists(meta.headers@, header_map(raw_headers@)),
            meta.source_ip@ == text_or(source_ip, "unknown"@),
    {
        let query_string: &str = match query {
            Some(text) => text,
            None => "",
        };
        let address: &str = match source_ip {
            Some(text) => text,
            None => "unknown",
        };
        HookMeta {
            timestamp: to_rfc3339(time),
            method: method.to_owned(),
            path: path.to_owned(),
            query_string: query_string.to_owned(),
            headers: collect_headers(raw_headers),
            source_ip: address.to_owned(),
        }
    }

    /// The report on a webhook that comes in now.
    pub fn now(
        method: &str,
        path: &str,
        query: Option<&str>,
        raw_headers: &[(String, Option<String>)],
        source_ip: Option<&str>,
    ) -> (meta: Self)
        ensures
            exists|time: Timestamp|
                is_moment(time) && is_clock_reading(time) && meta.timestamp@
                    == #[trigger] rfc3339_text(time.secs, time.nanos),
            meta.method@ == method@,
            meta.path@ == path@,
            meta.query_string@ == text_or(query, ""@),
            lists(meta.headers@, header_map(raw_headers@)),
            meta.source_ip@ == text_or(source_ip, "unknown"@),
    {
        let time: Timestamp = utc_now();
        proof {
            lemma_clock_reading(time);
        }
        HookMeta::at(time, method, path, query, raw_headers, source_ip)
    }

    /// The report as JSON.
    pub fn to_json(&self) -> (json: Vec<u8>)
        ensures
            json@ == meta_json(*self),
    {
        let mut out: Vec<u8> = Vec::new();
        push_text(&mut out, "{\"timestamp\":");
        push_json_string(&mut out, self.timestamp.as_str());
        push_text(&mut out, ",\"method\":");
        push_json_string(&mut out, self.method.as_str());
        push_text(&mut out, ",\"path\":");
        push_json_string(&mut out, self.path.as_str());
        push_text(&mut out, ",\"query_string\":");
        push_json_string(&mut out, self.query_string.as_str());
        push_text(&mut out, ",\"headers\":{");
        push_header_members(&mut out, &self.headers);
        push_text(&mut out, "},\"source_ip\":");
        push_json_string(&mut out, self.source_ip.as_str());
        push_text(&mut out, "}");
        proof {
            assert(out@ =~= meta_json(*self));
        }
        out
    }
}

/// The headers that are reported are those whose name occurs in the request.
pub proof fn law_reported_names_occur(raw: Seq<(String, Option<String>)>, name: Seq<char>)
    ensures
        header_map(raw).contains_key(name) <==> exists|i: int|
            0 <= i < raw.len() && (#[trigger] raw[i]).0@ == name,
    decreases raw.len(),
{
    if raw.len() > 0 {
        let front = raw.drop_last();
        let last = raw[raw.len() - 1];
        law_reported_names_occur(front, name);
        if header_map(raw).contains_key(name) && last.0@ != name {
            let i = choose|i: int| 0 <= i < front.len() && (#[trigger] front[i]).0@ == name;
            assert(raw[i].0@ == name);
        }
        if exists|i: int| 0 <= i < raw.len() && (#[trigger] raw[i]).0@ == name {
            let i = choose|i: int| 0 <= i < raw.len() && (#[trigger] raw[i]).0@ == name;
            if i < front.len() {
                assert(front[i].0@ == name);
            }
        }
    }
}

/// A header that no later one has the name of is reported with its value, or with
/// `<binary>` where that is not text.
pub proof fn law_last_header_counts(raw: Seq<(String, Option<String>)>, i: int)
    requires
        0 <= i < raw.len(),
        forall|j: int| i < j < raw.len() ==> (#[trigger] raw[j]).0@ != raw[i].0@,
    ensures
        header_map(raw).contains_key(raw[i].0@),
        header_map(raw)[raw[i].0@] == match raw[i].1 {
            Some(text) => text@,
            None => "<binary>"@,
        },
    decreases raw.len(),
{
    let front = raw.drop_last();
    if i < front.len() {
        assert(raw[raw.len() - 1].0@ != raw[i].0@);
        assert forall|j: int| i < j < front.len() implies (#[trigger] front[j]).0@
            != front[i].0@ by {
            assert(front[j] == raw[j]);
        }
        law_last_header_counts(front, i);
    }
}

/// A list of the headers that are reported has one entry for each, and no other.
pub proof fn law_headers_are_listed_once(
    list: Seq<(String, String)>,
    map: Map<Seq<char>, Seq<char>>,
)
    requires
        lists(list, map),
    ensures
        forall|i: int, j: int|
            0 <= i < list.len() && 0 <= j < list.len() && (#[trigger] list[i]).0@ == (
            #[trigger] list[j]).0@ ==> i == j,
        forall|i: int|
            #![trigger list[i]]
            0 <= i < list.len() ==> map.contains_pair(list[i].0@, list[i].1@),
        forall|name: Seq<char>| #[trigger]
            map.contains_key(name) ==> exists|i: int|
                0 <= i < list.len() && (#[trigger] list[i]).0@ == name && list[i].1@ == map[name],
{
    assert forall|i: int, j: int|
        0 <= i < list.len() && 0 <= j < list.len() && (#[trigger] list[i]).0@ == (
        #[trigger] list[j]).0@ implies i == j by {
        if i < j {
            assert(list[i].0@ != list[j].0@);
        }
        if j < i {
            assert(list[j].0@ != list[i].0@);
        }
    }
    assert forall|name: Seq<char>| #[trigger] map.contains_key(name) implies exists|i: int|
        0 <= i < list.len() && (#[trigger] list[i]).0@ == name && list[i].1@ == map[name] by {
        let i = choose|i: int| 0 <= i < list.len() && (#[trigger] list[i]).0@ == name;
        assert(map[list[i].0@] == list[i].1@);
    }
}

/// One header as a member of a JSON object: its name, a colon and its value.
pub open spec fn header_member(header: (String, String)) -> Seq<u8> {
    json_string(header.0@) + seq![0x3au8] + json_string(header.1@)
}

proof fn lemma_json_punctuation()
    ensures
        encode_utf8(","@) == seq![0x2cu8],
        encode_utf8(":"@) == seq![0x3au8],
        encode_utf8("}"@) == seq![0x7du8],
        encode_utf8("},\"source_ip\":"@).len() > 0,
        encode_utf8("},\"source_ip\":"@)[0] == 0x7d,
{
    reveal_strlit(",");
    reveal_strlit(":");
    reveal_strlit("}");
    reveal_strlit("},\"source_ip\":");
    is_ascii_chars_encode_utf8(","@);
    is_ascii_chars_encode_utf8(":"@);
    is_ascii_chars_encode_utf8("}"@);
    is_ascii_chars_encode_utf8("},\"source_ip\":"@);
    assert(encode_utf8(","@) =~= seq![0x2cu8]);
    assert(encode_utf8(":"@) =~= seq![0x3au8]);
    assert(encode_utf8("}"@) =~= seq![0x7du8]);
}

/// The members of two lists of headers, one after the other, are those of each with
/// one comma between them; a single header is one member; no headers are none.
pub proof fn law_header_members(
    a: Seq<(String, String)>,
    b: Seq<(String, String)>,
    one: (String, String),
)
    ensures
        header_members(Seq::empty()) == Seq::<u8>::empty(),
        header_members(seq![one]) == json_string(one.0@) + seq![0x3au8] + json_string(one.1@),
        a.len() > 0 && b.len() > 0 ==> header_members(a + b) == header_members(a) + seq![0x2cu8]
            + header_members(b),
    decreases b.len(),
{
    lemma_json_punctuation();
    let single = seq![one];
    assert(single.drop_last() =~= Seq::<(String, String)>::empty());
    reveal_with_fuel(header_members, 2);
    assert(header_members(single) =~= header_member(one));
    if a.len() > 0 && b.len() > 0 {
        let front = b.drop_last();
        assert((a + b).drop_last() =~= a + front);
        assert((a + b).last() == b.last());
        if front.len() > 0 {
            law_header_members(a, front, one);
        } else {
            assert(a + front =~= a);
            assert(b.drop_last() =~= Seq::<(String, String)>::empty());
        }
        assert(header_members(a + b) =~= header_members(a) + seq![0x2cu8] + header_members(b));
    }
}

/// Every header is in the report: its name and its value stand among the members,
/// set apart by commas from those before and after it.
pub proof fn law_every_header_is_reported(headers: Seq<(String, String)>, i: int)
    requires
        0 <= i < headers.len(),
    ensures
        ({
            let before = header_members(headers.take(i));
            let member = json_string(headers[i].0@) + seq![0x3au8] + json_string(headers[i].1@);
            let after = header_members(headers.skip(i + 1));
            header_members(headers) == (if i == 0 {
                Seq::<u8>::empty()
            } else {
                before + seq![0x2cu8]
            }) + member + (if i + 1 == headers.len() {
                Seq::<u8>::empty()
            } else {
                seq![0x2cu8] + after
            })
        }),
{
    let one = headers[i];
    let left = headers.take(i);
    let right = headers.skip(i + 1);
    let middle = seq![one];
    assert(headers =~= left + middle + right);
    law_header_members(left, middle, one);
    law_header_members(left + middle, right, one);
    law_header_members(middle, right, one);
    if i == 0 {
        assert(left + middle =~= middle);
    }
    if i + 1 == headers.len() {
        assert(left + middle + right =~= left + middle);
    }
    assert(header_members(headers) =~= (if i == 0 {
        Seq::<u8>::empty()
    } else {
        header_members(left) + seq![0x2cu8]
    }) + header_member(one) + (if i + 1 == headers.len() {
        Seq::<u8>::empty()
    } else {
        seq![0x2cu8] + header_members(right)
    }));
}

/// The report in JSON: its six members, each with its name.
pub proof fn law_report_members(meta: HookMeta)
    ensures
        meta_json(meta) == encode_utf8("{\"timestamp\":"@) + json_string(meta.timestamp@)
            + encode_utf8(",\"method\":"@) + json_string(meta.method@) + encode_utf8(
            ",\"path\":"@,
        ) + json_string(meta.path@) + encode_utf8(",\"query_string\":"@) + json_string(
            meta.query_string@,
        ) + encode_utf8(",\"headers\":{"@) + header_members(meta.headers@) + encode_utf8(
            "},\"source_ip\":"@,
        ) + json_string(meta.source_ip@) + encode_utf8("}"@),
{
}

/// Whether JSON strings can be told from what follows them, as the grammar of JSON
/// has it: they begin with a quote, and no string is the beginning of another.
pub open spec fn json_strings_end_by_themselves() -> bool {
    &&& forall|t: Seq<char>| (#[trigger] json_string(t)).len() > 0 && json_string(t)[0] == 0x22
    &&& forall|t: Seq<char>, u: Seq<char>, a: Seq<u8>, b: Seq<u8>| #[trigger]
        (json_string(t) + a) == #[trigger] (json_string(u) + b) ==> t == u && a == b
}

/// The names and values of some headers.
pub open spec fn header_views(headers: Seq<(String, String)>) -> Seq<(Seq<char>, Seq<char>)> {
    headers.map_values(|h: (String, String)| (h.0@, h.1@))
}

proof fn lemma_first_header(headers: Seq<(String, String)>, tail: Seq<u8>)
    requires
        headers.len() > 0,
    ensures
        header_members(headers) + tail == json_string(headers[0].0@) + (seq![0x3au8] + (
        json_string(headers[0].1@) + (if headers.len() == 1 {
            tail
        } else {
            seq![0x2cu8] + (header_members(headers.skip(1)) + tail)
        }))),
{
    law_every_header_is_reported(headers, 0);
    assert(header_members(headers) + tail =~= json_string(headers[0].0@) + (seq![0x3au8] + (
    json_string(headers[0].1@) + (if headers.len() == 1 {
        tail
    } else {
        seq![0x2cu8] + (header_members(headers.skip(1)) + tail)
    }))));
}

pub(crate) proof fn lemma_cancel(p: Seq<u8>, a: Seq<u8>, b: Seq<u8>)
    requires
        p + a == p + b,
    ensures
        a == b,
{
    assert((p + a).skip(p.len() as int) =~= a);
    assert((p + b).skip(p.len() as int) =~= b);
}

/// Two reports with different headers differ in their JSON, whatever follows the
/// headers behind the brace that closes them.
pub proof fn law_different_headers_differ(
    a: Seq<(String, String)>,
    b: Seq<(String, String)>,
    after_a: Seq<u8>,
    after_b: Seq<u8>,
)
    requires
        json_strings_end_by_themselves(),
        header_members(a) + (seq![0x7du8] + after_a) == header_members(b) + (seq![0x7du8]
            + after_b),
    ensures
        header_views(a) == header_views(b),
        after_a == after_b,
    decreases a.len(),
{
    let tail_a = seq![0x7du8] + after_a;
    let tail_b = seq![0x7du8] + after_b;
    if a.len() == 0 && b.len() == 0 {
        assert(a =~= b);
        assert(header_members(a) + tail_a =~= tail_a);
        assert(header_members(b) + tail_b =~= tail_b);
        lemma_cancel(seq![0x7du8], after_a, after_b);
        assert(header_views(a) =~= header_views(b));
    } else if a.len() == 0 {
        lemma_first_header(b, tail_b);
        assert((header_members(a) + tail_a)[0] == 0x7d);
        assert((header_members(b) + tail_b)[0] == json_string(b[0].0@)[0]);
    } else if b.len() == 0 {
        lemma_first_header(a, tail_a);
        assert((header_members(b) + tail_b)[0] == 0x7d);
        assert((header_members(a) + tail_a)[0] == json_string(a[0].0@)[0]);
    } else {
        lemma_first_header(a, tail_a);
        lemma_first_header(b, tail_b);
        let rest_a = if a.len() == 1 {
            tail_a
        } else {
            seq![0x2cu8] + (header_members(a.skip(1)) + tail_a)
        };
        let rest_b = if b.len() == 1 {
            tail_b
        } else {
            seq![0x2cu8] + (header_members(b.skip(1)) + tail_b)
        };
        lemma_cancel(
            seq![0x3au8],
            json_string(a[0].1@) + rest_a,
            json_string(b[0].1@) + rest_b,
        );
        assert(rest_a == rest_b);
        assert(rest_a[0] == if a.len() == 1 {
            0x7du8
        } else {
            0x2cu8
        });
        assert(rest_b[0] == if b.len() == 1 {
            0x7du8
        } else {
            0x2cu8
        });
        if a.len() == 1 {
            lemma_cancel(seq![0x7du8], after_a, after_b);
            assert(header_views(a) =~= header_views(b));
        } else {
            lemma_cancel(
                seq![0x2cu8],
                header_members(a.skip(1)) + tail_a,
                header_members(b.skip(1)) + tail_b,
            );
            law_different_headers_differ(a.skip(1), b.skip(1), after_a, after_b);
            assert(header_views(a.skip(1)).len() == header_views(b.skip(1)).len());
            assert forall|i: int| 0 <= i < a.len() implies header_views(a)[i] == header_views(
                b,
            )[i] by {
                if i > 0 {
                    assert(header_views(a.skip(1))[i - 1] == header_views(b.skip(1))[i - 1]);
                    assert(a.skip(1)[i - 1] == a[i]);
                    assert(b.skip(1)[i - 1] == b[i]);
                }
            }
            assert(header_views(a) =~= header_views(b));
        }
    }
}

pub(crate) proof fn lemma_grouping(a: Seq<u8>, b: Seq<u8>, c: Seq<u8>)
    ensures
        a + b + c == a + (b + c),
{
    assert(a + b + c =~= a + (b + c));
}

proof fn lemma_report_from_the_left(meta: HookMeta)
    ensures
        meta_json(meta) == encode_utf8("{\"timestamp\":"@) + (json_string(meta.timestamp@) + (
        encode_utf8(",\"method\":"@) + (json_string(meta.method@) + (encode_utf8(",\"path\":"@) + (
        json_string(meta.path@) + (encode_utf8(",\"query_string\":"@) + (json_string(
            meta.query_string@,
        ) + (encode_utf8(",\"headers\":{"@) + (header_members(meta.headers@) + (encode_utf8(
            "},\"source_ip\":"@,
        ) + (json_string(meta.source_ip@) + encode_utf8("}"@)))))))))))),
{
    let open = encode_utf8("{\"timestamp\":"@);
    let time = json_string(meta.timestamp@);
    let m = encode_utf8(",\"method\":"@);
    let method = json_string(meta.method@);
    let p = encode_utf8(",\"path\":"@);
    let path = json_string(meta.path@);
    let q = encode_utf8(",\"query_string\":"@);
    let query = json_string(meta.query_string@);
    let h = encode_utf8(",\"headers\":{"@);
    let headers = header_members(meta.headers@);
    let close = encode_utf8("},\"source_ip\":"@);
    let ip = json_string(meta.source_ip@);
    let end = encode_utf8("}"@);
    let to_method = open + time + m;
    let to_path = to_method + method + p;
    let to_query = to_path + path + q;
    let to_headers = to_query + query + h;
    let to_ip = to_headers + headers + close;
    let from_ip = ip + end;
    let from_headers = headers + (close + from_ip);
    let from_query = query + (h + from_headers);
    let from_path = path + (q + from_query);
    let from_method = method + (p + from_path);
    lemma_grouping(to_ip, ip, end);
    lemma_grouping(to_headers + headers, close, from_ip);
    lemma_grouping(to_headers, headers, close + from_ip);
    lemma_grouping(to_query + query, h, from_headers);
    lemma_grouping(to_query, query, h + from_headers);
    lemma_grouping(to_path + path, q, from_query);
    lemma_grouping(to_path, path, q + from_query);
    lemma_grouping(to_method + method, p, from_path);
    lemma_grouping(to_method, method, p + from_path);
    lemma_grouping(open + time, m, from_method);
    lemma_grouping(open, time, m + from_method);
}

/// Two reports with the same JSON say the same: nothing of a report is lost in it.
pub proof fn law_different_reports_differ(a: HookMeta, b: HookMeta)
    requires
        json_strings_end_by_themselves(),
        meta_json(a) == meta_json(b),
    ensures
        a.timestamp@ == b.timestamp@,
        a.method@ == b.method@,
        a.path@ == b.path@,
        a.query_string@ == b.query_string@,
        header_views(a.headers@) == header_views(b.headers@),
        a.source_ip@ == b.source_ip@,
{
    lemma_report_from_the_left(a);
    lemma_report_from_the_left(b);
    lemma_json_punctuation();
    let close = encode_utf8("},\"source_ip\":"@);
    let ip_a = json_string(a.source_ip@) + encode_utf8("}"@);
    let ip_b = json_string(b.source_ip@) + encode_utf8("}"@);
    let headers_a = header_members(a.headers@) + (close + ip_a);
    let headers_b = header_members(b.headers@) + (close + ip_b);
    let h = encode_utf8(",\"headers\":{"@);
    let q = encode_utf8(",\"query_string\":"@);
    let p = encode_utf8(",\"path\":"@);
    let m = encode_utf8(",\"method\":"@);
    let query_a = json_string(a.query_string@) + (h + headers_a);
    let query_b = json_string(b.query_string@) + (h + headers_b);
    let path_a = json_string(a.path@) + (q + query_a);
    let path_b = json_string(b.path@) + (q + query_b);
    let method_a = json_string(a.method@) + (p + path_a);
    let method_b = json_string(b.method@) + (p + path_b);
    let time_a = json_string(a.timestamp@) + (m + method_a);
    let time_b = json_string(b.timestamp@) + (m + method_b);
    lemma_cancel(encode_utf8("{\"timestamp\":"@), time_a, time_b);
    lemma_cancel(m, method_a, method_b);
    lemma_cancel(p, path_a, path_b);
    lemma_cancel(q, query_a, query_b);
    lemma_cancel(h, headers_a, headers_b);
    let tail = close.skip(1);
    assert(close + ip_a =~= seq![0x7du8] + (tail + ip_a));
    assert(close + ip_b =~= seq![0x7du8] + (tail + ip_b));
    law_different_headers_differ(a.headers@, b.headers@, tail + ip_a, tail + ip_b);
    lemma_cancel(tail, ip_a, ip_b);
}

/// A part that a request has is reported as it is, and a missing one by its default.
pub proof fn law_missing_parts(text: &str, default: Seq<char>)
    ensures
        text_or(Some(text), default) == text@,
        text_or(None, default) == default,
{
}

proof fn lemma_member_in_the_middle(
    head: Seq<u8>,
    before: Seq<u8>,
    name: Seq<u8>,
    colon: Seq<u8>,
    value: Seq<u8>,
    after: Seq<u8>,
    tail: Seq<u8>,
)
    ensures
        head + (before + (name + colon + value) + after) + tail == (head + before) + name + colon
            + value + (after + tail),
{
    assert(head + (before + (name + colon + value) + after) + tail =~= (head + before) + name
        + colon + value + (after + tail));
}

/// [`HookMeta::to_json`] reports every header: its name, a colon and its value stand
/// in the JSON.
pub proof fn law_report_of_call(meta: HookMeta, json: Vec<u8>, i: int)
    requires
        call_ensures(HookMeta::to_json, (&meta,), json),
        0 <= i < meta.headers@.len(),
    ensures
        exists|before: Seq<u8>, after: Seq<u8>|
            json@ == #[trigger] (before + json_string(meta.headers@[i].0@) + seq![0x3au8]
                + json_string(meta.headers@[i].1@) + after),
{
    let headers = meta.headers@;
    law_every_header_is_reported(headers, i);
    let before = if i == 0 {
        Seq::<u8>::empty()
    } else {
        header_members(headers.take(i)) + seq![0x2cu8]
    };
    let after = if i + 1 == headers.len() {
        Seq::<u8>::empty()
    } else {
        seq![0x2cu8] + header_members(headers.skip(i + 1))
    };
    let head = encode_utf8("{\"timestamp\":"@) + json_string(meta.timestamp@) + encode_utf8(
        ",\"method\":"@,
    ) + json_string(meta.method@) + encode_utf8(",\"path\":"@) + json_string(meta.path@)
        + encode_utf8(",\"query_string\":"@) + json_string(meta.query_string@) + encode_utf8(
        ",\"headers\":{"@,
    );
    let close = encode_utf8("},\"source_ip\":"@);
    let ip = json_string(meta.source_ip@);
    let end = encode_utf8("}"@);
    let front = head + header_members(headers);
    lemma_grouping(front, close, ip);
    lemma_grouping(front, close + ip, end);
    lemma_member_in_the_middle(
        head,
        before,
        json_string(headers[i].0@),
        seq![0x3au8],
        json_string(headers[i].1@),
        after,
        close + ip + end,
    );
}

} // verus!
