//! The store of subscriptions: their identifiers and their expiry.
use vstd::prelude::*;
use vstd::string::*;

use crate::clock::{before, is_before};
use crate::error::AppError;
use crate::models::Timestamp;
use crate::outside::{
    days_before, is_clock_reading, is_drawn_uuid, is_hex_digit, is_moment, is_uuid_v4,
    lemma_clock_reading, lemma_drawn_uuid, random_uuid, utc_now, DAY_SECS, MAX_UTC_SECS,
    MIN_UTC_SECS,
};
use crate::text::{chars_of, text_of, texts};

verus! {

/// How many characters the identifier of a subscription has.
pub const SHORT_ID_LEN: usize = 12;

/// How many identifiers are tried before a new subscription is refused.
pub const MAX_ID_CANDIDATES: u32 = 5;

/// `s` without every `c`.
pub open spec fn without(s: Seq<char>, c: char) -> Seq<char>
    decreases s.len(),
{
    if s.len() == 0 {
        s
    } else if s.last() == c {
        without(s.drop_last(), c)
    } else {
        without(s.drop_last(), c).push(s.last())
    }
}

proof fn lemma_without_concat(a: Seq<char>, b: Seq<char>, c: char)
    ensures
        without(a + b, c) == without(a, c) + without(b, c),
    decreases b.len(),
{
    if b.len() == 0 {
        assert(a + b =~= a);
        assert(without(a, c) + without(b, c) =~= without(a, c));
    } else {
        lemma_without_concat(a, b.drop_last(), c);
        assert((a + b).drop_last() =~= a + b.drop_last());
        assert(without(a + b, c) =~= without(a, c) + without(b, c));
    }
}

proof fn lemma_without_absent(s: Seq<char>, c: char)
    requires
        forall|i: int| 0 <= i < s.len() ==> s[i] != c,
    ensures
        without(s, c) == s,
    decreases s.len(),
{
    if s.len() > 0 {
        lemma_without_absent(s.drop_last(), c);
        assert(s.drop_last().push(s.last()) =~= s);
    }
}

/// The 32 digits of a UUID: its text without hyphens.
pub proof fn lemma_uuid_digits(s: Seq<char>)
    requires
        is_uuid_v4(s),
    ensures
        without(s, '-') == s.subrange(0, 8) + s.subrange(9, 13) + s.subrange(14, 18) + s.subrange(
            19,
            23,
        ) + s.subrange(24, 36),
        forall|i: int| 0 <= i < 32 ==> is_hex_digit(#[trigger] without(s, '-')[i]),
{
    let a = s.subrange(0, 8);
    let b = s.subrange(9, 13);
    let c = s.subrange(14, 18);
    let d = s.subrange(19, 23);
    let e = s.subrange(24, 36);
    let hyphen = seq!['-'];
    assert(s =~= a + hyphen + b + hyphen + c + hyphen + d + hyphen + e);
    lemma_without_concat(a + hyphen + b + hyphen + c + hyphen + d + hyphen, e, '-');
    lemma_without_concat(a + hyphen + b + hyphen + c + hyphen + d, hyphen, '-');
    lemma_without_concat(a + hyphen + b + hyphen + c + hyphen, d, '-');
    lemma_without_concat(a + hyphen + b + hyphen + c, hyphen, '-');
    lemma_without_concat(a + hyphen + b + hyphen, c, '-');
    lemma_without_concat(a + hyphen + b, hyphen, '-');
    lemma_without_concat(a + hyphen, b, '-');
    lemma_without_concat(a, hyphen, '-');
    lemma_without_absent(a, '-');
    lemma_without_absent(b, '-');
    lemma_without_absent(c, '-');
    lemma_without_absent(d, '-');
    lemma_without_absent(e, '-');
    assert(without(hyphen, '-') =~= Seq::<char>::empty()) by {
        reveal_with_fuel(without, 2);
        assert(hyphen.drop_last() =~= Seq::<char>::empty());
    }
    assert(without(s, '-') =~= a + b + c + d + e);
}

/// The text without every `c`.
pub fn remove_char(text: &str, c: char) -> (rest: String)
    ensures
        rest@ == without(text@, c),
{
    let list: Vec<char> = chars_of(text);
    let mut rest: String = String::new();
    let mut i: usize = 0;
    proof {
        assert(list@.take(0) =~= Seq::<char>::empty());
    }
    while i < list.len()
        invariant
            i <= list@.len(),
            rest@ == without(list@.take(i as int), c),
        decreases list.len() - i,
    {
        proof {
            assert(list@.take(i + 1).drop_last() =~= list@.take(i as int));
        }
        if list[i] != c {
            rest.push(list[i]);
        }
        i = i + 1;
    }
    proof {
        assert(list@.take(i as int) =~= text@);
    }
    rest
}

/// The digits of `uuid` as far as they make up the identifier of a subscription.
pub open spec fn short_id_of(uuid: Seq<char>) -> Seq<char> {
    let digits = without(uuid, '-');
    if digits.len() <= SHORT_ID_LEN {
        digits
    } else {
        digits.take(SHORT_ID_LEN as int)
    }
}

/// The identifier of a subscription that is made from `uuid`: its first digits.
pub fn short_id(uuid: &str) -> (id: String)
    ensures
        id@ == short_id_of(uuid@),
{
    let digits: String = remove_char(uuid, '-');
    let list: Vec<char> = chars_of(digits.as_str());
    if list.len() <= SHORT_ID_LEN {
        return digits;
    }
    let id: String = text_of(vstd::slice::slice_subrange(list.as_slice(), 0, SHORT_ID_LEN));
    proof {
        assert(id@ =~= short_id_of(uuid@));
    }
    id
}

/// Whether `s` has the shape of the identifier of a subscription.
pub open spec fn is_short_id(s: Seq<char>) -> bool {
    &&& s.len() == SHORT_ID_LEN
    &&& forall|i: int| 0 <= i < s.len() ==> is_hex_digit(#[trigger] s[i])
}

/// What is made of a UUID has the shape of an identifier.
pub proof fn law_short_ids_are_hexadecimal(uuid: Seq<char>)
    requires
        is_uuid_v4(uuid),
    ensures
        is_short_id(short_id_of(uuid)),
{
    lemma_uuid_digits(uuid);
}

/// A random identifier to try after `taken` others turned out to be in use.
/// After a few of them none is tried any more.
pub fn generate_uuid(taken: u32) -> (r: Result<String, AppError>)
    ensures
        match r {
            Ok(id) => {
                &&& taken < MAX_ID_CANDIDATES
                &&& is_short_id(id@)
                &&& exists|uuid: Seq<char>| #[trigger]
                    is_drawn_uuid(uuid) && id@ == short_id_of(uuid)
            },
            Err(e) => taken >= MAX_ID_CANDIDATES && e == AppError::IdAllocationFailed,
        },
        r is Ok <==> taken < 5,
{
    if taken >= MAX_ID_CANDIDATES {
        return Err(AppError::IdAllocationFailed);
    }
    let uuid: String = random_uuid();
    proof {
        law_short_ids_are_hexadecimal(uuid@);
        lemma_drawn_uuid(uuid);
    }
    Ok(short_id(uuid.as_str()))
}

/// The moment `ttl_days` days before `now`.
pub open spec fn cutoff(now: Timestamp, ttl_days: i64) -> Timestamp {
    Timestamp { secs: (now.secs - ttl_days * DAY_SECS) as i64, nanos: now.nanos }
}

/// Whether the moment `ttl_days` days before `now` can be represented.
pub open spec fn has_cutoff(now: Timestamp, ttl_days: i64) -> bool {
    MIN_UTC_SECS <= now.secs - ttl_days * DAY_SECS <= MAX_UTC_SECS
}

/// The identifiers of the subscriptions that were made before `limit`.
pub open spec fn made_before(entries: Seq<(String, Timestamp)>, limit: Timestamp) -> Seq<
    Seq<char>,
>
    decreases entries.len(),
{
    if entries.len() == 0 {
        Seq::empty()
    } else {
        let rest = made_before(entries.drop_last(), limit);
        if is_before(entries.last().1, limit) {
            rest.push(entries.last().0@)
        } else {
            rest
        }
    }
}

/// The identifiers of the subscriptions that have expired at `now`: those that
/// were made more than `ttl_days` days before.
pub fn expired_at(entries: &[(String, Timestamp)], now: Timestamp, ttl_days: i64) -> (expired: Vec<
    String,
>)
    requires
        is_moment(now),
        has_cutoff(now, ttl_days),
    ensures
        texts(expired@) == made_before(entries@, cutoff(now, ttl_days)),
{
    let limit: Timestamp = days_before(now, ttl_days);
    let mut expired: Vec<String> = Vec::new();
    let mut i: usize = 0;
    proof {
        assert(limit == cutoff(now, ttl_days));
        assert(entries@.take(0) =~= Seq::<(String, Timestamp)>::empty());
        assert(texts(expired@) =~= Seq::<Seq<char>>::empty());
    }
    while i < entries.len()
        invariant
            i <= entries@.len(),
            texts(expired@) == made_before(entries@.take(i as int), limit),
        decreases entries.len() - i,
    {
        let created_at: Timestamp = entries[i].1;
        proof {
            assert(entries@.take(i + 1).drop_last() =~= entries@.take(i as int));
        }
        if before(created_at, limit) {
            let ghost old_expired = expired@;
            expired.push(entries[i].0.clone());
            proof {
                assert(texts(expired@) =~= texts(old_expired).push(
                    entries@[i as int].0@,
                ));
            }
        }
        i = i + 1;
    }
    proof {
        assert(entries@.take(i as int) =~= entries@);
    }
    expired
}

/// The identifiers of the subscriptions that have expired by now, or nothing
/// where the moment that they would have to be made before cannot be represented.
pub fn cleanup_expired(entries: &[(String, Timestamp)], ttl_days: i64) -> (r: Option<Vec<String>>)
    ensures
        match r {
            Some(expired) => exists|now: Timestamp|
                is_moment(now) && now.secs >= 0 && is_clock_reading(now) && #[trigger] has_cutoff(
                    now,
                    ttl_days,
                ) && texts(expired@) == made_before(entries@, cutoff(now, ttl_days)),
            None => exists|now: Timestamp|
                is_moment(now) && now.secs >= 0 && is_clock_reading(now) && !#[trigger] has_cutoff(
                    now,
                    ttl_days,
                ),
        },
        0 <= ttl_days <= -(MIN_UTC_SECS / DAY_SECS) ==> r is Some,
{
    let now: Timestamp = utc_now();
    proof {
        lemma_clock_reading(now);
    }
    let limit: i128 = now.secs as i128 - ttl_days as i128 * DAY_SECS as i128;
    if limit < MIN_UTC_SECS as i128 || limit > MAX_UTC_SECS as i128 {
        proof {
            assert(!has_cutoff(now, ttl_days));
        }
        return None;
    }
    Some(expired_at(entries, now, ttl_days))
}

/// A subscription is removed exactly if it was made before the limit: what is
/// kept was made at the limit or later.
pub proof fn law_expired_iff_made_before(
    entries: Seq<(String, Timestamp)>,
    limit: Timestamp,
    id: Seq<char>,
)
    ensures
        made_before(entries, limit).contains(id) <==> exists|i: int|
            0 <= i < entries.len() && (#[trigger] entries[i]).0@ == id && is_before(
                entries[i].1,
                limit,
            ),
    decreases entries.len(),
{
    if entries.len() > 0 {
        let front = entries.drop_last();
        law_expired_iff_made_before(front, limit, id);
        let rest = made_before(front, limit);
        let last = entries[entries.len() - 1];
        if made_before(entries, limit).contains(id) {
            let k = choose|k: int|
                0 <= k < made_before(entries, limit).len() && made_before(entries, limit)[k] == id;
            if k < rest.len() {
                assert(rest[k] == id);
                assert(rest.contains(id));
                let i = choose|i: int|
                    0 <= i < front.len() && (#[trigger] front[i]).0@ == id && is_before(
                        front[i].1,
                        limit,
                    );
                assert(entries[i] == front[i]);
            } else {
                assert(last.0@ == id);
            }
        }
        if exists|i: int|
            0 <= i < entries.len() && (#[trigger] entries[i]).0@ == id && is_before(
                entries[i].1,
                limit,
            ) {
            let i = choose|i: int|
                0 <= i < entries.len() && (#[trigger] entries[i]).0@ == id && is_before(
                    entries[i].1,
                    limit,
                );
            if i < front.len() {
                assert(front[i] == entries[i]);
                assert(rest.contains(id));
                let k = choose|k: int| 0 <= k < rest.len() && rest[k] == id;
                assert(made_before(entries, limit)[k] == id);
            } else {
                assert(made_before(entries, limit).last() == id);
                assert(made_before(entries, limit)[rest.len() as int] == id);
            }
        }
    }
}

/// Leaving a character out of two texts, one after the other, is leaving it out of
/// each; of a single character it leaves that character or nothing.
pub proof fn law_without(a: Seq<char>, b: Seq<char>, x: char, c: char)
    ensures
        without(a + b, c) == without(a, c) + without(b, c),
        without(seq![x], c) == if x == c {
            Seq::<char>::empty()
        } else {
            seq![x]
        },
        without(Seq::empty(), c) == Seq::<char>::empty(),
{
    lemma_without_concat(a, b, c);
    let one = seq![x];
    assert(one.drop_last() =~= Seq::<char>::empty());
    reveal_with_fuel(without, 2);
    assert(without(one, c) =~= if x == c {
        Seq::<char>::empty()
    } else {
        one
    });
}

/// The identifier that is made of a text is what the text begins with, hyphens
/// left out: twelve characters, or all where there are fewer. Of a UUID it is the
/// first group and the second.
pub proof fn law_short_id(uuid: Seq<char>)
    ensures
        short_id_of(uuid).is_prefix_of(without(uuid, '-')),
        short_id_of(uuid).len() == 12 || (short_id_of(uuid).len() < 12 && short_id_of(uuid)
            == without(uuid, '-')),
        is_uuid_v4(uuid) ==> short_id_of(uuid) == uuid.subrange(0, 8) + uuid.subrange(9, 13),
{
    if is_uuid_v4(uuid) {
        lemma_uuid_digits(uuid);
        assert(short_id_of(uuid) =~= uuid.subrange(0, 8) + uuid.subrange(9, 13));
    }
}

/// What has the shape of an identifier is twelve lower-case hexadecimal digits.
pub proof fn law_shape_of_short_ids(s: Seq<char>)
    ensures
        is_short_id(s) <==> s.len() == 12 && forall|i: int|
            0 <= i < s.len() ==> '0' <= #[trigger] s[i] <= '9' || 'a' <= s[i] <= 'f',
{
}

/// The limit for a time to live of some days lies that many days of 86400 seconds
/// before now, at the same nanosecond. It exists where the first or the last moment
/// of the calendar is not passed.
pub proof fn law_cutoff(now: Timestamp, ttl_days: i64)
    ensures
        has_cutoff(now, ttl_days) <==> -8334601228800 <= now.secs - 86400 * ttl_days
            <= 8210266876799,
        has_cutoff(now, ttl_days) ==> cutoff(now, ttl_days).secs + 86400 * ttl_days == now.secs
            && cutoff(now, ttl_days).nanos == now.nanos,
{
}

/// What was made before a limit in two lists, one after the other, is what was in
/// each; of a single subscription it is that one or nothing.
pub proof fn law_made_before(
    a: Seq<(String, Timestamp)>,
    b: Seq<(String, Timestamp)>,
    one: (String, Timestamp),
    limit: Timestamp,
)
    ensures
        made_before(a + b, limit) == made_before(a, limit) + made_before(b, limit),
        made_before(seq![one], limit) == if one.1.secs < limit.secs || (one.1.secs == limit.secs
            && one.1.nanos < limit.nanos) {
            seq![one.0@]
        } else {
            Seq::<Seq<char>>::empty()
        },
        made_before(Seq::empty(), limit) == Seq::<Seq<char>>::empty(),
    decreases b.len(),
{
    if b.len() == 0 {
        assert(a + b =~= a);
        assert(made_before(a, limit) + made_before(b, limit) =~= made_before(a, limit));
    } else {
        law_made_before(a, b.drop_last(), one, limit);
        assert((a + b).drop_last() =~= a + b.drop_last());
        assert(made_before(a + b, limit) =~= made_before(a, limit) + made_before(b, limit));
    }
    let list = seq![one];
    assert(list.drop_last() =~= Seq::<(String, Timestamp)>::empty());
    reveal_with_fuel(made_before, 2);
    assert(made_before(list, limit) =~= if is_before(one.1, limit) {
        seq![one.0@]
    } else {
        Seq::<Seq<char>>::empty()
    });
}

} // verus!
