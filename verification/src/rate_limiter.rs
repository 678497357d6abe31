//! A limit on the number of requests per key and minute.
//!
//! Time is counted in nanoseconds from any fixed start. A window begins with the
//! first request after the previous window is over.
use vstd::hash_map::StringHashMap;
use vstd::prelude::*;
use vstd::string::*;

verus! {

/// How long a window lasts, in nanoseconds.
pub const WINDOW_NS: u64 = 60_000_000_000;

/// The window of one key: when it began and how many requests it has let
/// through.
#[derive(Clone, Copy, Debug, PartialEq, Eq, Structural)]
pub struct RateEntry {
    pub window_start: u64,
    pub count: u32,
}

/// Lets through a number of requests per key and minute. Zero stands for no
/// limit.
pub struct RateLimiter {
    limit_per_minute: u32,
    entries: StringHashMap<RateEntry>,
}

/// The window that a request at `now` falls into: the one that is open, or else
/// a new one.
pub open spec fn window_at(
    entries: Map<Seq<char>, RateEntry>,
    key: Seq<char>,
    now: u64,
) -> RateEntry {
    if entries.contains_key(key) && now - entries[key].window_start < WINDOW_NS {
        entries[key]
    } else {
        RateEntry { window_start: now, count: 0 }
    }
}

/// Whether a request for `key` at `now` is let through.
pub open spec fn lets_through(
    limit: u32,
    entries: Map<Seq<char>, RateEntry>,
    key: Seq<char>,
    now: u64,
) -> bool {
    limit == 0 || window_at(entries, key, now).count < limit
}

/// The windows after a request for `key` at `now`.
pub open spec fn after_request(
    limit: u32,
    entries: Map<Seq<char>, RateEntry>,
    key: Seq<char>,
    now: u64,
) -> Map<Seq<char>, RateEntry> {
    if limit == 0 {
        entries
    } else {
        let window = window_at(entries, key, now);
        if lets_through(limit, entries, key, now) {
            entries.insert(key, RateEntry { count: (window.count + 1) as u32, ..window })
        } else {
            entries.insert(key, window)
        }
    }
}

impl RateLimiter {
    /// The number of requests per key and minute, or zero.
    pub closed spec fn limit(&self) -> u32 {
        self.limit_per_minute
    }

    /// The window of each key that there was a request for.
    pub closed spec fn entries(&self) -> Map<Seq<char>, RateEntry> {
        self.entries@
    }

    /// A limiter before any request.
    pub fn new(limit_per_minute: u32) -> (limiter: Self)
        ensures
            limiter.limit() == limit_per_minute,
            limiter.entries() == Map::<Seq<char>, RateEntry>::empty(),
    {
        RateLimiter { limit_per_minute, entries: StringHashMap::new() }
    }

    /// Whether a request for `key` at `now` is let through. It counts if it is.
    pub fn allow(&mut self, key: &str, now: u64) -> (allowed: bool)
        ensures
            allowed == lets_through(old(self).limit(), old(self).entries(), key@, now),
            final(self).limit() == old(self).limit(),
            final(self).entries() == after_request(
                old(self).limit(),
                old(self).entries(),
                key@,
                now,
            ),
    {
        if self.limit_per_minute == 0 {
            return true;
        }
        let open_window: Option<RateEntry> = match self.entries.get(key) {
            Some(entry) => Some(*entry),
            None => None,
        };
        let mut entry: RateEntry = match open_window {
            Some(entry) => entry,
            None => RateEntry { window_start: now, count: 0 },
        };
        if now.saturating_sub(entry.window_start) >= WINDOW_NS {
            entry = RateEntry { window_start: now, count: 0 };
        }
        let allowed: bool = entry.count < self.limit_per_minute;
        if allowed {
            entry.count = entry.count + 1;
        }
        self.entries.insert(key.to_owned(), entry);
        allowed
    }
}

/// A request for one key changes nothing for any other.
pub proof fn law_keys_are_independent(
    limit: u32,
    entries: Map<Seq<char>, RateEntry>,
    key: Seq<char>,
    now: u64,
    other: Seq<char>,
    later: u64,
)
    requires
        key != other,
    ensures
        lets_through(limit, after_request(limit, entries, key, now), other, later)
            == lets_through(limit, entries, other, later),
        window_at(after_request(limit, entries, key, now), other, later) == window_at(
            entries,
            other,
            later,
        ),
{
}

/// Without a limit every request is let through, and nothing is kept.
pub proof fn law_zero_is_no_limit(
    entries: Map<Seq<char>, RateEntry>,
    key: Seq<char>,
    now: u64,
)
    ensures
        lets_through(0, entries, key, now),
        after_request(0, entries, key, now) == entries,
{
}

/// A minute after a window began, requests are let through again, in a new
/// window.
pub proof fn law_window_ends(
    limit: u32,
    entries: Map<Seq<char>, RateEntry>,
    key: Seq<char>,
    now: u64,
)
    requires
        limit > 0,
        entries.contains_key(key) ==> now >= entries[key].window_start + WINDOW_NS,
    ensures
        lets_through(limit, entries, key, now),
        after_request(limit, entries, key, now)[key] == (RateEntry { window_start: now, count: 1 }),
{
}

/// A request: its key and its time.
pub ghost struct RateRequest {
    pub key: Seq<char>,
    pub time: u64,
}

/// The windows after some requests.
pub open spec fn after_requests(
    limit: u32,
    entries: Map<Seq<char>, RateEntry>,
    requests: Seq<RateRequest>,
) -> Map<Seq<char>, RateEntry>
    decreases requests.len(),
{
    if requests.len() == 0 {
        entries
    } else {
        let last = requests.last();
        after_request(
            limit,
            after_requests(limit, entries, requests.drop_last()),
            last.key,
            last.time,
        )
    }
}

/// How many of some requests are for `key`.
pub open spec fn count_for(key: Seq<char>, requests: Seq<RateRequest>) -> nat
    decreases requests.len(),
{
    if requests.len() == 0 {
        0
    } else {
        count_for(key, requests.drop_last()) + if requests.last().key == key {
            1nat
        } else {
            0nat
        }
    }
}

/// How many of some requests for `key` are let through.
pub open spec fn let_through_for(
    limit: u32,
    entries: Map<Seq<char>, RateEntry>,
    key: Seq<char>,
    requests: Seq<RateRequest>,
) -> nat
    decreases requests.len(),
{
    if requests.len() == 0 {
        0
    } else {
        let before = after_requests(limit, entries, requests.drop_last());
        let last = requests.last();
        let_through_for(limit, entries, key, requests.drop_last()) + if last.key == key
            && lets_through(limit, before, key, last.time) {
            1nat
        } else {
            0nat
        }
    }
}

/// Within a window, whatever is asked for other keys, requests for a key are let
/// through until the limit is reached, and no longer.
pub proof fn law_limit_per_window(
    limit: u32,
    entries: Map<Seq<char>, RateEntry>,
    key: Seq<char>,
    requests: Seq<RateRequest>,
)
    requires
        limit > 0,
        entries.contains_key(key),
        entries[key].count <= limit,
        forall|i: int|
            0 <= i < requests.len() && (#[trigger] requests[i]).key == key ==> requests[i].time
                < entries[key].window_start + WINDOW_NS,
    ensures
        let_through_for(limit, entries, key, requests) == if count_for(key, requests) <= limit
            - entries[key].count {
            count_for(key, requests) as int
        } else {
            limit - entries[key].count
        },
        after_requests(limit, entries, requests).contains_key(key),
        after_requests(limit, entries, requests)[key].window_start == entries[key].window_start,
        after_requests(limit, entries, requests)[key].count == entries[key].count
            + let_through_for(limit, entries, key, requests),
    decreases requests.len(),
{
    if requests.len() > 0 {
        let before = requests.drop_last();
        assert forall|i: int|
            0 <= i < before.len() && (#[trigger] before[i]).key == key implies before[i].time
            < entries[key].window_start + WINDOW_NS by {
            assert(before[i] == requests[i]);
        }
        law_limit_per_window(limit, entries, key, before);
        assert(requests.last() == requests[requests.len() - 1]);
    }
}

proof fn lemma_at_most_one_new_window(
    limit: u32,
    entries: Map<Seq<char>, RateEntry>,
    key: Seq<char>,
    requests: Seq<RateRequest>,
    start: u64,
)
    requires
        limit > 0,
        entries.contains_key(key) ==> entries[key].count <= limit,
        forall|i: int|
            0 <= i < requests.len() && (#[trigger] requests[i]).key == key ==> start
                <= requests[i].time < start + WINDOW_NS,
    ensures
        ({
            let after = after_requests(limit, entries, requests);
            let n = let_through_for(limit, entries, key, requests);
            ||| !after.contains_key(key) && n == 0
            ||| after.contains_key(key) && after[key].count <= limit && n <= after[key].count
            ||| after.contains_key(key) && after[key].count <= limit && after[key].window_start
                >= start && n <= limit + after[key].count
        }),
    decreases requests.len(),
{
    if requests.len() > 0 {
        let before = requests.drop_last();
        assert forall|i: int|
            0 <= i < before.len() && (#[trigger] before[i]).key == key implies start
            <= before[i].time < start + WINDOW_NS by {
            assert(before[i] == requests[i]);
        }
        lemma_at_most_one_new_window(limit, entries, key, before, start);
        assert(requests.last() == requests[requests.len() - 1]);
    }
}

/// In any span of a minute, whenever it begins, at most twice the limit is let
/// through for a key: the rest of one window and a new one.
pub proof fn law_twice_the_limit_per_minute(
    limit: u32,
    entries: Map<Seq<char>, RateEntry>,
    key: Seq<char>,
    requests: Seq<RateRequest>,
    start: u64,
)
    requires
        limit > 0,
        entries.contains_key(key) ==> entries[key].count <= limit,
        forall|i: int|
            0 <= i < requests.len() && (#[trigger] requests[i]).key == key ==> start
                <= requests[i].time < start + WINDOW_NS,
    ensures
        let_through_for(limit, entries, key, requests) <= 2 * limit,
{
    lemma_at_most_one_new_window(limit, entries, key, requests, start);
}

/// No window ever lets through more than the limit.
pub proof fn law_counts_stay_within_limit(
    limit: u32,
    entries: Map<Seq<char>, RateEntry>,
    key: Seq<char>,
    now: u64,
)
    requires
        limit > 0,
        forall|k: Seq<char>| #[trigger] entries.contains_key(k) ==> entries[k].count <= limit,
    ensures
        forall|k: Seq<char>| #[trigger]
            after_request(limit, entries, key, now).contains_key(k) ==> after_request(
                limit,
                entries,
                key,
                now,
            )[k].count <= limit,
{
}

/// A request is let through exactly if there is no limit, if the key had no request
/// yet, if its window began a minute ago or earlier, or if fewer requests than the
/// limit were let through since.
pub proof fn law_who_is_let_through(
    limit: u32,
    entries: Map<Seq<char>, RateEntry>,
    key: Seq<char>,
    now: u64,
)
    ensures
        lets_through(limit, entries, key, now) <==> {
            ||| limit == 0
            ||| !entries.contains_key(key)
            ||| entries[key].window_start + 60_000_000_000 <= now
            ||| entries[key].count < limit
        },
{
}

/// With a limit, a request that is let through counts as one, and one that is not
/// does not count. A window goes on for a minute from its first request.
pub proof fn law_requests_count(
    limit: u32,
    entries: Map<Seq<char>, RateEntry>,
    key: Seq<char>,
    now: u64,
)
    requires
        limit > 0,
    ensures
        ({
            let after = after_request(limit, entries, key, now);
            let is_open = entries.contains_key(key) && now < entries[key].window_start
                + 60_000_000_000;
            &&& after.dom() == entries.dom().insert(key)
            &&& is_open && entries[key].count < limit ==> after[key].count == entries[key].count + 1
            &&& is_open && entries[key].count >= limit ==> after[key].count == entries[key].count
            &&& is_open ==> after[key].window_start == entries[key].window_start
            &&& !is_open ==> after[key].count == 1 && after[key].window_start == now
            &&& forall|k: Seq<char>| k != key && entries.contains_key(k) ==> after[k]
                == #[trigger] entries[k]
        }),
{
}

/// Of the requests for a key that had none before, all within a minute from the
/// first, as many as the limit are let through, or all where they are fewer.
pub proof fn law_first_window(
    limit: u32,
    key: Seq<char>,
    first: RateRequest,
    requests: Seq<RateRequest>,
)
    requires
        limit > 0,
        first.key == key,
        forall|i: int|
            0 <= i < requests.len() && (#[trigger] requests[i]).key == key ==> requests[i].time
                < first.time + 60_000_000_000,
    ensures
        ({
            let none = Map::<Seq<char>, RateEntry>::empty();
            let after = after_request(limit, none, key, first.time);
            let n = let_through_for(limit, after, key, requests);
            &&& lets_through(limit, none, key, first.time)
            &&& count_for(key, requests) < limit ==> n == count_for(key, requests)
            &&& count_for(key, requests) >= limit ==> n == limit - 1
        }),
{
    let none = Map::<Seq<char>, RateEntry>::empty();
    law_limit_per_window(limit, after_request(limit, none, key, first.time), key, requests);
}

} // verus!
