//! Moments in time, and the clock.
use vstd::prelude::*;

use crate::models::Timestamp;
use crate::outside::{is_clock_reading, is_moment, lemma_clock_reading, utc_now, MAX_UTC_SECS};

verus! {

/// Whether `a` comes before `b`.
pub open spec fn is_before(a: Timestamp, b: Timestamp) -> bool {
    a.secs < b.secs || (a.secs == b.secs && a.nanos < b.nanos)
}

/// Whether `a` comes before `b`.
pub fn before(a: Timestamp, b: Timestamp) -> (yes: bool)
    ensures
        yes == is_before(a, b),
{
    a.secs < b.secs || (a.secs == b.secs && a.nanos < b.nanos)
}

/// The milliseconds from the Unix epoch to `t`, begun ones not counted.
pub open spec fn millis_of(t: Timestamp) -> int {
    t.secs * 1000 + t.nanos as int / 1_000_000
}

/// The milliseconds from the Unix epoch to `t`, begun ones not counted.
pub fn timestamp_millis(t: Timestamp) -> (ms: i64)
    requires
        is_moment(t),
    ensures
        ms == millis_of(t),
{
    t.secs * 1000 + (t.nanos / 1_000_000) as i64
}

/// A time that the clock can show.
pub open spec fn is_clock_ms(ms: int) -> bool {
    0 <= ms < (MAX_UTC_SECS + 1) * 1000
}

/// Whether `ms` is a time that was read off the clock, in milliseconds since the
/// Unix epoch.
pub open spec fn is_read_ms(ms: int) -> bool {
    exists|t: Timestamp| is_moment(t) && #[trigger] is_clock_reading(t) && ms == millis_of(t)
}

/// The time of the clock, in milliseconds since the Unix epoch.
pub fn now_ms() -> (ms: i64)
    ensures
        is_clock_ms(ms as int),
        is_read_ms(ms as int),
{
    let now: Timestamp = utc_now();
    proof {
        lemma_clock_reading(now);
    }
    timestamp_millis(now)
}

/// Of two moments the earlier one has no more milliseconds.
pub proof fn law_millis_keep_order(a: Timestamp, b: Timestamp)
    requires
        is_moment(a),
        is_moment(b),
        !is_before(b, a),
    ensures
        millis_of(a) <= millis_of(b),
{
}

/// The milliseconds to a moment are the whole ones among its nanoseconds.
pub proof fn law_millis_are_whole(t: Timestamp)
    ensures
        millis_of(t) * 1_000_000 <= t.secs * 1_000_000_000 + t.nanos < (millis_of(t) + 1)
            * 1_000_000,
{
}

/// Outside of leap seconds a moment comes before another exactly if it has fewer
/// nanoseconds. A leap second comes after the second that it belongs to and before
/// the next one.
pub proof fn law_order_of_moments(a: Timestamp, b: Timestamp)
    ensures
        a.nanos < 1_000_000_000 && b.nanos < 1_000_000_000 ==> (is_before(a, b) <==> a.secs
            * 1_000_000_000 + a.nanos < b.secs * 1_000_000_000 + b.nanos),
        a.secs != b.secs ==> (is_before(a, b) <==> a.secs < b.secs),
        a.secs == b.secs ==> (is_before(a, b) <==> a.nanos < b.nanos),
{
}

/// A time that was read off the clock is that of a moment on the clock, begun
/// milliseconds not counted.
pub proof fn law_clock_readings(ms: int)
    requires
        is_read_ms(ms),
    ensures
        is_clock_ms(ms),
        exists|t: Timestamp|
            #[trigger] is_clock_reading(t) && 1_000_000 * ms <= 1_000_000_000 * t.secs + t.nanos
                < 1_000_000 * (ms + 1),
{
    let t = choose|t: Timestamp|
        is_moment(t) && #[trigger] is_clock_reading(t) && ms == millis_of(t);
    lemma_clock_reading(t);
}

} // verus!
