//! What the arithmetic of instants and spans promises, in seconds and nanoseconds.

use crate::clock::{span, span_fits, Timestamp};
use vstd::prelude::*;

verus! {

/// Outside leap seconds the time between two instants is the difference of their seconds and of
/// their nanoseconds.
pub proof fn law_time_between(t: Timestamp, u: Timestamp)
    requires
        t.nanos < 1_000_000_000,
        u.nanos < 1_000_000_000,
    ensures
        t.since(u) == (t.secs - u.secs) * 1_000_000_000 + (t.nanos - u.nanos),
{
}

/// The time from one instant to another is the time back, with the other sign. No time passes
/// between an instant and itself.
pub proof fn law_time_runs_both_ways(t: Timestamp, u: Timestamp)
    ensures
        t.since(u) == -u.since(t),
        t.since(t) == 0,
{
}

/// A second has passed from an instant to the same instant a second later, wherever in the day it
/// is, and from within a leap second the leap second counts besides.
pub proof fn law_seconds_pass(t: Timestamp, n: i64)
    requires
        n > 0,
        t.secs + n <= i64::MAX,
        t.secs as int % 86_400 + n < 86_400,
    ensures
        t.nanos < 1_000_000_000 ==> (Timestamp {
            secs: (t.secs + n) as i64,
            nanos: t.nanos,
        }).since(t) == n * 1_000_000_000,
        1_000_000_000 <= t.nanos ==> (Timestamp { secs: (t.secs + n) as i64, nanos: 0 }).since(t)
            == n * 1_000_000_000 + 1_000_000_000 - t.nanos,
{
    assert((t.secs + n) % 86_400 == t.secs as int % 86_400 + n);
}

/// Instants are ordered by their seconds, and those of one second by their nanoseconds.
pub proof fn law_instants_are_ordered(t: Timestamp, u: Timestamp)
    ensures
        t.rank() < u.rank() <==> (t.secs < u.secs || (t.secs == u.secs && t.nanos < u.nanos)),
        t.rank() == u.rank() <==> t == u,
{
}

/// Where a leap second takes no time, an instant within one stands at the second after it.
pub proof fn law_leap_second_takes_no_time(t: Timestamp)
    ensures
        t.nanos < 1_000_000_000 ==> t.settled() == t.secs * 1_000_000_000 + t.nanos,
        t.nanos >= 1_000_000_000 ==> t.settled() == (t.secs + 1) * 1_000_000_000,
{
}

/// The calendar goes from the year -262143 to the year 262142, and names leap seconds at the end
/// of a minute alone.
pub proof fn law_calendar(t: Timestamp)
    ensures
        t.on_calendar() ==> -8_334_601_228_800 <= t.secs <= 8_210_266_876_799,
        t.on_calendar() ==> t.nanos < 2_000_000_000,
        t.on_calendar() && t.nanos >= 1_000_000_000 ==> t.secs as int % 60 == 59,
        -8_334_601_228_800 <= t.secs <= 8_210_266_876_799 && t.nanos < 1_000_000_000
            ==> t.on_calendar(),
        -8_334_601_228_800 <= t.secs <= 8_210_266_876_799 && t.nanos < 2_000_000_000
            && t.secs as int % 60 == 59 ==> t.on_calendar(),
{
}

/// A configured number of seconds is a span of as many seconds. Numbers of 63 bits that
/// milliseconds can hold fit; a number of 64 bits counts below zero.
pub proof fn law_spans(secs: u64)
    ensures
        secs <= 9_223_372_036_854_775 ==> span_fits(secs) && span(secs) == secs * 1_000_000_000,
        9_223_372_036_854_775 < secs < 0x8000_0000_0000_0000 ==> !span_fits(secs),
        secs >= 0x8000_0000_0000_0000 ==> span(secs) == (secs - 0x1_0000_0000_0000_0000)
            * 1_000_000_000 && span(secs) < 0,
        secs >= 0x8000_0000_0000_0000 ==> (span_fits(secs) <==> 0x1_0000_0000_0000_0000 - secs
            <= 9_223_372_036_854_775),
{
}

}
