//! Instants in UTC and spans of whole seconds.

use vstd::prelude::*;

verus! {

/// An instant: `secs` seconds and `nanos` nanoseconds after 1970-01-01T00:00:00Z.
#[derive(Debug, Clone, Copy, PartialEq, Eq, Structural)]
pub struct Timestamp {
    pub secs: i64,
    pub nanos: u32,
}

/// The nanoseconds of one second.
pub const SECOND: i128 = 1_000_000_000;

/// The seconds of one day.
pub const DAY_SECS: i64 = 86_400;

/// The nanoseconds of one hour.
pub const HOUR: i128 = 3_600_000_000_000;

/// The most seconds that a span can hold, in either direction.
pub const SPAN_MAX_SECS: i64 = 9_223_372_036_854_775;

/// The first second that the calendar can hold.
pub const CALENDAR_MIN_SECS: i64 = -8_334_601_228_800;

/// The last second that the calendar can hold.
pub const CALENDAR_MAX_SECS: i64 = 8_210_266_876_799;

impl Timestamp {
    /// The nanoseconds since 1970-01-01T00:00:00Z.
    pub open spec fn at(self) -> int {
        self.secs * SECOND + self.nanos
    }

    /// Whether the calendar can name this instant. In the last second of a minute there may be
    /// as many nanoseconds again, for a leap second.
    pub open spec fn on_calendar(self) -> bool {
        &&& CALENDAR_MIN_SECS <= self.secs <= CALENDAR_MAX_SECS
        &&& self.nanos < SECOND || (self.nanos < 2 * SECOND && self.secs as int % 60 == 59)
    }

    /// Whether the instant lies in a leap second.
    pub open spec fn leaps(self) -> bool {
        self.nanos >= SECOND
    }

    /// The second of the day.
    pub open spec fn day_second(self) -> int {
        self.secs as int % DAY_SECS as int
    }

    /// The nanoseconds from `other` to this instant. A leap second counts where one of the two
    /// lies in it and the other comes after it in the day.
    pub open spec fn since(self, other: Timestamp) -> int {
        let leap: int = if self.day_second() > other.day_second() && other.leaps() {
            SECOND as int
        } else if self.day_second() < other.day_second() && self.leaps() {
            -SECOND
        } else {
            0
        };
        self.at() - other.at() + leap
    }

    /// The nanoseconds since 1970-01-01T00:00:00Z, where a leap second takes no time.
    pub open spec fn settled(self) -> int {
        self.secs * SECOND + if self.leaps() {
            SECOND as int
        } else {
            self.nanos as int
        }
    }

    /// Where the instant stands among others: by its seconds, then by its nanoseconds.
    pub open spec fn rank(self) -> int {
        self.secs * 0x1_0000_0000 + self.nanos
    }

    /// Where the instant stands among others.
    pub fn ranked(&self) -> (r: i128)
        ensures
            r == self.rank(),
    {
        self.secs as i128 * 0x1_0000_0000 + self.nanos as i128
    }

    /// The nanoseconds since 1970-01-01T00:00:00Z.
    pub fn total_nanos(&self) -> (r: i128)
        ensures
            r == self.at(),
    {
        self.secs as i128 * SECOND + self.nanos as i128
    }

    /// Whether the calendar can name this instant.
    pub fn is_on_calendar(&self) -> (r: bool)
        ensures
            r == self.on_calendar(),
    {
        CALENDAR_MIN_SECS <= self.secs && self.secs <= CALENDAR_MAX_SECS && (self.nanos
            < 1_000_000_000 || (self.nanos < 2_000_000_000 && remainder(self.secs, 60) == 59))
    }

    /// The nanoseconds since 1970-01-01T00:00:00Z, where a leap second takes no time.
    pub fn settled_nanos(&self) -> (r: i128)
        ensures
            r == self.settled(),
    {
        let nanos: u32 = if self.nanos >= 1_000_000_000 {
            1_000_000_000
        } else {
            self.nanos
        };
        self.secs as i128 * SECOND + nanos as i128
    }

    /// The nanoseconds from `other` to this instant.
    pub fn nanos_since(&self, other: &Timestamp) -> (r: i128)
        ensures
            r == self.since(*other),
    {
        let here: i64 = remainder(self.secs, DAY_SECS);
        let there: i64 = remainder(other.secs, DAY_SECS);
        let leap: i128 = if here > there && other.nanos >= 1_000_000_000 {
            SECOND
        } else if here < there && self.nanos >= 1_000_000_000 {
            -SECOND
        } else {
            0
        };
        self.total_nanos() - other.total_nanos() + leap
    }
}

/// Between instants outside leap seconds the time is the difference of their nanoseconds.
pub proof fn law_time_adds_up(t: Timestamp, other: Timestamp)
    requires
        !t.leaps(),
        !other.leaps(),
    ensures
        t.since(other) == t.at() - other.at(),
        t.settled() == t.at(),
        t.rank() < other.rank() <==> t.at() < other.at(),
{
}

/// What is left of `n` when it is divided by `d`, counted up from the multiple below it.
fn remainder(n: i64, d: i64) -> (r: i64)
    requires
        d > 0,
    ensures
        r == n as int % d as int,
{
    match n.checked_rem_euclid(d) {
        Some(r) => r,
        None => 0,
    }
}

/// The form of the time in an identifier.
pub const ID_FORMAT: &'static str = "%Y%m%dT%H%M%S";

/// The form of the time in a list.
pub const LIST_FORMAT: &'static str = "%Y-%m-%d %H:%M:%S";

/// `DateTime::<Utc>::format`: the instant `secs` seconds and `nanos` nanoseconds after
/// 1970-01-01T00:00:00Z, written in the form that `format` describes.
pub uninterp spec fn utc_text(secs: int, nanos: int, format: Seq<char>) -> Seq<char>;

/// `DateTime::from_timestamp` and `DateTime::format`: what is written depends on the instant and
/// the form alone. The calendar holds every instant that is admitted.
#[verifier::external_body]
pub(crate) fn format_utc(t: Timestamp, format: &str) -> (r: String)
    requires
        t.on_calendar(),
        format@ == ID_FORMAT@ || format@ == LIST_FORMAT@,
    ensures
        r@ == utc_text(t.secs as int, t.nanos as int, format@),
{
    chrono::DateTime::from_timestamp(t.secs, t.nanos).unwrap().format(format).to_string()
}

/// `Utc::now`: the calendar can name the instant that comes back. Nothing is said of which
/// instant it is. On a machine whose clock stands before 1970 the call does not return.
#[verifier::external_body]
pub(crate) fn utc_now() -> (r: Timestamp)
    ensures
        r.on_calendar(),
{
    let now = chrono::Utc::now();
    Timestamp { secs: now.timestamp(), nanos: now.timestamp_subsec_nanos() }
}

/// The seconds that a configured number stands for: its 64 bits read as a signed number.
pub open spec fn whole_seconds(secs: u64) -> int {
    if secs <= i64::MAX {
        secs as int
    } else {
        secs - 0x1_0000_0000_0000_0000
    }
}

/// Whether a span can hold the configured number of seconds.
pub open spec fn span_fits(secs: u64) -> bool {
    -SPAN_MAX_SECS <= whole_seconds(secs) <= SPAN_MAX_SECS
}

/// The configured number of seconds as a span in nanoseconds.
pub open spec fn span(secs: u64) -> int {
    whole_seconds(secs) * SECOND
}

/// Whether a span can hold the configured number of seconds.
pub fn is_span(secs: u64) -> (r: bool)
    ensures
        r == span_fits(secs),
{
    secs <= SPAN_MAX_SECS as u64 || secs >= 0xffff_ffff_ffff_ffff - SPAN_MAX_SECS as u64 + 1
}

/// The configured number of seconds as a span in nanoseconds.
pub fn span_nanos(secs: u64) -> (r: i128)
    requires
        span_fits(secs),
    ensures
        r == span(secs),
{
    if secs <= i64::MAX as u64 {
        secs as i128 * SECOND
    } else {
        (secs as i128 - 0x1_0000_0000_0000_0000) * SECOND
    }
}

}
