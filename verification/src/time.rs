//! Instants and spans of time as plain numbers.

use vstd::prelude::*;

verus! {

/// The second of the earliest instant that has a date.
pub const MIN_SECONDS: i64 = -8_334_601_228_800;

/// The second of the latest instant that has a date.
pub const MAX_SECONDS: i64 = 8_210_266_876_799;

/// The earliest instant that has a date, in milliseconds.
pub const MIN_MILLIS: i64 = -8_334_601_228_800_000;

/// The latest instant that has a date, in whole milliseconds.
pub const MAX_MILLIS: i64 = 8_210_266_876_799_999;

/// The first second of the year 0.
pub const YEAR_0_SECONDS: i64 = -62_167_219_200;

/// The last second of the year 9999.
pub const YEAR_9999_SECONDS: i64 = 253_402_300_799;

pub const NANOS_PER_SECOND: u32 = 1_000_000_000;

/// An instant in UTC: whole seconds since the Unix epoch, and the nanoseconds
/// since the start of that second. Within a leap second the nanoseconds go on
/// counting beyond one billion.
#[derive(Clone, Copy, Debug, PartialEq, Eq, PartialOrd, Ord, Structural)]
pub struct Timestamp {
    pub seconds: i64,
    pub nanos: u32,
}

/// A span of time that is not negative.
#[derive(Clone, Copy, Debug, PartialEq, Eq, PartialOrd, Ord, Structural)]
pub struct Duration {
    pub seconds: u64,
    pub nanos: u32,
}

// ---------------------------------------------------------------------------
// Instants
// ---------------------------------------------------------------------------

impl Timestamp {
    /// The instant has a date.
    pub open spec fn wf(self) -> bool {
        &&& MIN_SECONDS <= self.seconds <= MAX_SECONDS
        &&& self.nanos < NANOS_PER_SECOND || (self.nanos < 2 * NANOS_PER_SECOND && self.seconds % 60
            == 59)
    }

    /// `self` is not later than `other`.
    pub open spec fn no_later_than(self, other: Timestamp) -> bool {
        self.seconds < other.seconds || (self.seconds == other.seconds && self.nanos
            <= other.nanos)
    }

    /// Whole milliseconds since the Unix epoch.
    pub open spec fn in_millis(self) -> int {
        self.seconds * 1000 + self.nanos as int / 1_000_000
    }

    pub fn at_most(&self, other: &Timestamp) -> (r: bool)
        ensures
            r == self.no_later_than(*other),
    {
        self.seconds < other.seconds || (self.seconds == other.seconds && self.nanos
            <= other.nanos)
    }

    pub fn is_wf(&self) -> (r: bool)
        ensures
            r == self.wf(),
    {
        MIN_SECONDS <= self.seconds && self.seconds <= MAX_SECONDS && (self.nanos
            < NANOS_PER_SECOND || (self.nanos < 2 * NANOS_PER_SECOND && ends_minute(self.seconds)))
    }

    pub fn millis(&self) -> (r: i64)
        requires
            self.wf(),
        ensures
            r == self.in_millis(),
            MIN_MILLIS <= r <= MAX_MILLIS + 1000,
    {
        self.seconds * 1000 + (self.nanos / 1_000_000) as i64
    }

    /// The milliseconds of an instant that may have no date.
    pub fn wide_millis(&self) -> (r: i128)
        ensures
            r == self.in_millis(),
    {
        self.seconds as i128 * 1000 + (self.nanos / 1_000_000) as i128
    }

    /// The later of two optional instants; an absent one is earlier than any.
    pub open spec fn later(a: Option<Timestamp>, b: Option<Timestamp>) -> Option<Timestamp> {
        match (a, b) {
            (Some(x), Some(y)) => if x.no_later_than(y) {
                Some(y)
            } else {
                Some(x)
            },
            (Some(x), None) => Some(x),
            (None, y) => y,
        }
    }

    pub fn max_of(a: Option<Timestamp>, b: Option<Timestamp>) -> (r: Option<Timestamp>)
        ensures
            r == Timestamp::later(a, b),
    {
        match (a, b) {
            (Some(x), Some(y)) => if x.at_most(&y) {
                Some(y)
            } else {
                Some(x)
            },
            (Some(x), None) => Some(x),
            (None, y) => y,
        }
    }
}

fn ends_minute(seconds: i64) -> (r: bool)
    ensures
        r == (seconds % 60 == 59),
{
    let shifted: i128 = seconds as i128 + 60 * 200_000_000_000_000_000;
    assert(shifted % 60 == seconds as int % 60) by (nonlinear_arith)
        requires
            shifted == seconds as int + 60 * 200_000_000_000_000_000,
    ;
    (shifted as u128) % 60 == 59
}

/// What chrono reads from a text as an instant.
pub uninterp spec fn instant_of(text: Seq<char>) -> Option<(i64, u32)>;

/// `str::parse` with chrono's `FromStr` for `DateTime<Utc>`, a relaxed form of
/// RFC 3339. The result is named, not described: the second and the
/// nanoseconds of the instant, or nothing where chrono refuses the text.
#[verifier::external_body]
fn chrono_parse(text: &str) -> (r: Option<(i64, u32)>)
    ensures
        r == instant_of(text@),
{
    let parsed = text.parse::<chrono::DateTime<chrono::Utc>>().ok();
    parsed.map(|t| (t.timestamp(), t.timestamp_subsec_nanos()))
}

/// What chrono prints of an instant, where the instant has a date.
pub uninterp spec fn rfc3339_of(seconds: i64, nanos: u32) -> Option<Seq<char>>;

/// chrono's `DateTime::from_timestamp` and `DateTime::to_rfc3339`. The text is
/// named, not described; there is one for every instant that has a date. In
/// the years that RFC 3339 can write, outside leap seconds, the text reads
/// back as the same instant: chrono writes as many digits of the fraction as
/// it has.
#[verifier::external_body]
fn chrono_to_rfc3339(seconds: i64, nanos: u32) -> (r: Option<String>)
    ensures
        crate::text::opt_text(r) == rfc3339_of(seconds, nanos),
        (Timestamp { seconds, nanos }).wf() ==> r is Some,
        r is Some && YEAR_0_SECONDS <= seconds <= YEAR_9999_SECONDS && nanos < NANOS_PER_SECOND
            ==> instant_of(r->0@) == Some((seconds, nanos)),
{
    chrono::DateTime::from_timestamp(seconds, nanos).map(|t| t.to_rfc3339())
}

/// chrono's `DateTime::from_timestamp_millis`: the instant for a number of
/// milliseconds since the epoch, where that instant has a date.
#[verifier::external_body]
fn chrono_from_millis(millis: i64) -> (r: Option<(i64, u32)>)
    ensures
        r == if MIN_MILLIS <= millis <= MAX_MILLIS {
            Some(((millis as int / 1000) as i64, (millis as int % 1000 * 1_000_000) as u32))
        } else {
            None
        },
{
    let instant = chrono::DateTime::from_timestamp_millis(millis);
    instant.map(|t| (t.timestamp(), t.timestamp_subsec_nanos()))
}

/// What chrono displays of the instant with so many milliseconds since the
/// epoch, where that instant has a date.
pub uninterp spec fn date_text(millis: i64) -> Option<Seq<char>>;

/// chrono's `DateTime::from_timestamp_millis`, and `Display` of the instant in
/// UTC. The text is named, not described; there is one for every instant that
/// has a date.
#[verifier::external_body]
fn chrono_display(millis: i64) -> (r: Option<String>)
    ensures
        crate::text::opt_text(r) == date_text(millis),
        r is Some <==> MIN_MILLIS <= millis <= MAX_MILLIS,
{
    chrono::DateTime::from_timestamp_millis(millis).map(|t| t.to_string())
}

/// The instant with so many milliseconds since the epoch, as people read it.
pub fn show_millis(millis: i64) -> (r: Option<String>)
    ensures
        crate::text::opt_text(r) == date_text(millis),
        r is Some <==> has_date(millis as int),
{
    chrono_display(millis)
}

/// chrono's `DateTime::checked_sub_signed` with a number of whole seconds. From
/// within a leap second the count starts at the second behind it. There is no
/// result where the date would be out of range.
#[verifier::external_body]
fn chrono_checked_sub(seconds: i64, nanos: u32, delta: i64) -> (r: Option<(i64, u32)>)
    requires
        (Timestamp { seconds, nanos }).wf(),
        0 < delta <= 1_000_000_000,
    ensures
        r == seconds_before(Timestamp { seconds, nanos }, delta as int),
{
    let instant = chrono::DateTime::from_timestamp(seconds, nanos);
    let moved = instant.and_then(|t| t.checked_sub_signed(chrono::TimeDelta::seconds(delta)));
    moved.map(|t| (t.timestamp(), t.timestamp_subsec_nanos()))
}

/// The instant `delta` seconds before `t`, where it has a date.
pub open spec fn seconds_before(t: Timestamp, delta: int) -> Option<(i64, u32)> {
    let second = if t.nanos < NANOS_PER_SECOND {
        t.seconds - delta
    } else {
        t.seconds + 1 - delta
    };
    if second < MIN_SECONDS {
        None
    } else {
        Some((second as i64, (t.nanos as int % NANOS_PER_SECOND as int) as u32))
    }
}

impl Timestamp {
    /// What an optional pair of seconds and nanoseconds stands for.
    pub open spec fn of(pair: Option<(i64, u32)>) -> Option<Timestamp> {
        match pair {
            Some((seconds, nanos)) => Some(Timestamp { seconds, nanos }),
            None => None,
        }
    }

    /// Reads a text in a relaxed form of RFC 3339.
    pub fn parse(text: &str) -> (r: Option<Timestamp>)
        ensures
            r == Timestamp::of(instant_of(text@)),
    {
        match chrono_parse(text) {
            Some((seconds, nanos)) => Some(Timestamp { seconds, nanos }),
            None => None,
        }
    }

    /// Writes the instant in the form of RFC 3339. There is no text for an
    /// instant without a date.
    pub fn to_rfc3339(&self) -> (r: Option<String>)
        ensures
            crate::text::opt_text(r) == rfc3339_of(self.seconds, self.nanos),
            self.wf() ==> r is Some,
            r is Some && YEAR_0_SECONDS <= self.seconds <= YEAR_9999_SECONDS && self.nanos
                < NANOS_PER_SECOND ==> instant_of(r->0@) == Some((self.seconds, self.nanos)),
    {
        chrono_to_rfc3339(self.seconds, self.nanos)
    }

    /// The instant for a number of milliseconds since the epoch.
    pub fn from_millis(millis: i64) -> (r: Option<Timestamp>)
        ensures
            r is Some <==> MIN_MILLIS <= millis <= MAX_MILLIS,
            r matches Some(t) ==> t.wf() && t.in_millis() == millis && t.nanos % 1_000_000 == 0,
    {
        match chrono_from_millis(millis) {
            Some((seconds, nanos)) => Some(Timestamp { seconds, nanos }),
            None => None,
        }
    }

    /// The instant `delta` seconds earlier, or the earliest instant of all.
    pub fn minus_seconds(&self, delta: i64) -> (r: Timestamp)
        requires
            self.wf(),
            0 < delta <= 1_000_000_000,
        ensures
            r == self.back(delta as int),
    {
        match chrono_checked_sub(self.seconds, self.nanos, delta) {
            Some((seconds, nanos)) => Timestamp { seconds, nanos },
            None => Timestamp { seconds: MIN_SECONDS, nanos: 0 },
        }
    }

    pub open spec fn back(self, delta: int) -> Timestamp {
        match seconds_before(self, delta) {
            Some((seconds, nanos)) => Timestamp { seconds, nanos },
            None => Timestamp { seconds: MIN_SECONDS, nanos: 0 },
        }
    }
}

/// An instant that is not earlier has no fewer milliseconds, leap seconds
/// aside.
pub proof fn millis_keep_order(a: Timestamp, b: Timestamp)
    requires
        a.nanos < NANOS_PER_SECOND,
        a.no_later_than(b),
    ensures
        a.in_millis() <= b.in_millis(),
{
}

/// A number of milliseconds within the range of dates is kept by the instant
/// made from it.
pub open spec fn has_date(millis: int) -> bool {
    MIN_MILLIS <= millis <= MAX_MILLIS
}

// ---------------------------------------------------------------------------
// Spans
// ---------------------------------------------------------------------------

impl Duration {
    pub open spec fn wf(self) -> bool {
        self.nanos < NANOS_PER_SECOND
    }

    /// The length of the span in nanoseconds.
    pub open spec fn total(self) -> int {
        self.seconds * NANOS_PER_SECOND as int + self.nanos
    }

    pub fn from_secs(seconds: u64) -> (r: Duration)
        ensures
            r == (Duration { seconds, nanos: 0 }),
            r.wf(),
    {
        Duration { seconds, nanos: 0 }
    }

    pub fn from_millis(millis: u64) -> (r: Duration)
        ensures
            r.wf(),
            r.total() == millis * 1_000_000,
    {
        Duration { seconds: millis / 1000, nanos: (millis % 1000) as u32 * 1_000_000 }
    }

    pub fn is_zero(&self) -> (r: bool)
        ensures
            r == (self.seconds == 0 && self.nanos == 0),
            self.wf() ==> r == (self.total() == 0),
    {
        self.seconds == 0 && self.nanos == 0
    }

    /// `self` is not longer than `other`.
    pub open spec fn no_longer_than(self, other: Duration) -> bool {
        self.seconds < other.seconds || (self.seconds == other.seconds && self.nanos
            <= other.nanos)
    }

    pub fn at_most(&self, other: &Duration) -> (r: bool)
        ensures
            r == self.no_longer_than(*other),
            self.wf() && other.wf() ==> r == (self.total() <= other.total()),
    {
        self.seconds < other.seconds || (self.seconds == other.seconds && self.nanos
            <= other.nanos)
    }

    /// The longer of the two spans.
    pub open spec fn longer(self, other: Duration) -> Duration {
        if self.no_longer_than(other) {
            other
        } else {
            self
        }
    }

    /// The shorter of the two spans.
    pub open spec fn shorter(self, other: Duration) -> Duration {
        if self.no_longer_than(other) {
            self
        } else {
            other
        }
    }

    pub fn max(self, other: Duration) -> (r: Duration)
        ensures
            r == self.longer(other),
    {
        if self.at_most(&other) {
            other
        } else {
            self
        }
    }

    pub fn min(self, other: Duration) -> (r: Duration)
        ensures
            r == self.shorter(other),
    {
        if self.at_most(&other) {
            self
        } else {
            other
        }
    }

    /// The span of `n` nanoseconds.
    pub open spec fn of_total(n: int) -> Duration {
        Duration {
            seconds: (n / NANOS_PER_SECOND as int) as u64,
            nanos: (n % NANOS_PER_SECOND as int) as u32,
        }
    }

    /// The span that is left of `self` after `other`, zero at the least.
    pub open spec fn minus(self, other: Duration) -> Duration {
        Duration::of_total(
            if self.total() >= other.total() {
                self.total() - other.total()
            } else {
                0
            },
        )
    }

    pub fn saturating_sub(self, other: Duration) -> (r: Duration)
        requires
            self.wf(),
            other.wf(),
        ensures
            r.wf(),
            r == self.minus(other),
            r.total() == if self.total() >= other.total() {
                self.total() - other.total()
            } else {
                0
            },
    {
        if self.at_most(&other) {
            Duration { seconds: 0, nanos: 0 }
        } else if self.nanos >= other.nanos {
            Duration { seconds: self.seconds - other.seconds, nanos: self.nanos - other.nanos }
        } else {
            Duration {
                seconds: self.seconds - other.seconds - 1,
                nanos: self.nanos + NANOS_PER_SECOND - other.nanos,
            }
        }
    }
}

/// The milliseconds of the instant `delay` after `now`.
pub open spec fn millis_after(now: Timestamp, delay: Duration) -> int {
    now.seconds * 1000 + delay.seconds * 1000 + (now.nanos + delay.nanos) / 1_000_000
}

/// The milliseconds of the instant `delay` after `now`, where that instant has
/// a date.
pub fn after(now: Timestamp, delay: Duration) -> (r: Option<i64>)
    requires
        now.wf(),
        now.nanos < NANOS_PER_SECOND,
        delay.wf(),
    ensures
        match r {
            Some(m) => m == millis_after(now, delay) && has_date(m as int),
            None => !has_date(millis_after(now, delay)),
        },
{
    let sum: i128 = now.seconds as i128 * 1000 + delay.seconds as i128 * 1000 + ((now.nanos
        + delay.nanos) / 1_000_000) as i128;
    if MIN_MILLIS as i128 <= sum && sum <= MAX_MILLIS as i128 {
        Some(sum as i64)
    } else {
        None
    }
}

// ---------------------------------------------------------------------------
// Laws
// ---------------------------------------------------------------------------

/// Instants are ordered by the nanoseconds since the Unix epoch.
pub proof fn instants_are_ordered(a: Timestamp, b: Timestamp)
    requires
        a.nanos < 1_000_000_000,
        b.nanos < 1_000_000_000,
    ensures
        a.no_later_than(b) <==> a.seconds * 1_000_000_000 + a.nanos <= b.seconds * 1_000_000_000
            + b.nanos,
{
}

/// The later of two instants is one of them, and neither is after it.
pub proof fn later_is_the_latest(a: Option<Timestamp>, b: Option<Timestamp>)
    ensures
        Timestamp::later(a, b) is None <==> a is None && b is None,
        Timestamp::later(a, b) == a || Timestamp::later(a, b) == b,
        a matches Some(x) ==> (Timestamp::later(a, b) matches Some(z) && (x.seconds < z.seconds || (
        x.seconds == z.seconds && x.nanos <= z.nanos))),
        b matches Some(y) ==> (Timestamp::later(a, b) matches Some(z) && (y.seconds < z.seconds || (
        y.seconds == z.seconds && y.nanos <= z.nanos))),
{
}

/// The milliseconds of an instant are those that have gone by in full.
pub proof fn milliseconds_are_whole(t: Timestamp)
    ensures
        t.in_millis() * 1_000_000 <= t.seconds * 1_000_000_000 + t.nanos,
        t.seconds * 1_000_000_000 + t.nanos < (t.in_millis() + 1) * 1_000_000,
{
}

/// An instant after a delay is later by the delay, in whole milliseconds.
pub proof fn delays_move_forward(now: Timestamp, delay: Duration)
    ensures
        millis_after(now, delay) * 1_000_000 <= now.seconds * 1_000_000_000 + now.nanos
            + delay.seconds * 1_000_000_000 + delay.nanos,
        now.seconds * 1_000_000_000 + now.nanos + delay.seconds * 1_000_000_000 + delay.nanos < (
        millis_after(now, delay) + 1) * 1_000_000,
{
}

/// A number of seconds before an instant lies as many seconds before it.
pub proof fn going_back_keeps_the_fraction(t: Timestamp, delta: int)
    requires
        t.nanos < 1_000_000_000,
        0 < delta,
        MIN_SECONDS + delta <= t.seconds <= MAX_SECONDS,
    ensures
        t.back(delta).seconds == t.seconds - delta,
        t.back(delta).nanos == t.nanos,
{
}

/// The longer and the shorter of two spans are the two, by their lengths.
pub proof fn spans_are_ordered(a: Duration, b: Duration)
    requires
        a.nanos < 1_000_000_000,
        b.nanos < 1_000_000_000,
    ensures
        a.longer(b) == a || a.longer(b) == b,
        a.shorter(b) == a || a.shorter(b) == b,
        a.longer(b).seconds * 1_000_000_000 + a.longer(b).nanos >= a.seconds * 1_000_000_000
            + a.nanos,
        a.longer(b).seconds * 1_000_000_000 + a.longer(b).nanos >= b.seconds * 1_000_000_000
            + b.nanos,
        a.shorter(b).seconds * 1_000_000_000 + a.shorter(b).nanos <= a.seconds * 1_000_000_000
            + a.nanos,
        a.shorter(b).seconds * 1_000_000_000 + a.shorter(b).nanos <= b.seconds * 1_000_000_000
            + b.nanos,
{
}

/// What is left of a span and what was taken from it make up the span; nothing is
/// left where as much or more was taken.
pub proof fn rests_add_up(a: Duration, b: Duration)
    requires
        a.nanos < 1_000_000_000,
        b.nanos < 1_000_000_000,
    ensures
        ({
            let rest = a.minus(b).seconds * 1_000_000_000 + a.minus(b).nanos;
            let whole = a.seconds * 1_000_000_000 + a.nanos;
            let taken = b.seconds * 1_000_000_000 + b.nanos;
            &&& whole >= taken ==> rest + taken == whole
            &&& whole <= taken ==> rest == 0
        }),
{
}

} // verus!
