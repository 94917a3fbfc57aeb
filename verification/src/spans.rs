//! The sum of the spans of time in a text.
//!
//! A text such as `1h 30m` holds spans: a number with its unit. humantime adds
//! them up from left to right, the whole part of a number before its fraction.
//! It counts the sum in seconds and nanoseconds, and refuses what does not fit,
//! with one exception: where the nanoseconds make up exactly one second
//! while the seconds are the largest number that there is, it panics. This
//! module tells which texts lead there.

use vstd::prelude::*;
use crate::text::{char_is_white_space, chars_of, is_digit, is_white_space, str_eq};

verus! {

/// The nanoseconds of a second.
pub const SECOND: u128 = 1_000_000_000;

/// The first sum that does not fit, in nanoseconds: one second more than the
/// largest number of seconds.
pub const TOO_LONG: u128 = 18_446_744_073_709_551_616_000_000_000;

/// A fraction that is counted in so many parts can still be counted in ten times
/// as many.
pub const FINE_PARTS: u64 = 1_000_000_000_000_000_000;

/// The nanoseconds of a year.
pub const LONGEST_UNIT: u128 = 31_557_600_000_000_000;

/// The letters that units of time are written with: those of ASCII, and the
/// micro sign.
pub open spec fn is_unit_letter(c: char) -> bool {
    let n = c as u32;
    ||| 0x61 <= n <= 0x7a
    ||| 0x41 <= n <= 0x5a
    ||| n == 0xb5
}

/// The nanoseconds of a unit, where there is a unit of that name.
pub open spec fn unit_nanos(unit: Seq<char>) -> Option<nat> {
    if unit == "nanos"@ || unit == "nsec"@ || unit == "ns"@ {
        Some(1)
    } else if unit == "usec"@ || unit == "us"@ || unit == "\u{b5}s"@ {
        Some(1_000)
    } else if unit == "millis"@ || unit == "msec"@ || unit == "ms"@ {
        Some(1_000_000)
    } else if unit == "seconds"@ || unit == "second"@ || unit == "secs"@ || unit == "sec"@ || unit
        == "s"@ {
        Some(1_000_000_000)
    } else if unit == "minutes"@ || unit == "minute"@ || unit == "min"@ || unit == "mins"@ || unit
        == "m"@ {
        Some(60_000_000_000)
    } else if unit == "hours"@ || unit == "hour"@ || unit == "hr"@ || unit == "hrs"@ || unit
        == "h"@ {
        Some(3_600_000_000_000)
    } else if unit == "days"@ || unit == "day"@ || unit == "d"@ {
        Some(86_400_000_000_000)
    } else if unit == "weeks"@ || unit == "week"@ || unit == "wk"@ || unit == "wks"@ || unit
        == "w"@ {
        Some(604_800_000_000_000)
    } else if unit == "months"@ || unit == "month"@ || unit == "M"@ {
        Some(2_630_016_000_000_000)
    } else if unit == "years"@ || unit == "year"@ || unit == "yr"@ || unit == "yrs"@ || unit
        == "y"@ {
        Some(31_557_600_000_000_000)
    } else {
        None
    }
}

fn is_one_of(unit: &str, a: &str, b: &str, c: &str) -> (r: bool)
    ensures
        r == (unit@ == a@ || unit@ == b@ || unit@ == c@),
{
    str_eq(unit, a) || str_eq(unit, b) || str_eq(unit, c)
}

fn nanos_of(unit: &str) -> (r: Option<u128>)
    ensures
        match r {
            Some(nanos) => unit_nanos(unit@) == Some(nanos as nat) && 0 < nanos <= LONGEST_UNIT,
            None => unit_nanos(unit@) is None,
        },
{
    if is_one_of(unit, "nanos", "nsec", "ns") {
        Some(1)
    } else if is_one_of(unit, "usec", "us", "\u{b5}s") {
        Some(1_000)
    } else if is_one_of(unit, "millis", "msec", "ms") {
        Some(1_000_000)
    } else if is_one_of(unit, "seconds", "second", "secs") || is_one_of(unit, "sec", "s", "s") {
        Some(1_000_000_000)
    } else if is_one_of(unit, "minutes", "minute", "min") || is_one_of(unit, "mins", "m", "m") {
        Some(60_000_000_000)
    } else if is_one_of(unit, "hours", "hour", "hr") || is_one_of(unit, "hrs", "h", "h") {
        Some(3_600_000_000_000)
    } else if is_one_of(unit, "days", "day", "d") {
        Some(86_400_000_000_000)
    } else if is_one_of(unit, "weeks", "week", "wk") || is_one_of(unit, "wks", "w", "w") {
        Some(604_800_000_000_000)
    } else if is_one_of(unit, "months", "month", "M") {
        Some(2_630_016_000_000_000)
    } else if is_one_of(unit, "years", "year", "yr") || is_one_of(unit, "yrs", "y", "y") {
        Some(31_557_600_000_000_000)
    } else {
        None
    }
}

/// What comes of adding to a sum.
pub enum Added {
    Sum(nat),
    /// The sum does not fit, or cannot be counted.
    Refused,
    /// The last second of the sum is filled exactly.
    Full,
}

/// Adds to a sum of nanoseconds. What is added is counted in nanoseconds where
/// `fine` holds, and in seconds elsewhere; its number must fit, and so must the
/// nanoseconds of both beyond the whole seconds of the sum.
pub open spec fn added(total: nat, counted: nat, fine: bool) -> Added {
    let beyond = total % (SECOND as nat) + counted;
    let sum = total + if fine {
        counted
    } else {
        counted * (SECOND as nat)
    };
    if counted > u64::MAX || (fine && beyond > u64::MAX) {
        Added::Refused
    } else if fine && sum == TOO_LONG && beyond == SECOND {
        Added::Full
    } else if sum >= TOO_LONG {
        Added::Refused
    } else {
        Added::Sum(sum)
    }
}

/// A text that is read up to some place.
#[verifier::ext_equal]
pub struct SumModel {
    /// The sum of the spans that ended, in nanoseconds.
    pub total: nat,
    /// A number was begun.
    pub begun: bool,
    /// The whole part of the number.
    pub number: nat,
    /// The number has a point.
    pub point: bool,
    /// The digits behind the point, and the power of ten they are counted in.
    pub fraction: nat,
    pub scale: nat,
    pub unit: Seq<char>,
    /// What follows is not read: the text is refused here, or the sum is full.
    pub over: bool,
    /// A span filled the last second of the sum exactly.
    pub full: bool,
}

impl SumModel {
    pub open spec fn start() -> SumModel {
        SumModel {
            total: 0,
            begun: false,
            number: 0,
            point: false,
            fraction: 0,
            scale: 1,
            unit: seq![],
            over: false,
            full: false,
        }
    }

    pub open spec fn refused(self) -> SumModel {
        SumModel { over: true, ..self }
    }

    /// The span was added so, and the next one may begin.
    pub open spec fn with(self, added: Added) -> SumModel {
        match added {
            Added::Sum(total) => SumModel { total, ..SumModel::start() },
            Added::Refused => self.refused(),
            Added::Full => SumModel { over: true, full: true, ..self },
        }
    }

    /// What comes of adding the fraction. It is counted in nanoseconds up to the
    /// minute, and the parts must come out even.
    pub open spec fn fraction_added(self, total: nat, nanos: nat) -> Added {
        let fine = nanos <= 60 * SECOND;
        let parts = self.fraction * if fine {
            nanos
        } else {
            nanos / (SECOND as nat)
        };
        if nanos == 1 || parts > u64::MAX || parts % self.scale != 0 {
            Added::Refused
        } else {
            added(total, parts / self.scale, fine)
        }
    }

    /// The span ends here. Its whole part is added first: in nanoseconds where the
    /// unit is shorter than a second.
    pub open spec fn ended(self) -> SumModel {
        if self.over {
            self
        } else if self.point && self.scale == 1 {
            self.refused()
        } else {
            match unit_nanos(self.unit) {
                None => self.refused(),
                Some(nanos) => {
                    let fine = nanos < SECOND;
                    let whole = added(
                        self.total,
                        self.number * if fine {
                            nanos
                        } else {
                            nanos / (SECOND as nat)
                        },
                        fine,
                    );
                    match whole {
                        Added::Sum(total) if self.point => self.with(
                            self.fraction_added(total, nanos),
                        ),
                        _ => self.with(whole),
                    }
                },
            }
        }
    }

    pub open spec fn with_digit(self, digit: nat) -> SumModel {
        if self.point {
            if self.scale > FINE_PARTS {
                self.refused()
            } else {
                SumModel {
                    fraction: self.fraction * 10 + digit,
                    scale: self.scale * 10,
                    ..self
                }
            }
        } else if self.number * 10 + digit > u64::MAX {
            self.refused()
        } else {
            SumModel { begun: true, number: self.number * 10 + digit, ..self }
        }
    }

    pub open spec fn read(self, c: char) -> SumModel {
        if self.over {
            self
        } else if is_unit_letter(c) && self.begun {
            SumModel { unit: self.unit.push(c), ..self }
        } else if is_digit(c) {
            let before = if self.unit.len() > 0 {
                self.ended()
            } else {
                self
            };
            if before.over {
                before
            } else {
                before.with_digit((c as u32 - 0x30) as nat)
            }
        } else if is_white_space(c) {
            if self.unit.len() > 0 {
                self.ended()
            } else {
                self
            }
        } else if c as u32 == 0x2e && self.begun && self.unit.len() == 0 && !self.point {
            SumModel { point: true, ..self }
        } else {
            self.refused()
        }
    }
}

/// What was read of a text when all of it was.
pub open spec fn sum_of(text: Seq<char>) -> SumModel
    decreases text.len(),
{
    if text.len() == 0 {
        SumModel::start()
    } else {
        sum_of(text.drop_last()).read(text.last())
    }
}

/// No span of the text fills the last second of the sum exactly.
pub open spec fn adds_up(text: Seq<char>) -> bool {
    !sum_of(text).ended().full
}

/// What comes of adding to a sum, as it is computed.
enum Adding {
    Sum(u128),
    Refused,
    Full,
}

impl View for Adding {
    type V = Added;

    closed spec fn view(&self) -> Added {
        match *self {
            Adding::Sum(total) => Added::Sum(total as nat),
            Adding::Refused => Added::Refused,
            Adding::Full => Added::Full,
        }
    }
}

fn try_adding(total: u128, counted: u128, fine: bool) -> (r: Adding)
    requires
        total < TOO_LONG,
    ensures
        r@ == added(total as nat, counted as nat, fine),
        r matches Adding::Sum(sum) ==> sum < TOO_LONG,
{
    if counted > u64::MAX as u128 {
        return Adding::Refused;
    }
    let beyond: u128 = total % SECOND + counted;
    if fine && beyond > u64::MAX as u128 {
        return Adding::Refused;
    }
    let sum: u128 = total + if fine {
        counted
    } else {
        counted * SECOND
    };
    if fine && sum == TOO_LONG && beyond == SECOND {
        return Adding::Full;
    }
    if sum >= TOO_LONG {
        return Adding::Refused;
    }
    Adding::Sum(sum)
}

struct Sum {
    total: u128,
    begun: bool,
    number: u64,
    point: bool,
    fraction: u64,
    scale: u64,
    unit: String,
    over: bool,
    full: bool,
}

impl View for Sum {
    type V = SumModel;

    closed spec fn view(&self) -> SumModel {
        SumModel {
            total: self.total as nat,
            begun: self.begun,
            number: self.number as nat,
            point: self.point,
            fraction: self.fraction as nat,
            scale: self.scale as nat,
            unit: self.unit@,
            over: self.over,
            full: self.full,
        }
    }
}

impl Sum {
    spec fn wf(self) -> bool {
        !self.over ==> self.total < TOO_LONG && self.fraction < self.scale <= 10 * FINE_PARTS
    }

    fn start() -> (r: Self)
        ensures
            r.wf(),
            r@ == SumModel::start(),
    {
        let r = Sum {
            total: 0,
            begun: false,
            number: 0,
            point: false,
            fraction: 0,
            scale: 1,
            unit: String::new(),
            over: false,
            full: false,
        };
        assert(r@ =~= SumModel::start());
        r
    }

    fn refused(self) -> (r: Self)
        ensures
            r.wf(),
            r@ == self@.refused(),
    {
        let r = Sum { over: true, ..self };
        assert(r@ =~= self@.refused());
        r
    }

    fn with(self, adding: Adding) -> (r: Self)
        requires
            adding matches Adding::Sum(total) ==> total < TOO_LONG,
        ensures
            r.wf(),
            r@ == self@.with(adding@),
    {
        match adding {
            Adding::Sum(total) => {
                let r = Sum { total, ..Sum::start() };
                assert(r@ =~= self@.with(adding@));
                r
            },
            Adding::Refused => self.refused(),
            Adding::Full => {
                let r = Sum { over: true, full: true, ..self };
                assert(r@ =~= self@.with(adding@));
                r
            },
        }
    }

    fn add_fraction(&self, total: u128, nanos: u128) -> (r: Adding)
        requires
            total < TOO_LONG,
            0 < nanos <= LONGEST_UNIT,
            self.scale > 0,
        ensures
            r@ == self@.fraction_added(total as nat, nanos as nat),
            r matches Adding::Sum(sum) ==> sum < TOO_LONG,
    {
        let fine = nanos <= 60 * SECOND;
        let step: u128 = if fine {
            nanos
        } else {
            nanos / SECOND
        };
        let fraction = self.fraction as u128;
        let scale = self.scale as u128;
        assert(fraction * step <= 0xffff_ffff_ffff_ffff * 60_000_000_000) by (nonlinear_arith)
            requires
                0 <= fraction <= 0xffff_ffff_ffff_ffff,
                0 <= step <= 60_000_000_000,
        ;
        let parts: u128 = fraction * step;
        if nanos == 1 || parts > u64::MAX as u128 || parts % scale != 0 {
            return Adding::Refused;
        }
        try_adding(total, parts / scale, fine)
    }

    fn ended(self) -> (r: Self)
        requires
            self.wf(),
        ensures
            r.wf(),
            r@ == self@.ended(),
    {
        if self.over {
            return self;
        }
        if self.point && self.scale == 1 {
            return self.refused();
        }
        let nanos: u128 = match nanos_of(self.unit.as_str()) {
            None => {
                return self.refused();
            },
            Some(nanos) => nanos,
        };
        let fine = nanos < SECOND;
        let step: u128 = if fine {
            nanos
        } else {
            nanos / SECOND
        };
        let number = self.number as u128;
        assert(number * step <= 0xffff_ffff_ffff_ffff * 1_000_000_000) by (nonlinear_arith)
            requires
                0 <= number <= 0xffff_ffff_ffff_ffff,
                0 <= step <= 1_000_000_000,
        ;
        let whole = try_adding(self.total, number * step, fine);
        match whole {
            Adding::Sum(total) if self.point => {
                let more = self.add_fraction(total, nanos);
                self.with(more)
            },
            _ => self.with(whole),
        }
    }

    fn with_digit(self, digit: u64) -> (r: Self)
        requires
            self.wf(),
            !self.over,
            digit < 10,
        ensures
            r.wf(),
            r@ == self@.with_digit(digit as nat),
    {
        if self.point {
            if self.scale > FINE_PARTS {
                return self.refused();
            }
            let r = Sum {
                fraction: self.fraction * 10 + digit,
                scale: self.scale * 10,
                ..self
            };
            assert(r@ =~= self@.with_digit(digit as nat));
            r
        } else if self.number as u128 * 10 + digit as u128 > u64::MAX as u128 {
            self.refused()
        } else {
            let r = Sum { begun: true, number: self.number * 10 + digit, ..self };
            assert(r@ =~= self@.with_digit(digit as nat));
            r
        }
    }

    fn read(self, c: char) -> (r: Self)
        requires
            self.wf(),
        ensures
            r.wf(),
            r@ == self@.read(c),
    {
        if self.over {
            return self;
        }
        let n: u32 = c as u32;
        let reading = !str_eq(self.unit.as_str(), "");
        proof {
            reveal_strlit("");
            assert(""@ =~= seq![]);
            if self.unit@.len() == 0 {
                assert(self.unit@ =~= seq![]);
            }
        }
        let letter = (0x61 <= n && n <= 0x7a) || (0x41 <= n && n <= 0x5a) || n == 0xb5;
        if letter && self.begun {
            let mut unit = self.unit.clone();
            unit.push(c);
            let r = Sum { unit, ..self };
            assert(r@ =~= self@.read(c));
            r
        } else if 0x30 <= n && n <= 0x39 {
            let before = if reading {
                self.ended()
            } else {
                self
            };
            if before.over {
                before
            } else {
                before.with_digit((n - 0x30) as u64)
            }
        } else if char_is_white_space(c) {
            if reading {
                self.ended()
            } else {
                self
            }
        } else if n == 0x2e && self.begun && !reading && !self.point {
            let r = Sum { point: true, ..self };
            assert(r@ =~= self@.read(c));
            r
        } else {
            self.refused()
        }
    }
}

/// Whether humantime may read a text.
pub fn can_add_up(text: &str) -> (r: bool)
    ensures
        r == adds_up(text@),
{
    let chars = chars_of(text);
    let mut sum = Sum::start();
    let mut i: usize = 0;
    assert(text@.take(0) =~= seq![]);
    while i < chars.len()
        invariant
            chars@ == text@,
            i <= chars@.len(),
            sum.wf(),
            sum@ == sum_of(text@.take(i as int)),
        decreases chars@.len() - i,
    {
        assert(text@.take(i + 1).drop_last() =~= text@.take(i as int));
        sum = sum.read(chars[i]);
        i = i + 1;
    }
    assert(text@.take(i as int) =~= text@);
    !sum.ended().full
}

proof fn nothing_more_is_read(text: Seq<char>, more: Seq<char>)
    requires
        sum_of(text).over,
    ensures
        sum_of(text + more) == sum_of(text),
    decreases more.len(),
{
    if more.len() == 0 {
        assert(text + more =~= text);
    } else {
        let all = text + more;
        assert(all.drop_last() =~= text + more.drop_last());
        nothing_more_is_read(text, more.drop_last());
    }
}

/// A text that is refused at some place may be read, whatever follows there.
pub proof fn refused_texts_add_up(text: Seq<char>, more: Seq<char>)
    requires
        sum_of(text).over,
        !sum_of(text).full,
    ensures
        adds_up(text + more),
{
    nothing_more_is_read(text, more);
}

} // verus!
