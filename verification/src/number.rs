//! Whole numbers in decimal notation.

use vstd::prelude::*;
use crate::text::{chars_of, is_digit};

verus! {

/// Why a text is no unsigned number of the wanted size.
#[derive(Clone, Copy, Debug, PartialEq, Eq, Structural)]
pub enum IntError {
    Empty,
    InvalidDigit,
    PosOverflow,
}

impl IntError {
    pub open spec fn text(self) -> Seq<char> {
        match self {
            IntError::Empty => "cannot parse integer from empty string"@,
            IntError::InvalidDigit => "invalid digit found in string"@,
            IntError::PosOverflow => "number too large to fit in target type"@,
        }
    }

    pub fn message(&self) -> (r: String)
        ensures
            r@ == self.text(),
    {
        match self {
            IntError::Empty => "cannot parse integer from empty string".to_owned(),
            IntError::InvalidDigit => "invalid digit found in string".to_owned(),
            IntError::PosOverflow => "number too large to fit in target type".to_owned(),
        }
    }
}

/// The digit for a number below ten.
pub open spec fn digit_char(d: nat) -> char {
    ((48 + d) as u8) as char
}

/// The number that a digit stands for.
pub open spec fn digit_value(c: char) -> int {
    (c as u32) - 48
}

/// The decimal digits of `n`, without leading zeros.
pub open spec fn decimal(n: nat) -> Seq<char>
    decreases n,
{
    if n < 10 {
        seq![digit_char(n)]
    } else {
        decimal(n / 10).push(digit_char(n % 10))
    }
}

/// The decimal notation of `n`, with a minus sign where it is negative.
pub open spec fn int_text(n: int) -> Seq<char> {
    if n < 0 {
        seq!['-'] + decimal((-n) as nat)
    } else {
        decimal(n as nat)
    }
}

/// Reads the digits of `s[from..]` behind those that make `acc`. The first
/// character that is no digit, or that leads beyond `max`, decides the error.
pub open spec fn read_digits(s: Seq<char>, max: nat, acc: nat, from: int) -> Result<nat, IntError>
    decreases s.len() - from,
{
    if from < 0 || from >= s.len() {
        Ok(acc)
    } else if !is_digit(s[from]) {
        Err(IntError::InvalidDigit)
    } else {
        let value = (acc * 10 + digit_value(s[from])) as nat;
        if value > max {
            Err(IntError::PosOverflow)
        } else {
            read_digits(s, max, value, from + 1)
        }
    }
}

/// Reads an unsigned number of at most `max`: decimal digits, with a plus sign
/// before them or without.
pub open spec fn read_unsigned(s: Seq<char>, max: nat) -> Result<nat, IntError> {
    if s.len() == 0 {
        Err(IntError::Empty)
    } else if s.len() == 1 && s[0] == '+' {
        Err(IntError::InvalidDigit)
    } else if s[0] == '+' {
        read_digits(s, max, 0, 1)
    } else {
        read_digits(s, max, 0, 0)
    }
}

pub fn parse_unsigned(s: &str, max: u64) -> (r: Result<u64, IntError>)
    ensures
        match r {
            Ok(n) => read_unsigned(s@, max as nat) == Ok::<nat, IntError>(n as nat),
            Err(e) => read_unsigned(s@, max as nat) == Err::<nat, IntError>(e),
        },
        r matches Ok(n) ==> n <= max,
{
    let x = chars_of(s);
    if x.len() == 0 {
        return Err(IntError::Empty);
    }
    if x.len() == 1 && x[0] == '+' {
        return Err(IntError::InvalidDigit);
    }
    let mut i: usize = if x[0] == '+' {
        1
    } else {
        0
    };
    let mut acc: u64 = 0;
    while i < x.len()
        invariant
            x@ == s@,
            i <= x@.len(),
            acc <= max,
            read_unsigned(s@, max as nat) == read_digits(s@, max as nat, acc as nat, i as int),
        decreases x@.len() - i,
    {
        let c: char = x[i];
        let n: u32 = c as u32;
        if n < 48 || n > 57 {
            return Err(IntError::InvalidDigit);
        }
        let value: u128 = acc as u128 * 10 + (n - 48) as u128;
        if value > max as u128 {
            return Err(IntError::PosOverflow);
        }
        acc = value as u64;
        i += 1;
    }
    Ok(acc)
}

pub fn parse_u64(s: &str) -> (r: Result<u64, IntError>)
    ensures
        match r {
            Ok(n) => read_unsigned(s@, u64::MAX as nat) == Ok::<nat, IntError>(n as nat),
            Err(e) => read_unsigned(s@, u64::MAX as nat) == Err::<nat, IntError>(e),
        },
{
    parse_unsigned(s, u64::MAX)
}

/// Decimal notation of an unsigned number.
pub fn u64_text(n: u64) -> (r: String)
    ensures
        r@ == decimal(n as nat),
    decreases n,
{
    if n < 10 {
        let mut r = String::new();
        r.push((48u8 + n as u8) as char);
        assert(r@ =~= decimal(n as nat));
        r
    } else {
        let mut r = u64_text(n / 10);
        r.push((48u8 + (n % 10) as u8) as char);
        r
    }
}

/// Decimal notation of a signed number.
pub fn i64_text(n: i64) -> (r: String)
    ensures
        r@ == int_text(n as int),
{
    if n < 0 {
        let mut r = String::new();
        r.push('-');
        let size: u64 = (-(n as i128)) as u64;
        let digits = u64_text(size);
        r.append(digits.as_str());
        assert(r@ =~= int_text(n as int));
        r
    } else {
        u64_text(n as u64)
    }
}

proof fn digits_are_digits(n: nat)
    ensures
        decimal(n).len() >= 1,
        forall|i: int| 0 <= i < decimal(n).len() ==> is_digit(#[trigger] decimal(n)[i]),
    decreases n,
{
    if n >= 10 {
        digits_are_digits(n / 10);
        let front = decimal(n / 10);
        assert forall|i: int| 0 <= i < decimal(n).len() implies is_digit(
            #[trigger] decimal(n)[i],
        ) by {
            if i < front.len() {
                assert(decimal(n)[i] == front[i]);
            }
        }
    }
}

proof fn read_digits_append(s: Seq<char>, c: char, max: nat, acc: nat, from: int)
    requires
        0 <= from <= s.len(),
    ensures
        read_digits(s, max, acc, from) matches Ok(n) ==> read_digits(s.push(c), max, acc, from)
            == read_digits(s.push(c), max, n, s.len() as int),
    decreases s.len() - from,
{
    if from < s.len() {
        assert(s.push(c)[from] == s[from]);
        if is_digit(s[from]) {
            let value = (acc * 10 + digit_value(s[from])) as nat;
            if value <= max {
                read_digits_append(s, c, max, value, from + 1);
            }
        }
    }
}

proof fn read_digits_of_decimal(n: nat, max: nat)
    requires
        n <= max,
    ensures
        read_digits(decimal(n), max, 0, 0) == Ok::<nat, IntError>(n),
    decreases n,
{
    if n < 10 {
        let s = decimal(n);
        assert(s[0] == digit_char(n));
        assert(read_digits(s, max, n, 1) == Ok::<nat, IntError>(n));
    } else {
        read_digits_of_decimal(n / 10, max);
        let front = decimal(n / 10);
        let c = digit_char(n % 10);
        read_digits_append(front, c, max, 0, 0);
        let s = front.push(c);
        assert(s[front.len() as int] == c);
        assert(((n / 10) * 10 + digit_value(c)) as nat == n);
        assert(read_digits(s, max, n, front.len() as int + 1) == Ok::<nat, IntError>(n));
    }
}

/// The decimal notation of a number reads back as that number.
pub proof fn decimal_reads_back(n: nat, max: nat)
    requires
        n <= max,
    ensures
        read_unsigned(decimal(n), max) == Ok::<nat, IntError>(n),
{
    digits_are_digits(n);
    read_digits_of_decimal(n, max);
    assert(is_digit(decimal(n)[0]));
}

/// The decimal notation of a number holds digits only.
pub proof fn decimal_has_no(n: nat, c: char)
    requires
        !is_digit(c),
    ensures
        !decimal(n).contains(c),
{
    digits_are_digits(n);
}

proof fn digits_stay_small(s: Seq<char>, max: nat, acc: nat, from: int)
    requires
        acc <= max,
        0 <= from,
    ensures
        read_digits(s, max, acc, from) matches Ok(n) ==> n <= max && forall|i: int|
            from <= i < s.len() ==> is_digit(#[trigger] s[i]),
    decreases s.len() - from,
{
    if from < s.len() && is_digit(s[from]) {
        let value = (acc * 10 + digit_value(s[from])) as nat;
        if value <= max {
            digits_stay_small(s, max, value, from + 1);
        }
    }
}

/// A number that is read is no larger than the largest, and was written in digits,
/// behind a plus sign or without.
pub proof fn number_is_small(s: Seq<char>, max: nat)
    ensures
        read_unsigned(s, max) matches Ok(n) ==> n <= max && s.len() > 0 && (is_digit(s[0]) || s[0]
            == '+') && forall|i: int| 1 <= i < s.len() ==> is_digit(#[trigger] s[i]),
{
    if s.len() > 0 {
        digits_stay_small(s, max, 0, 0);
        digits_stay_small(s, max, 0, 1);
    }
}

} // verus!
