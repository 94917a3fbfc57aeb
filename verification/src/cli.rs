//! The values of the command line.

use std::str::FromStr;
use vstd::prelude::*;
use crate::number::{
    decimal, decimal_has_no, decimal_reads_back, number_is_small, parse_u64, parse_unsigned,
    read_unsigned, IntError,
};
use crate::text::laws::{pieces_make_the_text, texts_are_cut_at_a_separator};
use crate::text::{
    has_white_space, is_white_space, join, rfind_char_before, rsplit_once, split,
    str_has_white_space, str_rsplit_once, str_split,
};
use crate::spans::adds_up;
use crate::time::{Duration, NANOS_PER_SECOND};

verus! {

/// Whether review commands block polling.
#[derive(Clone, Copy, Debug, PartialEq, Eq, Structural)]
pub enum Mode {
    Sync,
    Async,
}

impl Default for Mode {
    fn default() -> (r: Self)
        ensures
            r == Mode::Sync,
    {
        Mode::Sync
    }
}

// ---------------------------------------------------------------------------
// Durations
// ---------------------------------------------------------------------------

/// What humantime reads from a text: the seconds and nanoseconds of a span, or
/// the text of its error.
pub uninterp spec fn human_duration(text: Seq<char>) -> Result<(u64, u32), Seq<char>>;

/// `humantime::parse_duration`, with the text of its error. The result is
/// named, not described. The nanoseconds that std reports of a `Duration` stay
/// below one second. A sum of spans that does not fit is an error, but where
/// its last second is filled exactly, humantime makes `Duration::new` panic.
#[verifier::external_body]
fn humantime_parse(text: &str) -> (r: Result<(u64, u32), String>)
    requires
        adds_up(text@),
    ensures
        match r {
            Ok(span) => human_duration(text@) == Ok::<(u64, u32), Seq<char>>(span) && span.1
                < NANOS_PER_SECOND,
            Err(message) => human_duration(text@) == Err::<(u64, u32), Seq<char>>(message@),
        },
{
    match humantime::parse_duration(text) {
        Ok(span) => Ok((span.as_secs(), span.subsec_nanos())),
        Err(error) => Err(error.to_string()),
    }
}

/// A span that was read, unless it is empty.
pub open spec fn positive_duration(parsed: Result<(u64, u32), Seq<char>>) -> Result<
    Duration,
    Seq<char>,
> {
    match parsed {
        Ok((seconds, nanos)) => if seconds == 0 && nanos == 0 {
            Err("duration must be greater than zero"@)
        } else {
            Ok(Duration { seconds, nanos })
        },
        Err(message) => Err(message),
    }
}

/// The models of a result with a text for its error.
pub open spec fn with_text<T>(r: Result<T, String>) -> Result<T, Seq<char>> {
    match r {
        Ok(value) => Ok(value),
        Err(message) => Err(message@),
    }
}

/// Accepts a span that was read, unless it is empty.
pub fn accept_duration(parsed: Result<(u64, u32), String>) -> (r: Result<Duration, String>)
    ensures
        with_text(r) == positive_duration(with_text(parsed)),
{
    match parsed {
        Ok((seconds, nanos)) => if seconds == 0 && nanos == 0 {
            Err("duration must be greater than zero".to_owned())
        } else {
            Ok(Duration { seconds, nanos })
        },
        Err(message) => Err(message),
    }
}

/// Reads a span such as `1m` or `90s`. An empty span is refused.
pub fn parse_duration(value: &str) -> (r: Result<Duration, String>)
    requires
        adds_up(value@),
    ensures
        with_text(r) == positive_duration(human_duration(value@)),
        r matches Ok(span) ==> span.wf() && span.total() > 0,
{
    accept_duration(humantime_parse(value))
}

/// The number of at least one that a text holds.
pub open spec fn positive_number(value: Seq<char>) -> Result<usize, Seq<char>> {
    match read_unsigned(value, usize::MAX as nat) {
        Ok(n) => if n == 0 {
            Err("value must be greater than zero"@)
        } else {
            Ok(n as usize)
        },
        Err(error) => Err(error.text()),
    }
}

/// Reads a number of at least one.
pub fn parse_positive_usize(value: &str) -> (r: Result<usize, String>)
    ensures
        with_text(r) == positive_number(value@),
        with_text(r) == match read_unsigned(value@, usize::MAX as nat) {
            Ok(n) => if n == 0 {
                Err("value must be greater than zero"@)
            } else {
                Ok(n as usize)
            },
            Err(error) => Err(error.text()),
        },
{
    match parse_unsigned(value, usize::MAX as u64) {
        Ok(n) => if n == 0 {
            Err("value must be greater than zero".to_owned())
        } else {
            Ok(n as usize)
        },
        Err(error) => Err(error.message()),
    }
}

// ---------------------------------------------------------------------------
// Selectors
// ---------------------------------------------------------------------------

/// A pull request as the user names it: `OWNER/REPO#NUMBER`.
#[derive(Debug, PartialEq, Eq)]
pub struct PullRequestSelector {
    pub full_name: String,
    pub number: u64,
}

impl Clone for PullRequestSelector {
    fn clone(&self) -> (r: Self)
        ensures
            r == *self,
    {
        PullRequestSelector { full_name: self.full_name.clone(), number: self.number }
    }
}

/// Why a text names no pull request.
#[derive(Clone, Copy, Debug, PartialEq, Eq, Structural)]
pub enum SelectorError {
    Malformed,
    Number(IntError),
    Zero,
}

impl SelectorError {
    pub open spec fn text(self) -> Seq<char> {
        match self {
            SelectorError::Malformed => "expected OWNER/REPO#NUMBER"@,
            SelectorError::Number(error) => error.text(),
            SelectorError::Zero => "pull request number must be greater than zero"@,
        }
    }

    pub fn message(&self) -> (r: String)
        ensures
            r@ == self.text(),
    {
        match self {
            SelectorError::Malformed => "expected OWNER/REPO#NUMBER".to_owned(),
            SelectorError::Number(error) => error.message(),
            SelectorError::Zero => "pull request number must be greater than zero".to_owned(),
        }
    }
}

/// The name and the number that a selector holds. The name has two parts and
/// no white space; the last `#` ends it.
pub open spec fn selected(value: Seq<char>) -> Result<(Seq<char>, nat), SelectorError> {
    match rsplit_once(value, '#') {
        None => Err(SelectorError::Malformed),
        Some((full_name, number)) => if split(full_name, '/').len() != 2 || has_white_space(
            full_name,
        ) {
            Err(SelectorError::Malformed)
        } else {
            match read_unsigned(number, u64::MAX as nat) {
                Err(error) => Err(SelectorError::Number(error)),
                Ok(n) => if n == 0 {
                    Err(SelectorError::Zero)
                } else {
                    Ok((full_name, n))
                },
            }
        },
    }
}

impl PullRequestSelector {
    pub fn parse(value: &str) -> (r: Result<PullRequestSelector, SelectorError>)
        ensures
            match r {
                Ok(selector) => selected(value@) == Ok::<(Seq<char>, nat), SelectorError>(
                    (selector.full_name@, selector.number as nat),
                ),
                Err(error) => selected(value@) == Err::<(Seq<char>, nat), SelectorError>(error),
            },
    {
        match str_rsplit_once(value, '#') {
            None => Err(SelectorError::Malformed),
            Some((full_name, number)) => {
                let parts = str_split(full_name.as_str(), '/');
                assert(parts@.len() == split(full_name@, '/').len());
                if parts.len() != 2 || str_has_white_space(full_name.as_str()) {
                    return Err(SelectorError::Malformed);
                }
                match parse_u64(number.as_str()) {
                    Err(error) => Err(SelectorError::Number(error)),
                    Ok(n) => if n == 0 {
                        Err(SelectorError::Zero)
                    } else {
                        Ok(PullRequestSelector { full_name, number: n })
                    },
                }
            },
        }
    }
}

impl FromStr for PullRequestSelector {
    type Err = SelectorError;

    fn from_str(value: &str) -> (r: Result<Self, SelectorError>)
        ensures
            match r {
                Ok(selector) => selected(value@) == Ok::<(Seq<char>, nat), SelectorError>(
                    (selector.full_name@, selector.number as nat),
                ),
                Err(error) => selected(value@) == Err::<(Seq<char>, nat), SelectorError>(error),
            },
    {
        PullRequestSelector::parse(value)
    }
}

proof fn last_separator(name: Seq<char>, rest: Seq<char>, sep: char, end: int)
    requires
        !rest.contains(sep),
        name.len() < end <= name.len() + 1 + rest.len(),
    ensures
        rfind_char_before(name + seq![sep] + rest, sep, end) == Some(name.len() as int),
    decreases end,
{
    let all = name + seq![sep] + rest;
    if end > name.len() + 1 {
        assert(all[end - 1] == rest[end - 1 - name.len() - 1]);
        assert(rest.contains(rest[end - 1 - name.len() - 1]));
        last_separator(name, rest, sep, end - 1);
    } else {
        assert(all[end - 1] == sep);
    }
}

/// A name of two parts without white space and a number that is not zero can
/// be told from the selector that is written with them.
pub proof fn selector_reads_back(full_name: Seq<char>, number: nat)
    requires
        split(full_name, '/').len() == 2,
        !has_white_space(full_name),
        0 < number <= u64::MAX,
    ensures
        selected(full_name + seq!['#'] + decimal(number)) == Ok::<(Seq<char>, nat), SelectorError>(
            (full_name, number),
        ),
{
    let digits = decimal(number);
    let value = full_name + seq!['#'] + digits;
    decimal_has_no(number, '#');
    last_separator(full_name, digits, '#', value.len() as int);
    assert(value.take(full_name.len() as int) =~= full_name);
    assert(value.skip(full_name.len() as int + 1) =~= digits);
    decimal_reads_back(number, u64::MAX as nat);
}

/// A selector is a name of two parts without white space, a `#`, and a number above
/// zero.
pub proof fn selectors_are_a_name_and_a_number(value: Seq<char>)
    ensures
        selected(value) matches Ok((full_name, number)) ==> {
            &&& 0 < number <= u64::MAX
            &&& exists|digits: Seq<char>| #[trigger]
                read_unsigned(digits, u64::MAX as nat) == Ok::<nat, IntError>(number) && value
                    == full_name + seq!['#'] + digits && !digits.contains('#')
            &&& forall|i: int|
                0 <= i < full_name.len() ==> !is_white_space(#[trigger] full_name[i])
            &&& exists|owner: Seq<char>, name: Seq<char>| #[trigger]
                owner_and_name(full_name, owner, name)
        },
        !value.contains('#') ==> selected(value) == Err::<(Seq<char>, nat), SelectorError>(
            SelectorError::Malformed,
        ),
{
    texts_are_cut_at_a_separator(value, '#');
    if let Ok((full_name, number)) = selected(value) {
        let (_, digits) = rsplit_once(value, '#')->0;
        assert(read_unsigned(digits, u64::MAX as nat) == Ok::<nat, IntError>(number));
        number_is_small(digits, u64::MAX as nat);
        let parts = split(full_name, '/');
        pieces_make_the_text(full_name, '/');
        assert(parts.drop_last() =~= seq![parts[0]]);
        assert(join(parts.drop_last(), seq!['/']) == parts[0]);
        assert(join(parts, seq!['/']) == parts[0] + seq!['/'] + parts[1]);
        assert(owner_and_name(full_name, parts[0], parts[1]));
    }
    if !value.contains('#') {
        if let Some((a, b)) = rsplit_once(value, '#') {
            assert((a + seq!['#'] + b)[a.len() as int] == '#');
        }
    }
}

/// A name is made of an owner, a slash and a name, with no further slash.
pub open spec fn owner_and_name(full_name: Seq<char>, owner: Seq<char>, name: Seq<char>) -> bool {
    full_name == owner + seq!['/'] + name && !owner.contains('/') && !name.contains('/')
}

/// A span that was read is taken as it is, unless it is empty; a text that holds none
/// is refused as it was read.
pub proof fn spans_are_not_empty(seconds: u64, nanos: u32, message: Seq<char>)
    ensures
        positive_duration(Ok((seconds, nanos))) is Err <==> seconds == 0 && nanos == 0,
        positive_duration(Ok((seconds, nanos))) matches Ok(span) ==> span.seconds == seconds
            && span.nanos == nanos,
        positive_duration(Err(message)) == Err::<Duration, Seq<char>>(message),
{
}

/// A number is read back from its digits, except zero, which is refused.
pub proof fn positive_numbers_read_back(n: usize)
    ensures
        n > 0 ==> positive_number(decimal(n as nat)) == Ok::<usize, Seq<char>>(n),
        n == 0 ==> positive_number(decimal(n as nat)) == Err::<usize, Seq<char>>(
            "value must be greater than zero"@,
        ),
{
    decimal_reads_back(n as nat, usize::MAX as nat);
}

} // verus!
