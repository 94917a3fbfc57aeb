//! Waiting for a process that may be cancelled or take too long.

use vstd::prelude::*;
use crate::time::Duration;

verus! {

/// The longest wait between two looks at the flags, in milliseconds.
pub const POLL_MILLIS: u64 = 50;

/// What to do about a process that has not ended.
#[derive(Clone, Copy, Debug, PartialEq, Eq, Structural)]
pub enum Wait {
    /// Stop it: it was cancelled.
    Cancelled,
    /// Stop it: its time is up.
    TimedOut,
    /// Wait so long for its end.
    Poll(Duration),
}

/// Fifty milliseconds.
pub open spec fn poll_span() -> Duration {
    Duration { seconds: 0, nanos: 50_000_000 }
}

/// What to do with `left` until the deadline.
pub open spec fn wait(cancelled: bool, left: Duration) -> Wait {
    if cancelled {
        Wait::Cancelled
    } else if left.seconds == 0 && left.nanos == 0 {
        Wait::TimedOut
    } else {
        Wait::Poll(left.shorter(poll_span()))
    }
}

pub fn next_wait(cancelled: bool, left: Duration) -> (r: Wait)
    ensures
        r == wait(cancelled, left),
{
    if cancelled {
        return Wait::Cancelled;
    }
    if left.is_zero() {
        return Wait::TimedOut;
    }
    let span = Duration::from_millis(POLL_MILLIS);
    assert(span == poll_span());
    Wait::Poll(left.min(span))
}

/// What to do about a process that may run for ever, or for `timeout`, of which
/// `elapsed` is over.
pub open spec fn bounded_wait(cancelled: bool, timeout: Option<Duration>, elapsed: Duration) -> Wait {
    match timeout {
        Some(limit) => wait(cancelled, limit.minus(elapsed)),
        None => if cancelled {
            Wait::Cancelled
        } else {
            Wait::Poll(poll_span())
        },
    }
}

pub fn next_bounded_wait(cancelled: bool, timeout: Option<Duration>, elapsed: Duration) -> (r: Wait)
    requires
        elapsed.wf(),
        timeout matches Some(limit) ==> limit.wf(),
    ensures
        r == bounded_wait(cancelled, timeout, elapsed),
{
    match timeout {
        Some(limit) => next_wait(cancelled, limit.saturating_sub(elapsed)),
        None => {
            if cancelled {
                return Wait::Cancelled;
            }
            let span = Duration::from_millis(POLL_MILLIS);
            assert(span == poll_span());
            Wait::Poll(span)
        },
    }
}

/// The time is up, as a look after a wait finds.
pub fn time_is_up(timeout: Option<Duration>, elapsed: Duration) -> (r: bool)
    requires
        elapsed.wf(),
        timeout matches Some(limit) ==> limit.wf(),
    ensures
        r == (timeout matches Some(limit) && limit.total() <= elapsed.total()),
{
    match timeout {
        Some(limit) => limit.at_most(&elapsed),
        None => false,
    }
}

/// A wait is never longer than the look at the flags allows, nor than what is
/// left.
pub proof fn wait_is_short(cancelled: bool, left: Duration)
    requires
        left.wf(),
    ensures
        wait(cancelled, left) matches Wait::Poll(span) ==> span.total() <= poll_span().total()
            && span.total() <= left.total() && span.total() > 0,
        wait(cancelled, left) is Cancelled <==> cancelled,
{
}

/// A process with a limit is stopped exactly when the limit is reached, and one
/// without a limit never is for its time.
pub proof fn limit_decides(cancelled: bool, timeout: Option<Duration>, elapsed: Duration)
    requires
        elapsed.wf(),
        timeout matches Some(limit) ==> limit.wf(),
    ensures
        bounded_wait(cancelled, timeout, elapsed) == Wait::TimedOut <==> !cancelled && (
        timeout matches Some(limit) && limit.total() <= elapsed.total()),
{
}

/// A process is stopped once it is cancelled, and once its time is up; until one of
/// these it is looked at every twentieth of a second, or at the end of its time where
/// that is sooner.
pub proof fn processes_are_looked_at_in_time(
    cancelled: bool,
    timeout: Option<Duration>,
    elapsed: Duration,
)
    requires
        elapsed.nanos < 1_000_000_000,
        timeout matches Some(limit) ==> limit.nanos < 1_000_000_000,
    ensures
        ({
            let took = elapsed.seconds * 1_000_000_000 + elapsed.nanos;
            match bounded_wait(cancelled, timeout, elapsed) {
                Wait::Cancelled => cancelled,
                Wait::TimedOut => !cancelled && (timeout matches Some(limit) && limit.seconds
                    * 1_000_000_000 + limit.nanos <= took),
                Wait::Poll(span) => {
                    &&& !cancelled
                    &&& span.seconds == 0
                    &&& match timeout {
                        None => span.nanos == 50_000_000,
                        Some(limit) => {
                            let left = limit.seconds * 1_000_000_000 + limit.nanos - took;
                            &&& left > 0
                            &&& span.nanos == if left < 50_000_000 {
                                left
                            } else {
                                50_000_000
                            }
                        },
                    }
                },
            }
        }),
{
}

} // verus!
