//! When to try again what has failed.

use vstd::arithmetic::power2::{
    lemma2_to64, lemma_pow2_pos, lemma_pow2_strictly_increases, lemma_pow2_unfold, pow2,
};
use vstd::prelude::*;
use crate::db::rows::{ActionStatus, ReviewAction};
use crate::db::Database;
use crate::github::{GhError, GhErrorModel, MetadataModel};
use crate::number::{decimal, u64_text};
use crate::text::{find, found_where_it_stands, lower, str_contains, str_to_lower};
use crate::time::{after, has_date, millis_after, Duration, Timestamp, NANOS_PER_SECOND};

verus! {

// ---------------------------------------------------------------------------
// GitHub
// ---------------------------------------------------------------------------

/// How long GitHub asks to wait, at the second `now` since the Unix epoch.
pub open spec fn asked_delay(error: GhErrorModel, now: int) -> Option<Duration> {
    match error.metadata() {
        None => None,
        Some(metadata) => if metadata.retry_after is Some {
            metadata.retry_after
        } else if metadata.rate_limit_remaining == Some(0u64) {
            match metadata.rate_limit_reset {
                Some(reset) => Some(
                    Duration { seconds: seconds_until(reset, now), nanos: 0 },
                ),
                None => None,
            }
        } else {
            None
        },
    }
}

/// The seconds from `now` until `reset`. A clock before the Unix epoch counts
/// as standing at it.
pub open spec fn seconds_until(reset: u64, now: int) -> u64 {
    let past = if now > 0 {
        now
    } else {
        0
    };
    if reset > past {
        (reset - past) as u64
    } else {
        0
    }
}

pub fn retry_delay_for_gh_error(error: &GhError, now: i64) -> (r: Option<Duration>)
    ensures
        r == asked_delay(error@, now as int),
{
    let metadata = match error.metadata() {
        Some(metadata) => metadata,
        None => {
            return None;
        },
    };
    if metadata.retry_after.is_some() {
        return metadata.retry_after;
    }
    let spent = match metadata.rate_limit_remaining {
        Some(remaining) => remaining == 0,
        None => false,
    };
    if !spent {
        return None;
    }
    match metadata.rate_limit_reset {
        Some(reset) => {
            let past: u64 = if now > 0 {
                now as u64
            } else {
                0
            };
            let left: u64 = if reset > past {
                reset - past
            } else {
                0
            };
            Some(Duration::from_secs(left))
        },
        None => None,
    }
}

/// The headers say that a rate limit is reached.
pub open spec fn headers_limit(metadata: MetadataModel) -> bool {
    metadata.rate_limit_remaining == Some(0u64) || metadata.retry_after is Some || metadata.status
        == 429
}

/// The body says so.
pub open spec fn body_limits(body: Seq<char>) -> bool {
    find(lower(body), "secondary rate limit"@) is Some || find(lower(body), "abuse detection"@)
        is Some
}

/// GitHub refuses further requests for now.
pub open spec fn rate_limited(error: GhErrorModel) -> bool {
    match error {
        GhErrorModel::Status { metadata, body, .. } => headers_limit(metadata) || (metadata.status
            == 403 && body_limits(body)),
        _ => false,
    }
}

pub fn is_rate_limited(error: &GhError) -> (r: bool)
    ensures
        r == rate_limited(error@),
{
    match error {
        GhError::Status { endpoint: _, metadata, body, stderr: _ } => {
            let spent = match metadata.rate_limit_remaining {
                Some(remaining) => remaining == 0,
                None => false,
            };
            if spent || metadata.retry_after.is_some() || metadata.status == 429 {
                return true;
            }
            if metadata.status != 403 {
                return false;
            }
            let body = str_to_lower(body.as_str());
            str_contains(body.as_str(), "secondary rate limit") || str_contains(
                body.as_str(),
                "abuse detection",
            )
        },
        _ => false,
    }
}

// ---------------------------------------------------------------------------
// Growing delays
// ---------------------------------------------------------------------------

/// The number of doublings after `attempts` attempts, `most` at the most.
pub open spec fn doublings(attempts: u32, most: nat) -> nat {
    if attempts == 0 {
        0
    } else if attempts - 1 < most {
        (attempts - 1) as nat
    } else {
        most
    }
}

fn count_doublings(attempts: u32, most: u32) -> (r: u32)
    ensures
        r == doublings(attempts, most as nat),
        r <= most,
{
    if attempts == 0 {
        0
    } else if attempts - 1 < most {
        attempts - 1
    } else {
        most
    }
}

fn doubled(base: u64, times: u32) -> (r: u64)
    requires
        base <= 1000,
        times <= 10,
    ensures
        r == base * pow2(times as nat),
{
    let mut r: u64 = base;
    let mut i: u32 = 0;
    proof {
        lemma2_to64();
    }
    assert(base * pow2(0) == base);
    while i < times
        invariant
            i <= times <= 10,
            base <= 1000,
            r == base * pow2(i as nat),
        decreases times - i,
    {
        proof {
            let e = i as nat;
            lemma2_to64();
            lemma_pow2_unfold((e + 1) as nat);
            lemma_pow2_strictly_increases(e, 10);
            let p = pow2(e) as int;
            assert(base * p <= 1000 * 1024) by (nonlinear_arith)
                requires
                    0 <= base <= 1000,
                    0 <= p <= 1024,
            ;
            assert(base * (2 * p) == 2 * (base * p)) by (nonlinear_arith);
        }
        r = r * 2;
        i += 1;
    }
    r
}

/// How long a discovery waits where GitHub does not say: half a minute, doubled
/// with each attempt up to sixteen minutes.
pub open spec fn discovery_backoff(attempts: u32) -> Duration {
    Duration { seconds: (30 * pow2(doublings(attempts, 5))) as u64, nanos: 0 }
}

/// How long a discovery that failed waits.
pub open spec fn discovery_delay(error: GhErrorModel, attempts: u32, now: int) -> Duration {
    match asked_delay(error, now) {
        Some(delay) => delay,
        None => discovery_backoff(attempts),
    }
}

pub fn delay_discovery(error: &GhError, attempts: u32, now: i64) -> (r: Duration)
    ensures
        r == discovery_delay(error@, attempts, now as int),
{
    match retry_delay_for_gh_error(error, now) {
        Some(delay) => delay,
        None => Duration::from_secs(doubled(30, count_doublings(attempts, 5))),
    }
}

/// The least delay, in seconds, after `attempts` launches of a review command:
/// half a minute, doubled with each launch up to five minutes.
pub open spec fn failure_base(attempts: u32) -> u64 {
    let seconds = 30 * pow2(doublings(attempts, 4));
    if seconds < 300 {
        seconds as u64
    } else {
        300
    }
}

/// The most that chance adds to the delay, in seconds.
pub open spec fn failure_spread(attempts: u32) -> u64 {
    (failure_base(attempts) / 5 + 1) as u64
}

pub fn failure_seconds(attempts: u32) -> (r: (u64, u64))
    ensures
        r.0 == failure_base(attempts),
        r.1 == failure_spread(attempts),
        30 <= r.0 <= 300,
{
    let doubled_seconds = doubled(30, count_doublings(attempts, 4));
    proof {
        lemma_pow2_pos(doublings(attempts, 4));
        let p = pow2(doublings(attempts, 4)) as int;
        assert(30 * p >= 30) by (nonlinear_arith)
            requires
                p >= 1,
        ;
    }
    let base: u64 = if doubled_seconds < 300 {
        doubled_seconds
    } else {
        300
    };
    (base, base / 5 + 1)
}

/// The delay after a failure, with what chance adds.
pub open spec fn failure_delay(attempts: u32, jitter: u64) -> Duration {
    Duration { seconds: (failure_base(attempts) + jitter) as u64, nanos: 0 }
}

// ---------------------------------------------------------------------------
// Failed review commands
// ---------------------------------------------------------------------------

/// `random_range` of the generator that `rand::rng` gives, on the numbers from
/// zero to `limit`. Which of them comes is left to chance. A system without a
/// source of randomness makes `rand::rng` panic, which no argument decides.
#[verifier::external_body]
fn random_up_to(limit: u64) -> (r: u64)
    ensures
        r <= limit,
{
    rand::Rng::random_range(&mut rand::rng(), 0..=limit)
}

/// Records that the command of a running action failed. It is due again after
/// a delay to which chance added `jitter` seconds.
pub fn fail_command(
    db: &mut Database,
    action: &ReviewAction,
    error: &str,
    jitter: u64,
    now: Timestamp,
) -> (r: Option<ActionStatus>)
    requires
        jitter <= failure_spread(action.attempts),
        now.wf(),
        now.nanos < NANOS_PER_SECOND,
        has_date(millis_after(now, failure_delay(action.attempts, jitter))),
    ensures
        (final(db)@, r) == old(db)@.fail_action(
            action.id,
            error@,
            millis_after(now, failure_delay(action.attempts, jitter)) as i64,
            now.in_millis() as i64,
        ),
{
    let (base, _) = failure_seconds(action.attempts);
    let delay = Duration::from_secs(base + jitter);
    match after(now, delay) {
        Some(retry_at) => db.fail_action(action.id, error, retry_at, now.millis()),
        None => None,
    }
}

/// Records that the command of a running action failed. The delay grows with
/// the attempts, and chance adds up to a fifth of it and a second.
pub fn record_command_failure(
    db: &mut Database,
    action: &ReviewAction,
    error: &str,
    now: Timestamp,
) -> (r: Option<ActionStatus>)
    requires
        now.wf(),
        now.nanos < NANOS_PER_SECOND,
        has_date(
            millis_after(now, failure_delay(action.attempts, failure_spread(action.attempts))),
        ),
    ensures
        exists|jitter: u64|
            jitter <= failure_spread(action.attempts) && (final(db)@, r) == old(db)@.fail_action(
                action.id,
                error@,
                (#[trigger] millis_after(now, failure_delay(action.attempts, jitter))) as i64,
                now.in_millis() as i64,
            ),
{
    let (_, spread) = failure_seconds(action.attempts);
    let jitter = random_up_to(spread);
    fail_command(db, action, error, jitter, now)
}

// ---------------------------------------------------------------------------
// Owners of leases
// ---------------------------------------------------------------------------

/// The name of a lease owner: a process, and what makes it unlike any other.
pub open spec fn owner_text(process: u32, unique: Seq<char>) -> Seq<char> {
    decimal(process as nat) + ":"@ + unique
}

pub fn name_owner(process: u32, unique: &str) -> (r: String)
    ensures
        r@ == owner_text(process, unique@),
{
    let mut r = u64_text(process as u64);
    r.append(":");
    r.append(unique);
    r
}

/// `uuid::Uuid::new_v4`, printed with hyphens: thirty-six characters, left to
/// chance. A system without a source of randomness makes it panic, which no
/// argument decides.
#[verifier::external_body]
fn new_uuid() -> (r: String)
    ensures
        r@.len() == 36,
{
    uuid::Uuid::new_v4().to_string()
}

/// A name that no other daemon has.
pub fn lease_owner(process: u32) -> (r: String)
    ensures
        exists|unique: Seq<char>|
            unique.len() == 36 && r@ == #[trigger] owner_text(process, unique),
{
    let unique = new_uuid();
    name_owner(process, unique.as_str())
}

// ---------------------------------------------------------------------------
// Laws
// ---------------------------------------------------------------------------

/// The delay after a failure lies between half a minute and six minutes and a
/// second, and without the part of chance it never shrinks with the attempts.
pub proof fn failures_wait_longer(attempts: u32, more: u32, jitter: u64)
    requires
        attempts <= more,
        jitter <= failure_spread(attempts),
    ensures
        30 <= failure_delay(attempts, jitter).seconds <= 361,
        failure_base(attempts) <= failure_base(more),
{
    lemma2_to64();
    let a = doublings(attempts, 4);
    let b = doublings(more, 4);
    lemma_pow2_pos(a);
    if a < b {
        lemma_pow2_strictly_increases(a, b);
    }
    let p = pow2(a) as int;
    let q = pow2(b) as int;
    assert(30 <= 30 * p <= 30 * q) by (nonlinear_arith)
        requires
            1 <= p <= q,
    ;
}

/// What GitHub asks for goes before the delay of the daemon's own.
pub proof fn asked_delay_wins(error: GhErrorModel, attempts: u32, now: int)
    ensures
        error.metadata() matches Some(m) ==> (m.retry_after matches Some(delay) ==> discovery_delay(
            error,
            attempts,
            now,
        ) == delay),
        error.metadata() is None ==> discovery_delay(error, attempts, now) == discovery_backoff(
            attempts,
        ),
{
}

/// Without a `Retry-After`, GitHub asks to wait only where the rate limit is spent,
/// and until it is reset; the times of the reset that come with every other answer
/// mean nothing. Other errors ask for nothing.
pub proof fn only_spent_limits_ask_to_wait(
    endpoint: Seq<char>,
    metadata: MetadataModel,
    body: Seq<char>,
    stderr: Seq<char>,
    now: int,
)
    requires
        now >= 0,
    ensures
        ({
            let asked = asked_delay(
                GhErrorModel::Status { endpoint, metadata, body, stderr },
                now,
            );
            &&& metadata.retry_after is Some ==> asked == metadata.retry_after
            &&& metadata.retry_after is None && metadata.rate_limit_remaining != Some(0u64)
                ==> asked is None
            &&& metadata.retry_after is None && metadata.rate_limit_reset is None ==> asked is None
            &&& metadata.retry_after is None && metadata.rate_limit_remaining == Some(0u64) ==> (
            metadata.rate_limit_reset matches Some(reset) ==> (asked matches Some(delay)
                && delay.nanos == 0 && if reset >= now {
                now + delay.seconds == reset
            } else {
                delay.seconds == 0
            }))
        }),
{
}

/// An error that is no answer of GitHub asks for no delay and reaches no limit.
pub proof fn errors_without_an_answer_ask_nothing(error: GhErrorModel, now: int)
    requires
        !(error is Status),
    ensures
        asked_delay(error, now) is None,
        !rate_limited(error),
{
}

/// A rate limit is reached where it is spent, where GitHub says when to try again,
/// where it answers with status 429, or where a refusal speaks of a limit in
/// whatever case.
pub proof fn limits_are_told_by_the_answer(
    endpoint: Seq<char>,
    metadata: MetadataModel,
    body: Seq<char>,
    stderr: Seq<char>,
)
    ensures
        rate_limited(GhErrorModel::Status { endpoint, metadata, body, stderr }) <==> {
            ||| metadata.rate_limit_remaining == Some(0u64)
            ||| metadata.retry_after is Some
            ||| metadata.status == 429
            ||| metadata.status == 403 && exists|i: int|
                0 <= i <= body.len() - "secondary rate limit"@.len() && #[trigger] lower(
                    body,
                ).subrange(i, i + "secondary rate limit"@.len()) == "secondary rate limit"@
            ||| metadata.status == 403 && exists|i: int|
                0 <= i <= body.len() - "abuse detection"@.len() && #[trigger] lower(body).subrange(
                    i,
                    i + "abuse detection"@.len(),
                ) == "abuse detection"@
        },
{
    assert(lower(body).len() == body.len());
    found_where_it_stands(lower(body), "secondary rate limit"@);
    found_where_it_stands(lower(body), "abuse detection"@);
}

/// A discovery waits half a minute after the first attempt, and twice as long after
/// each further one, up to sixteen minutes.
pub proof fn discoveries_wait_twice_as_long(attempts: u32)
    requires
        attempts < u32::MAX,
    ensures
        discovery_backoff(attempts).nanos == 0,
        attempts <= 1 ==> discovery_backoff(attempts).seconds == 30,
        attempts >= 1 ==> discovery_backoff((attempts + 1) as u32).seconds == if 2
            * discovery_backoff(attempts).seconds < 960 {
            2 * discovery_backoff(attempts).seconds
        } else {
            960
        },
{
    lemma2_to64();
}

/// A discovery waits as long as GitHub asks, and else as long as the daemon would.
pub proof fn discoveries_wait_as_asked(error: GhErrorModel, attempts: u32, now: int)
    ensures
        asked_delay(error, now) matches Some(delay) ==> discovery_delay(error, attempts, now)
            == delay,
        asked_delay(error, now) is None ==> discovery_delay(error, attempts, now)
            == discovery_backoff(attempts),
{
}

/// A review command that failed is launched again after half a minute at the least,
/// twice as long after each further launch, up to five minutes; chance adds up to a
/// fifth and a second.
pub proof fn failures_wait_twice_as_long(attempts: u32, jitter: u64)
    requires
        attempts < u32::MAX,
        jitter <= failure_spread(attempts),
    ensures
        attempts <= 1 ==> failure_base(attempts) == 30,
        attempts >= 1 ==> failure_base((attempts + 1) as u32) == if 2 * failure_base(attempts)
            < 300 {
            2 * failure_base(attempts)
        } else {
            300
        },
        5 * (failure_spread(attempts) - 1) <= failure_base(attempts) < 5 * failure_spread(attempts),
        failure_delay(attempts, jitter).seconds == failure_base(attempts) + jitter,
        failure_delay(attempts, jitter).nanos == 0,
{
    lemma2_to64();
    failures_wait_longer(attempts, attempts, jitter);
}

} // verus!
