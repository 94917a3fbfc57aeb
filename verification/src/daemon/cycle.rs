//! The cycle of the daemon: poll, discover, refresh, dispatch, sleep.

use vstd::prelude::*;
use crate::cli::Mode;
use crate::daemon::retry::{asked_delay, is_rate_limited, rate_limited, retry_delay_for_gh_error};
use crate::daemon::HOST;
use crate::db::laws::live_lease_is_not_stolen;
use crate::db::notifications::{page_dated, page_model};
use crate::db::overview::NINETY_DAYS;
use crate::db::registry::opt_str;
use crate::db::rows::{DbError, PollModel, PollState};
use crate::db::{Database, State};
use crate::github::client::{NotificationPoll, PollModel as AnswerModel};
use crate::github::{GhError, GhErrorModel};
use crate::model::{opt_model, Notification, NotificationModel, Viewer, ViewerModel};
use crate::text::opt_text;
use crate::time::{
    has_date, instant_of, rfc3339_of, Duration, Timestamp, NANOS_PER_SECOND, YEAR_0_SECONDS,
    YEAR_9999_SECONDS,
};

verus! {

/// The milliseconds that a lease lasts.
pub const LEASE_MILLIS: i64 = 90_000;

/// The seconds between two renewals of a lease.
pub const LEASE_HEARTBEAT: u64 = 30;

/// The longest sleep between two looks at the flags, in milliseconds.
pub const NAP_MILLIS: u64 = 200;

/// The seconds until the daemon looks again for a registered repository.
pub const IDLE_SECONDS: u64 = 1;

// ---------------------------------------------------------------------------
// Start
// ---------------------------------------------------------------------------

/// The state after a daemon started for a viewer, and whether it may run. Work
/// that an earlier daemon left running is put back, and old rows are deleted.
pub open spec fn started(
    state: State,
    viewer: ViewerModel,
    owner: Seq<char>,
    now: i64,
) -> Result<(State, bool), DbError> {
    match state.acquire_lease(
        "github.com"@,
        viewer.id,
        viewer.login,
        owner,
        now,
        LEASE_MILLIS,
    ) {
        Err(error) => Err(error),
        Ok((leased, false)) => Ok((leased, false)),
        Ok((leased, true)) => Ok(
            (
                leased.recover_running_actions(
                    "github.com"@,
                    viewer.id,
                    now,
                    now,
                ).recover_running_discoveries(
                    "github.com"@,
                    viewer.id,
                    now,
                    now,
                ).prune_older_than((now - NINETY_DAYS) as i64),
                true,
            ),
        ),
    }
}

/// Takes the lease of a viewer for a daemon, and tidies up where it got it.
pub fn start_daemon(db: &mut Database, viewer: &Viewer, owner: &str, now: i64) -> (r: Result<
    bool,
    DbError,
>)
    requires
        has_date(now - NINETY_DAYS),
    ensures
        match r {
            Ok(may_run) => started(old(db)@, viewer@, owner@, now) == Ok::<(State, bool), DbError>(
                (final(db)@, may_run),
            ),
            Err(error) => started(old(db)@, viewer@, owner@, now) == Err::<(State, bool), DbError>(
                error,
            ) && *final(db) == *old(db),
        },
{
    match db.acquire_lease(HOST, viewer.id, viewer.login.as_str(), owner, now, LEASE_MILLIS) {
        Err(error) => Err(error),
        Ok(false) => Ok(false),
        Ok(true) => {
            let _ = db.recover_running_actions(HOST, viewer.id, now, now);
            let _ = db.recover_running_discoveries(HOST, viewer.id, now, now);
            let _ = db.prune_90_days(now);
            Ok(true)
        },
    }
}

/// What the operator is told when another daemon holds the lease.
pub fn lease_taken_message(viewer: &Viewer) -> (r: String)
    ensures
        r@ == "another github-reviews daemon is already running for "@ + viewer.login@,
{
    let mut r = "another github-reviews daemon is already running for ".to_owned();
    r.append(viewer.login.as_str());
    r
}

// ---------------------------------------------------------------------------
// Bootstraps
// ---------------------------------------------------------------------------

/// The notifications of a registered repository are still to be read.
pub fn bootstrap_due(db: &Database, viewer_id: i64, repository_id: i64) -> (r: bool)
    ensures
        r == (db@.bootstrap_pending("github.com"@, viewer_id, repository_id) == Some(true)),
{
    match db.bootstrap_pending(HOST, viewer_id, repository_id) {
        Some(pending) => pending,
        None => false,
    }
}

/// How long nothing more is asked of GitHub after a bootstrap failed, where a
/// rate limit is the reason.
pub open spec fn bootstrap_pause(error: GhErrorModel, interval: Duration, now: int) -> Option<
    Duration,
> {
    if rate_limited(error) {
        match asked_delay(error, now) {
            Some(delay) => Some(delay),
            None => Some(interval),
        }
    } else {
        None
    }
}

pub fn pause_after_bootstrap(error: &GhError, interval: Duration, now: i64) -> (r: Option<Duration>)
    ensures
        r == bootstrap_pause(error@, interval, now as int),
{
    if !is_rate_limited(error) {
        return None;
    }
    match retry_delay_for_gh_error(error, now) {
        Some(delay) => Some(delay),
        None => Some(interval),
    }
}

// ---------------------------------------------------------------------------
// Polls
// ---------------------------------------------------------------------------

/// The instant that a high-water mark stands for.
pub open spec fn mark_of(text: Option<Seq<char>>) -> Option<Timestamp> {
    match text {
        None => None,
        Some(text) => match Timestamp::of(instant_of(text)) {
            Some(mark) => if mark.wf() {
                Some(mark)
            } else {
                None
            },
            None => None,
        },
    }
}

/// Reads a high-water mark. A text that is no instant counts as none.
pub fn read_mark(text: Option<&str>) -> (r: Option<Timestamp>)
    ensures
        r == mark_of(opt_str(text)),
        r matches Some(mark) ==> mark.wf(),
{
    match text {
        None => None,
        Some(text) => match Timestamp::parse(text) {
            Some(mark) => if mark.is_wf() {
                Some(mark)
            } else {
                None
            },
            None => None,
        },
    }
}

/// The latest change among notifications.
pub open spec fn latest(page: Seq<(NotificationModel, Seq<char>)>) -> Option<Timestamp>
    decreases page.len(),
{
    if page.len() == 0 {
        None
    } else {
        Timestamp::later(latest(page.drop_last()), Some(page.last().0.updated_at))
    }
}

/// The high-water mark after a poll: the latest change of all polls.
pub open spec fn next_mark(
    page: Seq<(NotificationModel, Seq<char>)>,
    previous: Option<Seq<char>>,
) -> Option<Timestamp> {
    Timestamp::later(latest(page), mark_of(previous))
}

/// The mark in words.
pub open spec fn mark_text(mark: Option<Timestamp>) -> Option<Seq<char>> {
    match mark {
        Some(mark) => rfc3339_of(mark.seconds, mark.nanos),
        None => None,
    }
}

fn find_latest(page: &Vec<(Notification, String)>) -> (r: Option<Timestamp>)
    requires
        page_dated(page@),
    ensures
        r == latest(page_model(page@)),
        r matches Some(mark) ==> mark.wf(),
{
    let ghost all = page_model(page@);
    let mut r: Option<Timestamp> = None;
    let mut i: usize = 0;
    assert(latest(all.take(0)) is None);
    while i < page.len()
        invariant
            i <= page@.len(),
            page_dated(page@),
            all == page_model(page@),
            r == latest(all.take(i as int)),
            r matches Some(mark) ==> mark.wf(),
        decreases page@.len() - i,
    {
        assert(all.take(i as int + 1).drop_last() =~= all.take(i as int));
        assert(all.take(i as int + 1).last() == all[i as int]);
        assert(page@[i as int].0.updated_at.wf());
        r = Timestamp::max_of(r, Some(page[i].0.updated_at));
        i += 1;
    }
    assert(all.take(i as int) =~= all);
    r
}

/// The high-water mark after a poll, in words. Where RFC 3339 can write it, it
/// reads back as the same instant.
pub fn next_high_water(page: &Vec<(Notification, String)>, previous: Option<&str>) -> (r: Option<
    String,
>)
    requires
        page_dated(page@),
    ensures
        opt_text(r) == mark_text(next_mark(page_model(page@), opt_str(previous))),
        r is Some <==> next_mark(page_model(page@), opt_str(previous)) is Some,
        next_mark(page_model(page@), opt_str(previous)) matches Some(mark) ==> (YEAR_0_SECONDS
            <= mark.seconds <= YEAR_9999_SECONDS && mark.nanos < NANOS_PER_SECOND ==> mark_of(
            opt_text(r),
        ) == Some(mark)),
{
    let observed = find_latest(page);
    let known = read_mark(previous);
    match Timestamp::max_of(observed, known) {
        Some(mark) => mark.to_rfc3339(),
        None => None,
    }
}

/// What a poll says of the validator, or else what was known of it.
pub open spec fn next_validator(poll: AnswerModel, previous: Option<PollModel>) -> Option<
    Seq<char>,
> {
    if poll.metadata.last_modified is Some {
        poll.metadata.last_modified
    } else {
        asked_validator(previous)
    }
}

/// The validator that a poll sends.
pub open spec fn asked_validator(previous: Option<PollModel>) -> Option<Seq<char>> {
    match previous {
        Some(state) => state.last_modified,
        None => None,
    }
}

pub open spec fn known_mark(previous: Option<PollModel>) -> Option<Seq<char>> {
    match previous {
        Some(state) => state.high_water,
        None => None,
    }
}

/// The state after a poll. Where nothing has changed, only the validator is
/// kept; otherwise the notifications are stored, together with what the next
/// poll starts from.
pub open spec fn polled(
    state: State,
    viewer_id: i64,
    poll: AnswerModel,
    page: Seq<(NotificationModel, Seq<char>)>,
    previous: Option<PollModel>,
    now: i64,
) -> State {
    if poll.not_modified {
        state.set_poll_state(
            "github.com"@,
            viewer_id,
            next_validator(poll, previous),
            known_mark(previous),
            now,
        )
    } else {
        state.commit_poll(
            "github.com"@,
            viewer_id,
            page,
            next_validator(poll, previous),
            mark_text(next_mark(page, known_mark(previous))),
            now,
        )
    }
}

fn as_text(text: &Option<String>) -> (r: Option<&str>)
    ensures
        opt_str(r) == opt_text(*text),
{
    match text {
        Some(text) => Some(text.as_str()),
        None => None,
    }
}

/// A page holds the notifications of a poll, in order.
pub open spec fn holds_poll(page: Seq<(Notification, String)>, poll: NotificationPoll) -> bool {
    &&& page.len() == poll.notifications@.len()
    &&& forall|i: int|
        0 <= i < page.len() ==> (#[trigger] page[i]).0@ == poll.notifications@[i]@
}

/// What is taken in with a poll are its notifications, no others.
pub proof fn page_holds_nothing_else(page: Seq<(Notification, String)>, poll: NotificationPoll)
    requires
        holds_poll(page, poll),
    ensures
        page_model(page).map_values(|entry: (NotificationModel, Seq<char>)| entry.0)
            == poll@.notifications,
{
    let taken = page_model(page).map_values(|entry: (NotificationModel, Seq<char>)| entry.0);
    assert(taken.len() == poll@.notifications.len());
    assert forall|i: int| 0 <= i < taken.len() implies taken[i] == poll@.notifications[i] by {
        assert(page[i].0@ == poll.notifications@[i]@);
    }
    assert(taken =~= poll@.notifications);
}

/// Takes in a poll. `page` holds its notifications, each with its raw text, and
/// `previous` is what the poll started from.
pub fn commit_notification_poll(
    db: &mut Database,
    viewer_id: i64,
    poll: &NotificationPoll,
    page: &Vec<(Notification, String)>,
    previous: &Option<PollState>,
    now: i64,
)
    requires
        page_dated(page@),
        holds_poll(page@, *poll),
    ensures
        final(db)@ == polled(
            old(db)@,
            viewer_id,
            poll@,
            page_model(page@),
            opt_model(*previous),
            now,
        ),
{
    let known_validator: Option<&str> = match previous {
        Some(state) => as_text(&state.last_modified),
        None => None,
    };
    let known_high_water: Option<&str> = match previous {
        Some(state) => as_text(&state.high_water),
        None => None,
    };
    let validator: Option<&str> = match &poll.metadata.last_modified {
        Some(value) => Some(value.as_str()),
        None => known_validator,
    };
    if poll.not_modified {
        db.set_poll_state(HOST, viewer_id, validator, known_high_water, now);
        return;
    }
    let high_water = next_high_water(page, known_high_water);
    db.commit_poll(HOST, viewer_id, page, validator, as_text(&high_water), now);
}

// ---------------------------------------------------------------------------
// Stages
// ---------------------------------------------------------------------------

/// What the daemon does in a cycle, in order.
#[derive(Clone, Copy, Debug, PartialEq, Eq, Structural)]
pub enum CycleStage {
    Poll,
    Discover,
    Refresh,
    Dispatch,
    Sleep,
}

/// What follows a stage. A cycle goes on only while GitHub answers and the
/// daemon holds its lease.
pub open spec fn stage_after(stage: CycleStage, api_available: bool, lease_lost: bool) -> CycleStage {
    if !api_available || lease_lost {
        CycleStage::Sleep
    } else {
        match stage {
            CycleStage::Poll => CycleStage::Discover,
            CycleStage::Discover => CycleStage::Refresh,
            CycleStage::Refresh => CycleStage::Dispatch,
            CycleStage::Dispatch => CycleStage::Sleep,
            CycleStage::Sleep => CycleStage::Sleep,
        }
    }
}

pub fn next_stage(stage: CycleStage, api_available: bool, lease_lost: bool) -> (r: CycleStage)
    ensures
        r == stage_after(stage, api_available, lease_lost),
{
    if !api_available || lease_lost {
        return CycleStage::Sleep;
    }
    match stage {
        CycleStage::Poll => CycleStage::Discover,
        CycleStage::Discover => CycleStage::Refresh,
        CycleStage::Refresh => CycleStage::Dispatch,
        CycleStage::Dispatch => CycleStage::Sleep,
        CycleStage::Sleep => CycleStage::Sleep,
    }
}

/// The most reviews that may run at once, where one more may be started. A
/// synchronous daemon starts one in a cycle, and waits for it.
pub open spec fn review_limit(
    mode: Mode,
    max_concurrency: usize,
    workers: usize,
    dispatched: usize,
) -> Option<usize> {
    match mode {
        Mode::Sync => if dispatched == 0 {
            Some(1)
        } else {
            None
        },
        Mode::Async => if workers < max_concurrency {
            Some(max_concurrency)
        } else {
            None
        },
    }
}

/// Decides whether one more review is started, with `workers` running and
/// `dispatched` started in this cycle.
pub fn dispatch_limit(
    mode: Mode,
    max_concurrency: usize,
    workers: usize,
    dispatched: usize,
) -> (r: Option<usize>)
    ensures
        r == review_limit(mode, max_concurrency, workers, dispatched),
{
    match mode {
        Mode::Sync => if dispatched == 0 {
            Some(1)
        } else {
            None
        },
        Mode::Async => if workers < max_concurrency {
            Some(max_concurrency)
        } else {
            None
        },
    }
}

// ---------------------------------------------------------------------------
// Waiting and stopping
// ---------------------------------------------------------------------------

/// The daemon may go on.
pub open spec fn goes_on(signals: usize, lease_lost: bool) -> bool {
    signals == 0 && !lease_lost
}

/// The daemon begins another cycle.
pub fn keeps_running(signals: usize, lease_lost: bool) -> (r: bool)
    ensures
        r == goes_on(signals, lease_lost),
        r == (signals == 0 && !lease_lost),
{
    signals == 0 && !lease_lost
}

/// How long the daemon sleeps after a cycle that took `elapsed`: until the
/// interval is over, or what GitHub asks for where that is longer.
pub open spec fn cycle_delay(interval: Duration, server: Option<Duration>, elapsed: Duration) -> Duration {
    (match server {
        Some(asked) => interval.longer(asked),
        None => interval,
    }).minus(elapsed)
}

pub fn delay_cycle(interval: Duration, server: Option<Duration>, elapsed: Duration) -> (r: Duration)
    requires
        interval.wf(),
        elapsed.wf(),
        server matches Some(asked) ==> asked.wf(),
    ensures
        r == cycle_delay(interval, server, elapsed),
        r.wf(),
{
    let whole = match server {
        Some(asked) => interval.max(asked),
        None => interval,
    };
    whole.saturating_sub(elapsed)
}

/// A fifth of a second.
pub open spec fn nap() -> Duration {
    Duration { seconds: 0, nanos: 200_000_000 }
}

/// The next part of a sleep of which `left` is left, unless it is over or the
/// daemon stops.
pub open spec fn sleep_part(signals: usize, lease_lost: bool, left: Duration) -> Option<Duration> {
    if signals > 0 || lease_lost || (left.seconds == 0 && left.nanos == 0) {
        None
    } else {
        Some(left.shorter(nap()))
    }
}

pub fn next_sleep(signals: usize, lease_lost: bool, left: Duration) -> (r: Option<Duration>)
    ensures
        r == sleep_part(signals, lease_lost, left),
{
    if signals > 0 || lease_lost || left.is_zero() {
        return None;
    }
    let span = Duration::from_millis(NAP_MILLIS);
    assert(span == nap());
    Some(left.min(span))
}

/// What the keeper of the lease does next.
#[derive(Clone, Copy, Debug, PartialEq, Eq, Structural)]
pub enum Heartbeat {
    Stop,
    Sleep(Duration),
    Renew,
}

/// What the keeper of the lease does next.
pub open spec fn beat(stop: bool, left: Duration) -> Heartbeat {
    if stop {
        Heartbeat::Stop
    } else if left.seconds == 0 && left.nanos == 0 {
        Heartbeat::Renew
    } else {
        Heartbeat::Sleep(left.shorter(nap()))
    }
}

/// What the keeper of the lease does, with `left` until the next renewal.
pub fn heartbeat(stop: bool, left: Duration) -> (r: Heartbeat)
    ensures
        r == beat(stop, left),
        r == (if stop {
            Heartbeat::Stop
        } else if left.seconds == 0 && left.nanos == 0 {
            Heartbeat::Renew
        } else {
            Heartbeat::Sleep(left.shorter(nap()))
        }),
{
    if stop {
        return Heartbeat::Stop;
    }
    if left.is_zero() {
        return Heartbeat::Renew;
    }
    let span = Duration::from_millis(NAP_MILLIS);
    assert(span == nap());
    Heartbeat::Sleep(left.min(span))
}

/// The lease was not renewed.
pub open spec fn not_renewed(renewed: Option<bool>) -> bool {
    renewed != Some(true)
}

/// The lease is lost unless its renewal succeeded. `renewed` is `None` where it
/// could not be tried.
pub fn lease_is_lost(renewed: Option<bool>) -> (r: bool)
    ensures
        r == not_renewed(renewed),
        r == (renewed != Some(true)),
{
    match renewed {
        Some(kept) => !kept,
        None => true,
    }
}

/// The daemon ends with an error.
pub open spec fn ends_badly(lease_lost: bool, forced_abort: bool) -> bool {
    lease_lost && !forced_abort
}

/// How the daemon ends: with an error where it lost its lease, but not where
/// the operator made it abort.
pub fn end_daemon(lease_lost: bool, forced_abort: bool) -> (r: Result<(), &'static str>)
    ensures
        r is Err <==> ends_badly(lease_lost, forced_abort),
        r is Err <==> lease_lost && !forced_abort,
        r matches Err(message) ==> message@
            == "daemon lease was lost; stopped before another daemon could take over"@,
{
    if lease_lost && !forced_abort {
        return Err("daemon lease was lost; stopped before another daemon could take over");
    }
    Ok(())
}

// ---------------------------------------------------------------------------
// Laws
// ---------------------------------------------------------------------------

/// The high-water mark never goes back, and no change of the poll is later.
pub proof fn mark_never_goes_back(
    page: Seq<(NotificationModel, Seq<char>)>,
    previous: Option<Seq<char>>,
    i: int,
)
    requires
        0 <= i < page.len(),
    ensures
        next_mark(page, previous) is Some,
        page[i].0.updated_at.no_later_than(next_mark(page, previous)->0),
        mark_of(previous) matches Some(mark) ==> mark.no_later_than(
            next_mark(page, previous)->0,
        ),
{
    latest_is_latest(page, i);
}

proof fn latest_is_latest(page: Seq<(NotificationModel, Seq<char>)>, i: int)
    requires
        0 <= i < page.len(),
    ensures
        latest(page) is Some,
        page[i].0.updated_at.no_later_than(latest(page)->0),
    decreases page.len(),
{
    if i < page.len() - 1 {
        latest_is_latest(page.drop_last(), i);
        assert(page.drop_last()[i] == page[i]);
    }
}

/// A poll that finds nothing leaves the mark as it was.
pub proof fn empty_poll_keeps_the_mark(previous: Option<Seq<char>>)
    ensures
        next_mark(seq![], previous) == mark_of(previous),
{
}

/// A lease lasts as long as three heartbeats.
pub proof fn lease_outlasts_its_heartbeat()
    ensures
        3 * LEASE_HEARTBEAT * 1000 <= LEASE_MILLIS,
{
}

/// The interval that GitHub asks for is kept.
pub proof fn server_interval_is_kept(interval: Duration, asked: Duration, elapsed: Duration)
    requires
        interval.wf(),
        asked.wf(),
        elapsed.wf(),
    ensures
        cycle_delay(interval, Some(asked), elapsed).total() + elapsed.total() >= asked.total(),
        cycle_delay(interval, Some(asked), elapsed).total() + elapsed.total() >= interval.total(),
{
    let whole = interval.longer(asked);
    assert(whole.total() >= asked.total() && whole.total() >= interval.total());
}

/// Only one daemon runs for a viewer at a time: while the lease of one is live,
/// another is not started, and the state stays as it is.
pub proof fn second_daemon_does_not_start(
    state: State,
    viewer: ViewerModel,
    owner: Seq<char>,
    now: i64,
    i: int,
)
    requires
        state.wf(),
        0 <= i < state.leases.len(),
        state.leases[i].host == "github.com"@,
        state.leases[i].viewer_id == viewer.id,
        state.leases[i].owner != owner,
        now < state.leases[i].expires_at,
    ensures
        started(state, viewer, owner, now) matches Ok((after, may_run)) ==> !may_run && after
            == state,
{
    live_lease_is_not_stolen(state, i, viewer.login, owner, now, LEASE_MILLIS);
}

} // verus!
