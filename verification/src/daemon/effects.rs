//! What a cycle of the daemon leaves behind, told row by row.

use vstd::prelude::*;
use crate::cli::Mode;
use crate::daemon::cycle::{
    beat, bootstrap_pause, cycle_delay, ends_badly, goes_on, latest, mark_of, mark_text, next_mark,
    not_renewed, polled, review_limit, sleep_part, started, CycleStage, Heartbeat, LEASE_MILLIS,
};
use crate::daemon::discovery::{
    begun, found_pull, names_beyond, not_read, target_of, unreported, Batch, Discovered,
    DiscoveryStepModel, SkipModel,
};
use crate::daemon::prepare::{settles, RequestModel, StageModel, StepModel, VerdictModel};
use crate::daemon::refresh::{
    author_of, depth_of, due_in_cycle, ended_refresh, refresh_begun, taken_in, RefreshStepModel,
    Refreshed,
};
use crate::daemon::registration_in;
use crate::daemon::report::retried;
use crate::daemon::retry::{
    asked_delay, discovery_delay, failure_base, failure_delay, failure_spread, rate_limited,
};
use crate::daemon::round::{
    cycle_begun, due_from, CycleAnswerModel, CycleModel, CycleRequestModel, Place,
};
use crate::daemon::shutdown::{
    claimed_for_processing, confirmed, effect_after, ShutdownModel, SignalEffect,
};
use crate::db::action_effects::{parked_for, recovery_fails_what_was_running};
use crate::db::notification_effects::{
    claims_take_the_longest_due, discoveries_end_by_their_notification,
    dropping_changes_its_own_row, found_by, pages_queue_every_review_request, watches,
    watching_replaces_its_own_row,
};
use crate::db::overview_effects::lists_hold_every_row;
use crate::db::registry_effects::{
    leases_are_kept_by_their_owner, leases_are_taken_when_free, pruning_removes_what_is_over,
    settings_replace_their_own_row,
};
use crate::db::rows::{
    ActionModel, ActionStatus, DbError, DiscoveryModel, DiscoveryStatus, EnqueueResult, FoundModel,
    LeaseModel, PollModel, RegistrationModel, TrackedModel,
};
use crate::db::State;
use crate::github::client::PollModel as AnswerModel;
use crate::github::{pull_request_of, GhError, GhErrorModel};
use crate::model::{NotificationModel, PullModel, PullRequestState, ViewerModel};
use crate::number::{decimal, int_text};
use crate::time::{Duration, Timestamp};

verus! {

// ---------------------------------------------------------------------------
// Looking for pull requests
// ---------------------------------------------------------------------------

/// A registration is found by the number of its repository, and none exactly where
/// no registration has that number.
pub proof fn registrations_are_found_by_number(registrations: Seq<RegistrationModel>, id: i64)
    ensures
        match registration_in(registrations, id) {
            Some(found) => found.repository.repository.id == id && registrations.contains(found),
            None => forall|i: int|
                0 <= i < registrations.len() ==> (
                #[trigger] registrations[i]).repository.repository.id != id,
        },
    decreases registrations.len(),
{
    if registrations.len() > 0 {
        let front = registrations.drop_last();
        if registrations.last().repository.repository.id == id {
            assert(registrations[registrations.len() - 1] == registrations.last());
        } else {
            registrations_are_found_by_number(front, id);
            if let Some(found) = registration_in(front, id) {
                let k = front.index_of(found);
                assert(front[k] == registrations[k]);
            } else {
                assert forall|i: int| 0 <= i < registrations.len() implies (
                #[trigger] registrations[i]).repository.repository.id != id by {
                    if i < front.len() {
                        assert(front[i] == registrations[i]);
                    }
                }
            }
        }
    }
}

/// A notification leads to the pull request with the number in its URL, under the
/// name that its repository is registered with. It leads nowhere exactly where the
/// repository is not registered, or the notification has no such URL.
pub proof fn notifications_lead_to_their_pull_request(
    registrations: Seq<RegistrationModel>,
    found: FoundModel,
)
    ensures
        match target_of(registrations, found) {
            Ok((full_name, number)) => {
                &&& exists|i: int|
                    0 <= i < registrations.len() && (
                    #[trigger] registrations[i]).repository.repository.id == found.repository_id
                        && registrations[i].repository.repository.full_name == full_name
                &&& found.notification.subject_url matches Some(url) && (
                pull_request_of(url) matches Ok((_, n)) && n == number)
            },
            Err(SkipModel::Unregistered) => forall|i: int|
                0 <= i < registrations.len() ==> (
                #[trigger] registrations[i]).repository.repository.id != found.repository_id,
            Err(SkipModel::NoUrl) => found.notification.subject_url is None,
            Err(SkipModel::Malformed(error)) => found.notification.subject_url matches Some(url)
                && pull_request_of(url) == Err::<(Seq<char>, nat), GhErrorModel>(error),
        },
{
    registrations_are_found_by_number(registrations, found.repository_id);
    if let Some(registration) = registration_in(registrations, found.repository_id) {
        let k = registrations.index_of(registration);
        assert(registrations[k] == registration);
    }
}

/// A step claims the discovery that is due for longest. Where it leads to a pull
/// request, that is read next and the discovery keeps running; where it leads
/// nowhere, the discovery is completed. Nothing else changes.
pub proof fn steps_claim_one_discovery(
    state: State,
    viewer_id: i64,
    registrations: Seq<RegistrationModel>,
    now: i64,
)
    ensures
        match (
            begun(state, viewer_id, registrations, now),
            state.claim_pending_discovery("github.com"@, viewer_id, now),
        ) {
            (Ok((next, DiscoveryStepModel::Idle)), Ok((_, None))) => next == state,
            (
                Ok((next, DiscoveryStepModel::Read { discovery, full_name, number })),
                Ok((claimed, Some(found))),
            ) => {
                &&& next == claimed
                &&& discovery == found
                &&& target_of(registrations, found) == Ok::<(Seq<char>, nat), SkipModel>(
                    (full_name, number),
                )
            },
            (Ok((next, DiscoveryStepModel::Skipped(id, why))), Ok((claimed, Some(found)))) => {
                &&& id == found.notification_id
                &&& target_of(registrations, found) == Err::<(Seq<char>, nat), SkipModel>(why)
                &&& next == (State { discoveries: next.discoveries, ..state })
                &&& next.discoveries.len() == claimed.discoveries.len()
                &&& forall|i: int|
                    0 <= i < claimed.discoveries.len() ==> {
                        let m = #[trigger] claimed.discoveries[i];
                        next.discoveries[i] == if found_by(m, "github.com"@, viewer_id, id)
                            && m.status == DiscoveryStatus::Running {
                            DiscoveryModel {
                                status: DiscoveryStatus::Completed,
                                completed_at: Some(now),
                                updated_at: now,
                                last_error: None,
                                ..m
                            }
                        } else {
                            m
                        }
                    }
            },
            (Err(error), Err(other)) => error == other,
            _ => false,
        },
{
    claims_take_the_longest_due(state, "github.com"@, viewer_id, now);
    if let Ok((claimed, Some(found))) = state.claim_pending_discovery(
        "github.com"@,
        viewer_id,
        now,
    ) {
        assert forall|i: int| 0 <= i < claimed.discoveries.len() implies ({
            let m = #[trigger] claimed.discoveries[i];
            claimed.complete_discovery(
                "github.com"@,
                viewer_id,
                found.notification_id,
                now,
            ).discoveries[i] == if found_by(m, "github.com"@, viewer_id, found.notification_id)
                && m.status == DiscoveryStatus::Running {
                DiscoveryModel {
                    status: DiscoveryStatus::Completed,
                    completed_at: Some(now),
                    updated_at: now,
                    last_error: None,
                    ..m
                }
            } else {
                m
            }
        }) by {
            discoveries_end_by_their_notification(
                claimed,
                "github.com"@,
                viewer_id,
                found.notification_id,
                ""@,
                now,
                now,
                i,
            );
        }
    }
}

/// The discovery of a notification is completed, and no other one changes.
pub open spec fn completes(
    before: Seq<DiscoveryModel>,
    after: Seq<DiscoveryModel>,
    viewer_id: i64,
    id: Seq<char>,
    now: i64,
) -> bool {
    &&& after.len() == before.len()
    &&& forall|i: int|
        0 <= i < before.len() ==> #[trigger] after[i] == if found_by(
            before[i],
            "github.com"@,
            viewer_id,
            id,
        ) && before[i].status == DiscoveryStatus::Running {
            DiscoveryModel {
                status: DiscoveryStatus::Completed,
                completed_at: Some(now),
                updated_at: now,
                last_error: None,
                ..before[i]
            }
        } else {
            before[i]
        }
}

/// The discovery of a notification waits until `due` with an error, and no other one
/// changes.
pub open spec fn puts_back(
    before: Seq<DiscoveryModel>,
    after: Seq<DiscoveryModel>,
    viewer_id: i64,
    id: Seq<char>,
    error: Seq<char>,
    due: i64,
    now: i64,
) -> bool {
    &&& after.len() == before.len()
    &&& forall|i: int|
        0 <= i < before.len() ==> #[trigger] after[i] == if found_by(
            before[i],
            "github.com"@,
            viewer_id,
            id,
        ) && before[i].status == DiscoveryStatus::Running {
            DiscoveryModel {
                status: DiscoveryStatus::Pending,
                due_at: due,
                completed_at: None,
                updated_at: now,
                last_error: Some(error),
                ..before[i]
            }
        } else {
            before[i]
        }
}

proof fn completing(state: State, viewer_id: i64, id: Seq<char>, now: i64)
    ensures
        ({
            let done = state.complete_discovery("github.com"@, viewer_id, id, now);
            &&& done == (State { discoveries: done.discoveries, ..state })
            &&& completes(state.discoveries, done.discoveries, viewer_id, id, now)
        }),
{
    let done = state.complete_discovery("github.com"@, viewer_id, id, now);
    assert forall|i: int| 0 <= i < state.discoveries.len() implies #[trigger] done.discoveries[i]
        == if found_by(state.discoveries[i], "github.com"@, viewer_id, id)
        && state.discoveries[i].status == DiscoveryStatus::Running {
        DiscoveryModel {
            status: DiscoveryStatus::Completed,
            completed_at: Some(now),
            updated_at: now,
            last_error: None,
            ..state.discoveries[i]
        }
    } else {
        state.discoveries[i]
    } by {
        discoveries_end_by_their_notification(
            state,
            "github.com"@,
            viewer_id,
            id,
            ""@,
            now,
            now,
            i,
        );
    }
}

proof fn putting_back(
    state: State,
    viewer_id: i64,
    id: Seq<char>,
    error: Seq<char>,
    due: i64,
    now: i64,
)
    ensures
        ({
            let back = state.defer_discovery("github.com"@, viewer_id, id, error, due, now);
            &&& back == (State { discoveries: back.discoveries, ..state })
            &&& puts_back(state.discoveries, back.discoveries, viewer_id, id, error, due, now)
        }),
{
    let back = state.defer_discovery("github.com"@, viewer_id, id, error, due, now);
    assert forall|i: int| 0 <= i < state.discoveries.len() implies #[trigger] back.discoveries[i]
        == if found_by(state.discoveries[i], "github.com"@, viewer_id, id)
        && state.discoveries[i].status == DiscoveryStatus::Running {
        DiscoveryModel {
            status: DiscoveryStatus::Pending,
            due_at: due,
            completed_at: None,
            updated_at: now,
            last_error: Some(error),
            ..state.discoveries[i]
        }
    } else {
        state.discoveries[i]
    } by {
        discoveries_end_by_their_notification(
            state,
            "github.com"@,
            viewer_id,
            id,
            error,
            due,
            now,
            i,
        );
    }
}

/// A pull request that was found is watched, with its notification, and looked at at
/// once, except where it is the viewer's own. Either way the search for it is over.
pub proof fn found_pulls_are_watched(
    state: State,
    viewer_id: i64,
    found: FoundModel,
    full_name: Seq<char>,
    pull: PullModel,
    now: i64,
)
    requires
        pull.number <= i64::MAX,
    ensures
        ({
            let (next, ended) = found_pull(state, viewer_id, found, full_name, pull, now);
            let id = found.notification_id;
            let row = TrackedModel {
                host: "github.com"@,
                viewer_id,
                repository_id: found.repository_id,
                repository_full_name: full_name,
                pull_request: pull,
                notification_id: id,
                notification_updated_at: found.notification_updated_at,
                notification: found.raw,
                active: true,
                next_check_at: now,
                updated_at: now,
            };
            &&& completes(state.discoveries, next.discoveries, viewer_id, id, now)
            &&& next == (State {
                discoveries: next.discoveries,
                tracked_pulls: next.tracked_pulls,
                ..state
            })
            &&& pull.author.id == viewer_id ==> ended == Ok::<Discovered, DbError>(Discovered::Own)
                && next.tracked_pulls == state.tracked_pulls
            &&& pull.author.id != viewer_id ==> {
                &&& ended == Ok::<Discovered, DbError>(Discovered::Watched)
                &&& exists|i: int|
                    0 <= i < next.tracked_pulls.len() && #[trigger] next.tracked_pulls[i] == row
                &&& state.tracked_pulls.len() <= next.tracked_pulls.len()
                    <= state.tracked_pulls.len() + 1
                &&& forall|i: int|
                    0 <= i < state.tracked_pulls.len() ==> #[trigger] next.tracked_pulls[i]
                        == if watches(
                        state.tracked_pulls[i],
                        "github.com"@,
                        viewer_id,
                        found.repository_id,
                        pull.id,
                    ) {
                        row
                    } else {
                        state.tracked_pulls[i]
                    }
            }
        }),
{
    let id = found.notification_id;
    let row = TrackedModel {
        host: "github.com"@,
        viewer_id,
        repository_id: found.repository_id,
        repository_full_name: full_name,
        pull_request: pull,
        notification_id: id,
        notification_updated_at: found.notification_updated_at,
        notification: found.raw,
        active: true,
        next_check_at: now,
        updated_at: now,
    };
    let next = found_pull(state, viewer_id, found, full_name, pull, now).0;
    completing(state, viewer_id, id, now);
    watching_replaces_its_own_row(state, row);
    if pull.author.id != viewer_id {
        if let Ok(watched) = state.upsert_tracked_pull_request(row) {
            completing(watched, viewer_id, id, now);
            if watched.tracked_pulls.len() > state.tracked_pulls.len() {
                assert(watched.tracked_pulls[state.tracked_pulls.len() as int] == row);
            } else {
                let k = choose|i: int|
                    0 <= i < state.tracked_pulls.len() && watches(
                        #[trigger] state.tracked_pulls[i],
                        row.host,
                        row.viewer_id,
                        row.repository_id,
                        row.pull_request.id,
                    );
                assert(watched.tracked_pulls[k] == row);
            }
        }
    }
}

/// The whole milliseconds of an instant that is given in nanoseconds.
pub open spec fn whole_millis(millis: i64, nanos: int) -> bool {
    millis * 1_000_000 <= nanos < (millis + 1) * 1_000_000
}

/// A pull request that GitHub does not have is not looked for again. One that could
/// not be read because the daemon stops is due at once; any other waits for its
/// delay. Nothing is watched in any of these.
pub proof fn unread_pulls_are_looked_for_again(
    state: State,
    viewer_id: i64,
    found: FoundModel,
    error: GhErrorModel,
    now: Timestamp,
    millis: i64,
    due: i64,
)
    requires
        ({
            let delay = discovery_delay(error, found.attempts, now.seconds as int);
            let start = now.seconds * 1_000_000_000 + now.nanos;
            &&& whole_millis(millis, start)
            &&& whole_millis(due, start + delay.seconds * 1_000_000_000 + delay.nanos)
        }),
    ensures
        ({
            let (next, ended) = not_read(state, viewer_id, found, error, now);
            let id = found.notification_id;
            let missing = error matches GhErrorModel::Status { metadata, .. } && metadata.status
                == 404;
            &&& next == (State { discoveries: next.discoveries, ..state })
            &&& missing ==> ended == Discovered::Gone && completes(
                state.discoveries,
                next.discoveries,
                viewer_id,
                id,
                millis,
            )
            &&& error is Cancelled ==> ended == Discovered::Stopped && puts_back(
                state.discoveries,
                next.discoveries,
                viewer_id,
                id,
                error.text(),
                millis,
                millis,
            )
            &&& !missing && !(error is Cancelled) ==> ended == (Discovered::Deferred {
                rate_limited: rate_limited(error),
            }) && puts_back(
                state.discoveries,
                next.discoveries,
                viewer_id,
                id,
                error.text(),
                due,
                millis,
            )
        }),
{
    let id = found.notification_id;
    let delay = discovery_delay(error, found.attempts, now.seconds as int);
    assert(millis == now.in_millis());
    assert(due == crate::time::millis_after(now, delay));
    completing(state, viewer_id, id, millis);
    putting_back(state, viewer_id, id, error.text(), millis, millis);
    putting_back(state, viewer_id, id, error.text(), due, millis);
}

/// A refused request ends the discoveries of a cycle, and so does the daemon's end;
/// after any other one the next discovery is claimed, up to a hundred.
pub proof fn refused_requests_end_the_discoveries(
    batch: Batch,
    state: State,
    viewer_id: i64,
    found: FoundModel,
    error: GhErrorModel,
    now: Timestamp,
)
    ensures
        ({
            let ended = not_read(state, viewer_id, found, error, now).1;
            let missing = error matches GhErrorModel::Status { metadata, .. } && metadata.status
                == 404;
            let next = batch.ended(ended);
            &&& error is Cancelled || (rate_limited(error) && !missing) ==> next.over
                && !next.available
            &&& !(error is Cancelled || (rate_limited(error) && !missing)) ==> next == batch
            &&& batch.goes_on() <==> !batch.over && batch.processed < 100
            &&& batch.ended(Discovered::Own) == batch
            &&& batch.ended(Discovered::Watched) == batch
            &&& batch.stepped(DiscoveryStepModel::Idle).over
            &&& batch.stepped(DiscoveryStepModel::Idle).processed == batch.processed
            &&& batch.processed < 100 ==> batch.stepped(
                DiscoveryStepModel::Skipped(found.notification_id, SkipModel::NoUrl),
            ).processed == batch.processed + 1
            &&& batch.processed < 100 ==> batch.stepped(
                DiscoveryStepModel::Read { discovery: found, full_name: seq![], number: 0 },
            ) == (Batch { processed: (batch.processed + 1) as usize, ..batch })
        }),
{
}

/// The repositories that wait for the next cycle are those that are registered now
/// and were not when the cycle began; each is reported once.
pub proof fn new_registrations_are_reported(
    all: Seq<RegistrationModel>,
    known: Seq<RegistrationModel>,
    reported: Seq<Seq<char>>,
    name: Seq<char>,
)
    ensures
        names_beyond(all, known).contains(name) <==> exists|i: int|
            0 <= i < all.len() && (#[trigger] all[i]).repository.repository.full_name == name
                && lacks_repository(known, all[i].repository.repository.id),
        unreported(names_beyond(all, known), reported).contains(name) <==> names_beyond(
            all,
            known,
        ).contains(name) && !reported.contains(name),
        unreported(names_beyond(all, known), reported).no_duplicates(),
{
    names_are_of_new_registrations(all, known, name);
    unreported_are_the_rest(names_beyond(all, known), reported, name);
    unreported_differ(names_beyond(all, known), reported);
}

/// No registration is that of the repository.
pub open spec fn lacks_repository(registrations: Seq<RegistrationModel>, id: i64) -> bool {
    forall|j: int|
        0 <= j < registrations.len() ==> (#[trigger] registrations[j]).repository.repository.id
            != id
}

proof fn names_are_of_new_registrations(
    all: Seq<RegistrationModel>,
    known: Seq<RegistrationModel>,
    name: Seq<char>,
)
    ensures
        names_beyond(all, known).contains(name) <==> exists|i: int|
            0 <= i < all.len() && (#[trigger] all[i]).repository.repository.full_name == name
                && lacks_repository(known, all[i].repository.repository.id),
    decreases all.len(),
{
    if all.len() > 0 {
        let front = all.drop_last();
        let last = all.last().repository.repository;
        names_are_of_new_registrations(front, known, name);
        registrations_are_found_by_number(known, last.id);
        let rest = names_beyond(front, known);
        let whole = names_beyond(all, known);
        if let Some(found) = registration_in(known, last.id) {
            let k = known.index_of(found);
            assert(known[k].repository.repository.id == last.id);
            assert(!lacks_repository(known, last.id));
        } else {
            assert(lacks_repository(known, last.id));
            assert(whole == rest.push(last.full_name));
            assert(whole.last() == last.full_name);
            assert(rest.contains(name) ==> whole.contains(name)) by {
                if rest.contains(name) {
                    let k = rest.index_of(name);
                    assert(whole[k] == name);
                }
            }
            assert(last.full_name == name ==> whole.contains(name)) by {
                assert(whole[whole.len() - 1] == last.full_name);
            }
            assert(whole.contains(name) ==> rest.contains(name) || last.full_name == name) by {
                if whole.contains(name) {
                    let k = whole.index_of(name);
                    if k < rest.len() {
                        assert(rest[k] == name);
                    }
                }
            }
        }
        if exists|i: int|
            0 <= i < all.len() && (#[trigger] all[i]).repository.repository.full_name == name
                && lacks_repository(known, all[i].repository.repository.id) {
            let i = choose|i: int|
                0 <= i < all.len() && (#[trigger] all[i]).repository.repository.full_name == name
                    && lacks_repository(known, all[i].repository.repository.id);
            if i < front.len() {
                assert(front[i] == all[i]);
            }
        }
        if exists|i: int|
            0 <= i < front.len() && (#[trigger] front[i]).repository.repository.full_name == name
                && lacks_repository(known, front[i].repository.repository.id) {
            let i = choose|i: int|
                0 <= i < front.len() && (#[trigger] front[i]).repository.repository.full_name
                    == name && lacks_repository(known, front[i].repository.repository.id);
            assert(front[i] == all[i]);
        }
        assert(all[all.len() - 1] == all.last());
    }
}

proof fn unreported_are_the_rest(
    names: Seq<Seq<char>>,
    reported: Seq<Seq<char>>,
    name: Seq<char>,
)
    ensures
        unreported(names, reported).contains(name) <==> names.contains(name) && !reported.contains(
            name,
        ),
    decreases names.len(),
{
    if names.len() > 0 {
        let front = names.drop_last();
        unreported_are_the_rest(front, reported, name);
        let rest = unreported(front, reported);
        let whole = unreported(names, reported);
        assert(names.contains(name) <==> front.contains(name) || names.last() == name) by {
            if names.contains(name) {
                let k = names.index_of(name);
                if k < front.len() {
                    assert(front[k] == name);
                }
            }
            if front.contains(name) {
                let k = front.index_of(name);
                assert(names[k] == name);
            }
            assert(names[names.len() - 1] == names.last());
        }
        if !(reported.contains(names.last()) || rest.contains(names.last())) {
            assert(whole == rest.push(names.last()));
            assert(whole[whole.len() - 1] == names.last());
            if rest.contains(name) {
                let k = rest.index_of(name);
                assert(whole[k] == name);
            }
            if whole.contains(name) {
                let k = whole.index_of(name);
                if k < rest.len() {
                    assert(rest[k] == name);
                }
            }
        }
    }
}

proof fn unreported_differ(names: Seq<Seq<char>>, reported: Seq<Seq<char>>)
    ensures
        unreported(names, reported).no_duplicates(),
    decreases names.len(),
{
    if names.len() > 0 {
        unreported_differ(names.drop_last(), reported);
        let rest = unreported(names.drop_last(), reported);
        let whole = unreported(names, reported);
        if !(reported.contains(names.last()) || rest.contains(names.last())) {
            assert forall|i: int, j: int|
                0 <= i < whole.len() && 0 <= j < whole.len() && i != j implies whole[i]
                != whole[j] by {
                if i < rest.len() && j < rest.len() {
                    assert(rest[i] == whole[i] && rest[j] == whole[j]);
                } else if i < rest.len() {
                    assert(rest[i] == whole[i]);
                    assert(rest.contains(rest[i]));
                } else {
                    assert(rest[j] == whole[j]);
                    assert(rest.contains(rest[j]));
                }
            }
        }
    }
}

// ---------------------------------------------------------------------------
// Looking at watched pull requests
// ---------------------------------------------------------------------------

/// A watched pull request that was read is taken in at that time, and is due again
/// after the interval. One that GitHub does not have is no longer watched. After any
/// other failure everything is as it was.
pub proof fn refreshes_end_as_github_answers(
    state: State,
    viewer: ViewerModel,
    teams: Seq<i64>,
    trust: bool,
    registration: RegistrationModel,
    watched: TrackedModel,
    answer: Result<PullRequestState, GhError>,
    interval: Duration,
    now: Timestamp,
    after: State,
    r: Result<Refreshed, DbError>,
    millis: i64,
    due: i64,
)
    requires
        ended_refresh(
            state,
            viewer,
            teams,
            trust,
            registration,
            watched,
            answer,
            interval,
            now,
            after,
            r,
        ),
        ({
            let start = now.seconds * 1_000_000_000 + now.nanos;
            &&& whole_millis(millis, start)
            &&& whole_millis(due, start + interval.seconds * 1_000_000_000 + interval.nanos)
        }),
    ensures
        match answer {
            Ok(pull) => {
                let (taken, result) = taken_in(
                    state,
                    viewer,
                    teams,
                    trust,
                    registration,
                    watched,
                    pull@,
                    due,
                    millis,
                );
                &&& after == taken
                &&& result is Ok <==> r is Ok
                &&& result matches Ok(queued) ==> r->Ok_0 == (Refreshed::Updated { queued })
                &&& result matches Err(error) ==> r->Err_0 == error
            },
            Err(error) => {
                let missing = error@ matches GhErrorModel::Status { metadata, .. }
                    && metadata.status == 404;
                &&& r is Ok
                &&& r->Ok_0 == Refreshed::Gone <==> missing
                &&& r->Ok_0 == Refreshed::Stopped <==> error@ is Cancelled
                &&& !missing && !(error@ is Cancelled) ==> r->Ok_0 == (Refreshed::Failed {
                    rate_limited: rate_limited(error@),
                })
                &&& !missing ==> after == state
                &&& missing ==> {
                    &&& after == (State { tracked_pulls: after.tracked_pulls, ..state })
                    &&& after.tracked_pulls.len() == state.tracked_pulls.len()
                    &&& forall|i: int|
                        0 <= i < state.tracked_pulls.len() ==> #[trigger] after.tracked_pulls[i]
                            == if watches(
                            state.tracked_pulls[i],
                            "github.com"@,
                            viewer.id,
                            watched.repository_id,
                            watched.pull_request.id,
                        ) {
                            TrackedModel {
                                active: false,
                                updated_at: millis,
                                ..state.tracked_pulls[i]
                            }
                        } else {
                            state.tracked_pulls[i]
                        }
                }
            },
        },
{
    assert(millis == now.in_millis());
    assert(due == crate::time::millis_after(now, interval));
    if let Err(error) = answer {
        assert forall|i: int|
            0 <= i < state.tracked_pulls.len() && error@.has_status(
                404,
            ) implies #[trigger] after.tracked_pulls[i] == if watches(
            state.tracked_pulls[i],
            "github.com"@,
            viewer.id,
            watched.repository_id,
            watched.pull_request.id,
        ) {
            TrackedModel { active: false, updated_at: millis, ..state.tracked_pulls[i] }
        } else {
            state.tracked_pulls[i]
        } by {
            dropping_changes_its_own_row(
                state,
                "github.com"@,
                viewer.id,
                watched.repository_id,
                watched.pull_request.id,
                millis,
                i,
            );
        }
    }
}

/// A cycle looks at the pull requests that are due, in their order, up to a thousand.
pub proof fn cycles_look_at_a_thousand(state: State, viewer_id: i64, now: i64)
    ensures
        ({
            let due = state.due_pulls("github.com"@, viewer_id, now);
            let looked = due_in_cycle(state, viewer_id, now);
            &&& looked.len() == if due.len() < 1000 {
                due.len()
            } else {
                1000
            }
            &&& forall|i: int| 0 <= i < looked.len() ==> #[trigger] looked[i] == due[i]
        }),
{
}

// ---------------------------------------------------------------------------
// Cycles
// ---------------------------------------------------------------------------

/// A daemon starts exactly where no other one holds an unexpired lease for the
/// viewer, and holds one for ninety seconds from then on. What an earlier daemon left
/// running is put back, and what has been over for ninety days is gone. One that may
/// not start changes nothing.
pub proof fn starting_puts_work_back(
    state: State,
    viewer: ViewerModel,
    owner: Seq<char>,
    now: i64,
)
    requires
        state.wf(),
    ensures
        match started(state, viewer, owner, now) {
            Err(_) => now + 90_000 > 8_210_266_876_799_999 || now + 90_000
                < -8_334_601_228_800_000,
            Ok((next, may_run)) => {
                &&& may_run <==> forall|i: int|
                    0 <= i < state.leases.len() && (#[trigger] state.leases[i]).host
                        == "github.com"@ && state.leases[i].viewer_id == viewer.id
                        ==> state.leases[i].expires_at <= now || state.leases[i].owner == owner
                &&& !may_run ==> next == state
                &&& may_run ==> next.leases.contains(
                    LeaseModel {
                        host: "github.com"@,
                        viewer_id: viewer.id,
                        viewer_login: viewer.login,
                        owner,
                        expires_at: (now + 90_000) as i64,
                        updated_at: now,
                    },
                )
                &&& may_run ==> forall|m: ActionModel|
                    #[trigger] next.actions.contains(m) ==> !(m.host == "github.com"@
                        && m.viewer_id == viewer.id && m.status == ActionStatus::Running)
                &&& may_run ==> forall|m: DiscoveryModel|
                    #[trigger] next.discoveries.contains(m) ==> !(m.host == "github.com"@
                        && m.viewer_id == viewer.id && m.status == DiscoveryStatus::Running)
                &&& may_run && now >= 0 ==> forall|m: ActionModel|
                    #[trigger] next.actions.contains(m) ==> !((m.status == ActionStatus::Succeeded
                        || m.status == ActionStatus::Cancelled) && m.updated_at < now
                        - 7_776_000_000)
                &&& may_run && now >= 0 ==> forall|m: ActionModel|
                    state.actions.contains(m) && m.status != ActionStatus::Running && (m.updated_at
                        >= now - 7_776_000_000 || !(m.status == ActionStatus::Succeeded || m.status
                        == ActionStatus::Cancelled)) ==> #[trigger] next.actions.contains(m)
                &&& next.registrations == state.registrations
                &&& next.bootstraps == state.bootstraps
                &&& next.metadata == state.metadata
                &&& next.poll_states == state.poll_states
            },
        },
{
    leases_are_taken_when_free(
        state,
        "github.com"@,
        viewer.id,
        viewer.login,
        owner,
        now,
        90_000,
    );
    if let Ok((leased, true)) = state.acquire_lease(
        "github.com"@,
        viewer.id,
        viewer.login,
        owner,
        now,
        90_000,
    ) {
        let acted = leased.recover_running_actions("github.com"@, viewer.id, now, now);
        let found = acted.recover_running_discoveries("github.com"@, viewer.id, now, now);
        let cutoff = (now - 7_776_000_000) as i64;
        let next = found.prune_older_than(cutoff);
        assert(acted == (State { actions: acted.actions, ..leased }));
        assert(found == (State { discoveries: found.discoveries, ..acted }));
        assert(acted.actions.len() == leased.actions.len());
        assert(found.discoveries.len() == acted.discoveries.len());
        pruning_removes_what_is_over(found, cutoff);
        let lease = LeaseModel {
            host: "github.com"@,
            viewer_id: viewer.id,
            viewer_login: viewer.login,
            owner,
            expires_at: (now + 90_000) as i64,
            updated_at: now,
        };
        let held = choose|i: int| 0 <= i < leased.leases.len() && leased.leases[i] == lease;
        assert(next.leases[held] == lease);
        assert forall|m: ActionModel| #[trigger] next.actions.contains(m) implies !(m.host
            == "github.com"@ && m.viewer_id == viewer.id && m.status == ActionStatus::Running) by {
            assert(found.actions.contains(m));
            let k = found.actions.index_of(m);
            recovery_fails_what_was_running(leased, "github.com"@, viewer.id, now, now, k);
        }
        assert forall|m: DiscoveryModel| #[trigger] next.discoveries.contains(m) implies !(m.host
            == "github.com"@ && m.viewer_id == viewer.id && m.status
            == DiscoveryStatus::Running) by {
            assert(found.discoveries.contains(m));
            let k = found.discoveries.index_of(m);
            discoveries_end_by_their_notification(
                acted,
                "github.com"@,
                viewer.id,
                ""@,
                ""@,
                now,
                now,
                k,
            );
        }
        assert forall|m: ActionModel|
            state.actions.contains(m) && m.status != ActionStatus::Running && (m.updated_at >= now
                - 7_776_000_000 || !(m.status == ActionStatus::Succeeded || m.status
                == ActionStatus::Cancelled)) && now >= 0 implies #[trigger] next.actions.contains(
            m,
        ) by {
            let k = state.actions.index_of(m);
            assert(leased.actions[k] == m);
            recovery_fails_what_was_running(leased, "github.com"@, viewer.id, now, now, k);
            assert(found.actions[k] == m);
            assert(found.actions.contains(m));
        }
    }
}

/// The mark of the next poll is the latest change in the page or the mark before,
/// whichever is later.
pub proof fn marks_are_the_latest_change(
    page: Seq<(NotificationModel, Seq<char>)>,
    previous: Option<Seq<char>>,
)
    ensures
        ({
            let mark = next_mark(page, previous);
            &&& mark is None <==> page.len() == 0 && mark_of(previous) is None
            &&& mark == mark_of(previous) || exists|i: int|
                0 <= i < page.len() && mark == Some((#[trigger] page[i]).0.updated_at)
            &&& forall|i: int|
                0 <= i < page.len() ==> no_later((#[trigger] page[i]).0.updated_at, mark->0)
            &&& mark_of(previous) matches Some(before) ==> no_later(before, mark->0)
        }),
{
    latest_is_the_latest(page);
}

/// The first instant is not after the second.
pub open spec fn no_later(a: Timestamp, b: Timestamp) -> bool {
    a.seconds < b.seconds || (a.seconds == b.seconds && a.nanos <= b.nanos)
}

proof fn latest_is_the_latest(page: Seq<(NotificationModel, Seq<char>)>)
    ensures
        latest(page) is None <==> page.len() == 0,
        latest(page) is Some ==> exists|i: int|
            0 <= i < page.len() && latest(page) == Some((#[trigger] page[i]).0.updated_at),
        forall|i: int|
            0 <= i < page.len() ==> no_later((#[trigger] page[i]).0.updated_at, latest(page)->0),
    decreases page.len(),
{
    if page.len() > 0 {
        let front = page.drop_last();
        latest_is_the_latest(front);
        assert(page[page.len() - 1] == page.last());
        if latest(front) is Some {
            let k = choose|i: int|
                0 <= i < front.len() && latest(front) == Some((#[trigger] front[i]).0.updated_at);
            assert(front[k] == page[k]);
        }
        assert forall|i: int| 0 <= i < page.len() implies no_later(
            (#[trigger] page[i]).0.updated_at,
            latest(page)->0,
        ) by {
            if i < front.len() {
                assert(front[i] == page[i]);
            }
        }
    }
}

/// A poll keeps the validator that GitHub sent, or else the one before. Where nothing
/// has changed, it keeps the mark and touches nothing else; otherwise it stores the
/// page and moves the mark.
pub proof fn polls_keep_what_the_next_one_needs(
    state: State,
    viewer_id: i64,
    poll: AnswerModel,
    page: Seq<(NotificationModel, Seq<char>)>,
    previous: Option<PollModel>,
    now: i64,
)
    ensures
        ({
            let next = polled(state, viewer_id, poll, page, previous, now);
            let validator = match (poll.metadata.last_modified, previous) {
                (Some(sent), _) => Some(sent),
                (None, Some(before)) => before.last_modified,
                (None, None) => None,
            };
            let mark = match previous {
                Some(before) => before.high_water,
                None => None,
            };
            let stored = state.store_all("github.com"@, viewer_id, page, now);
            &&& exists|i: int|
                0 <= i < next.poll_states.len() && #[trigger] next.poll_states[i] == (PollModel {
                    host: "github.com"@,
                    viewer_id,
                    last_modified: validator,
                    high_water: if poll.not_modified {
                        mark
                    } else {
                        mark_text(next_mark(page, mark))
                    },
                    updated_at: now,
                })
            &&& forall|i: int|
                0 <= i < state.poll_states.len() && !((#[trigger] state.poll_states[i]).host
                    == "github.com"@ && state.poll_states[i].viewer_id == viewer_id)
                    ==> next.poll_states[i] == state.poll_states[i]
            &&& poll.not_modified ==> next == (State { poll_states: next.poll_states, ..state })
            &&& !poll.not_modified ==> next == (State { poll_states: next.poll_states, ..stored })
        }),
{
    let stored = state.store_all("github.com"@, viewer_id, page, now);
    let validator = match (poll.metadata.last_modified, previous) {
        (Some(sent), _) => Some(sent),
        (None, Some(before)) => before.last_modified,
        (None, None) => None,
    };
    let mark = match previous {
        Some(before) => before.high_water,
        None => None,
    };
    pages_queue_every_review_request(state, "github.com"@, viewer_id, page, now);
    settings_replace_their_own_row(
        state,
        ""@,
        ""@,
        "github.com"@,
        viewer_id,
        validator,
        mark,
        now,
    );
    settings_replace_their_own_row(
        stored,
        ""@,
        ""@,
        "github.com"@,
        viewer_id,
        validator,
        mark_text(next_mark(page, mark)),
        now,
    );
}

/// A cycle sleeps for the interval, or for what GitHub asks where that is longer, less
/// the time that it took. It sleeps in parts of a fifth of a second at most, and not
/// at all once it is to stop.
pub proof fn cycles_last_as_long_as_asked(
    interval: Duration,
    server: Option<Duration>,
    elapsed: Duration,
    signals: usize,
    lease_lost: bool,
)
    requires
        interval.nanos < 1_000_000_000,
        elapsed.nanos < 1_000_000_000,
        server matches Some(asked) ==> asked.nanos < 1_000_000_000,
    ensures
        ({
            let own = interval.seconds * 1_000_000_000 + interval.nanos;
            let asked = match server {
                Some(asked) => asked.seconds * 1_000_000_000 + asked.nanos,
                None => 0,
            };
            let took = elapsed.seconds * 1_000_000_000 + elapsed.nanos;
            let whole = if own < asked {
                asked
            } else {
                own
            };
            let left = cycle_delay(interval, server, elapsed);
            let part = sleep_part(signals, lease_lost, left);
            &&& left.nanos < 1_000_000_000
            &&& left.seconds * 1_000_000_000 + left.nanos == if whole < took {
                0
            } else {
                whole - took
            }
            &&& part is None <==> signals > 0 || lease_lost || (left.seconds == 0 && left.nanos
                == 0)
            &&& part matches Some(nap) ==> nap == if left.seconds == 0 && left.nanos
                < 200_000_000 {
                left
            } else {
                Duration { seconds: 0, nanos: 200_000_000 }
            }
        }),
{
}

/// A daemon that reviews one at a time starts one in a cycle. One that reviews side by
/// side starts another while fewer run than it may.
pub proof fn reviews_are_limited(
    max_concurrency: usize,
    workers: usize,
    dispatched: usize,
)
    ensures
        review_limit(Mode::Sync, max_concurrency, workers, dispatched) == if dispatched == 0 {
            Some(1usize)
        } else {
            None
        },
        review_limit(Mode::Async, max_concurrency, workers, dispatched) is Some <==> workers
            < max_concurrency,
        review_limit(Mode::Async, max_concurrency, workers, dispatched) matches Some(limit)
            ==> limit == max_concurrency,
{
}

/// A bootstrap that a rate limit ended pauses the daemon: for as long as GitHub asks,
/// or else for the interval. Any other failure does not.
pub proof fn limited_bootstraps_pause(
    endpoint: Seq<char>,
    metadata: crate::github::MetadataModel,
    body: Seq<char>,
    stderr: Seq<char>,
    interval: Duration,
    now: int,
)
    ensures
        ({
            let error = GhErrorModel::Status { endpoint, metadata, body, stderr };
            let pause = bootstrap_pause(error, interval, now);
            &&& pause is Some <==> rate_limited(error)
            &&& metadata.retry_after matches Some(asked) ==> pause == Some(asked)
            &&& metadata.retry_after is None && metadata.rate_limit_remaining != Some(0u64)
                && rate_limited(error) ==> pause == Some(interval)
            &&& metadata.status == 429 ==> pause is Some
        }),
{
}

// ---------------------------------------------------------------------------
// The order of a cycle
// ---------------------------------------------------------------------------

/// The notifications of a repository are read for the first time only where they were
/// not read yet, and the poll follows only where all were, or the lease is lost. It
/// asks with what the last poll kept.
pub proof fn bootstraps_come_before_the_poll(
    cycle: CycleModel,
    state: State,
    from: int,
    lease_lost: bool,
)
    requires
        0 <= from,
        cycle.registrations.len() <= usize::MAX,
    ensures
        match cycle.onward(state, from, lease_lost) {
            (next, CycleRequestModel::Bootstrap { full_name }) => {
                &&& !lease_lost
                &&& next.place matches Place::Bootstrap(i) && from <= i < cycle.registrations.len()
                    && cycle.registrations[i as int].repository.repository.full_name == full_name
                    && state.bootstrap_pending(
                    "github.com"@,
                    cycle.viewer_id,
                    cycle.registrations[i as int].repository.repository.id,
                ) == Some(true)
                &&& next == (CycleModel { place: next.place, ..cycle })
            },
            (next, CycleRequestModel::Poll { last_modified, high_water }) => {
                &&& lease_lost || forall|j: int|
                    from <= j < cycle.registrations.len() ==> state.bootstrap_pending(
                        "github.com"@,
                        cycle.viewer_id,
                        (#[trigger] cycle.registrations[j]).repository.repository.id,
                    ) != Some(true)
                &&& next.place == Place::At(CycleStage::Poll)
                &&& next == (CycleModel { place: next.place, previous: next.previous, ..cycle })
                &&& match next.previous {
                    Some(known) => known.host == "github.com"@ && known.viewer_id
                        == cycle.viewer_id && state.poll_states.contains(known) && last_modified
                        == known.last_modified && high_water == mark_of(known.high_water),
                    None => last_modified is None && high_water is None && forall|i: int|
                        0 <= i < state.poll_states.len() ==> !((
                        #[trigger] state.poll_states[i]).host == "github.com"@
                            && state.poll_states[i].viewer_id == cycle.viewer_id),
                }
            },
            _ => false,
        },
{
    first_due(state, cycle.viewer_id, cycle.registrations, from);
    crate::db::registry_effects::rows_are_found_by_their_key(
        state,
        "github.com"@,
        cycle.viewer_id,
        ""@,
        ""@,
    );
}

proof fn first_due(
    state: State,
    viewer_id: i64,
    registrations: Seq<RegistrationModel>,
    from: int,
)
    requires
        0 <= from,
    ensures
        ({
            let k = due_from(state, viewer_id, registrations, from);
            &&& k <= registrations.len()
            &&& from < registrations.len() ==> from <= k
            &&& k < registrations.len() ==> from <= k && state.bootstrap_pending(
                "github.com"@,
                viewer_id,
                registrations[k].repository.repository.id,
            ) == Some(true)
            &&& forall|j: int|
                from <= j < k ==> state.bootstrap_pending(
                    "github.com"@,
                    viewer_id,
                    (#[trigger] registrations[j]).repository.repository.id,
                ) != Some(true)
        }),
    decreases registrations.len() - from,
{
    if from < registrations.len() && state.bootstrap_pending(
        "github.com"@,
        viewer_id,
        registrations[from].repository.repository.id,
    ) != Some(true) {
        first_due(state, viewer_id, registrations, from + 1);
    }
}

/// After the poll come the discoveries, the refreshes, the reviews and the sleep, in
/// that order, while GitHub answers and the lease is held; otherwise the sleep comes
/// at once. Only bootstraps and polls change the state, and what GitHub asks for is
/// kept for the sleep.
pub proof fn cycles_go_on_while_github_answers(
    cycle: CycleModel,
    state: State,
    poll: AnswerModel,
    page: Seq<(NotificationModel, Seq<char>)>,
    error: GhErrorModel,
    available: bool,
    lease_lost: bool,
    now: int,
)
    ensures
        cycle.place == Place::At(CycleStage::Poll) ==> {
            let (after, (next, asked)) = cycle.advanced(
                state,
                CycleAnswerModel::Polled(Ok((poll, page))),
                lease_lost,
                now,
            );
            &&& after == polled(state, cycle.viewer_id, poll, page, cycle.previous, cycle.now)
            &&& next.server == poll.metadata.poll_interval
            &&& asked == if lease_lost {
                CycleRequestModel::Sleep
            } else {
                CycleRequestModel::Discover
            }
        },
        cycle.place == Place::At(CycleStage::Poll) ==> {
            let (after, (next, asked)) = cycle.advanced(
                state,
                CycleAnswerModel::Polled(Err(error)),
                lease_lost,
                now,
            );
            &&& after == state
            &&& next.server == asked_delay(error, now)
            &&& asked == CycleRequestModel::Sleep
        },
        cycle.place is At ==> {
            let (after, (next, asked)) = cycle.advanced(
                state,
                CycleAnswerModel::Done { available },
                lease_lost,
                now,
            );
            let goes_on = available && !lease_lost;
            &&& after == state
            &&& next.server == cycle.server
            &&& !goes_on ==> asked == CycleRequestModel::Sleep
            &&& goes_on && cycle.place == Place::At(CycleStage::Discover) ==> asked
                == CycleRequestModel::Refresh
            &&& goes_on && cycle.place == Place::At(CycleStage::Refresh) ==> asked
                == CycleRequestModel::Dispatch
            &&& goes_on && cycle.place == Place::At(CycleStage::Dispatch) ==> asked
                == CycleRequestModel::Sleep
        },
        cycle.place matches Place::Bootstrap(i) ==> {
            let (after, (next, asked)) = cycle.advanced(
                state,
                CycleAnswerModel::Bootstrapped(Ok(page)),
                lease_lost,
                now,
            );
            let stored = state.store_all("github.com"@, cycle.viewer_id, page, cycle.now);
            &&& after == stored.mark_bootstrap_complete(
                "github.com"@,
                cycle.viewer_id,
                cycle.registrations[i as int].repository.repository.id,
                cycle.now,
            )
            &&& next.server == cycle.server
            &&& asked is Bootstrap || asked is Poll
        },
        cycle.place is Bootstrap ==> {
            let (after, (next, asked)) = cycle.advanced(
                state,
                CycleAnswerModel::Bootstrapped(Err(error)),
                lease_lost,
                now,
            );
            &&& after == state
            &&& asked == CycleRequestModel::Sleep <==> rate_limited(error)
            &&& !rate_limited(error) ==> (asked is Bootstrap || asked is Poll) && next.server
                == cycle.server
        },
{
}

// ---------------------------------------------------------------------------
// Leases and signals
// ---------------------------------------------------------------------------

/// The daemon goes on with its lease exactly where the renewal found a row of its own
/// that had not expired, and that row lasts ninety seconds from the renewal.
pub proof fn leases_last_as_long_as_they_are_renewed(
    state: State,
    viewer_id: i64,
    owner: Seq<char>,
    now: i64,
)
    requires
        0 <= now <= 8_000_000_000_000_000,
    ensures
        ({
            let renewed = state.renew_lease("github.com"@, viewer_id, owner, now, LEASE_MILLIS);
            let answer = match renewed {
                Ok((_, kept)) => Some(kept),
                Err(_) => None,
            };
            let kept = exists|i: int|
                0 <= i < state.leases.len() && (#[trigger] state.leases[i]).host == "github.com"@
                    && state.leases[i].viewer_id == viewer_id && state.leases[i].owner == owner
                    && state.leases[i].expires_at > now;
            &&& not_renewed(answer) <==> !kept
            &&& not_renewed(None)
            &&& renewed matches Ok((next, _)) ==> forall|i: int|
                0 <= i < state.leases.len() && (#[trigger] state.leases[i]).host == "github.com"@
                    && state.leases[i].viewer_id == viewer_id && state.leases[i].owner == owner
                    && state.leases[i].expires_at > now ==> next.leases[i].expires_at == now
                    + 90_000
        }),
{
    leases_are_kept_by_their_owner(state, "github.com"@, viewer_id, owner, now, LEASE_MILLIS);
}

/// The keeper of the lease sleeps no longer than is left and than a fifth of a second,
/// renews when nothing is left, and stops when it is told to.
pub proof fn keepers_renew_in_time(stop: bool, left: Duration)
    requires
        left.nanos < 1_000_000_000,
    ensures
        match beat(stop, left) {
            Heartbeat::Stop => stop,
            Heartbeat::Renew => !stop && left.seconds == 0 && left.nanos == 0,
            Heartbeat::Sleep(span) => !stop && span.seconds == 0 && 0 < span.nanos <= 200_000_000
                && (left.seconds > 0 || span.nanos <= left.nanos) && (span.nanos == 200_000_000
                || span == left),
        },
{
}

/// The daemon goes on until it is asked to stop or its lease is lost. It ends with an
/// error exactly where the lease was lost and the operator did not make it abort. Only
/// a second signal makes it abort.
pub proof fn daemons_end_when_told_or_lost(signals: usize, lease_lost: bool, forced: bool)
    ensures
        goes_on(signals, lease_lost) <==> signals == 0 && !lease_lost,
        ends_badly(true, false),
        !ends_badly(lease_lost, true),
        !ends_badly(false, forced),
        effect_after(0) == SignalEffect::Stop,
        signals > 0 ==> effect_after(signals) == SignalEffect::Abort,
{
}

/// Once the daemon is asked to stop, no review is claimed; one that was claimed before
/// is put back, due at once and with the attempt given back, and does not count as in
/// progress. Otherwise it counts, and nothing else changes.
pub proof fn stopping_daemons_start_nothing(
    state: State,
    shutdown: ShutdownModel,
    action: ActionModel,
    viewer_id: i64,
    limit: usize,
    signals: usize,
    now: i64,
    i: int,
)
    requires
        0 <= i < state.actions.len(),
        state.actions[i].id == action.id,
        state.actions[i].status == ActionStatus::Running,
        state.actions[i].attempts > 0,
    ensures
        signals > 0 ==> claimed_for_processing(state, viewer_id, limit, signals, now) == (
            state,
            None::<ActionModel>,
        ),
        signals == 0 ==> claimed_for_processing(state, viewer_id, limit, signals, now)
            == state.claim_due_action("github.com"@, viewer_id, limit as nat, now),
        ({
            let (next, told) = confirmed(state, shutdown, action, signals, now);
            &&& told.ctrl_c_received == shutdown.ctrl_c_received
            &&& signals == 0 ==> {
                &&& next == state
                &&& told.reviews.dom() == shutdown.reviews.dom().insert(action.id)
                &&& told.reviews[action.id].repository == action.repository_full_name
                &&& told.reviews[action.id].pull == action.pull_request_number
            }
            &&& signals > 0 ==> {
                &&& told.reviews == shutdown.reviews
                &&& next == (State { actions: next.actions, ..state })
                &&& next.actions[i].status == ActionStatus::Pending
                &&& next.actions[i].due_at == now
                &&& next.actions[i].attempts + 1 == state.actions[i].attempts
            }
        }),
{
    crate::db::action_effects::outcomes_change_their_own_action(
        state,
        action.id,
        "daemon shutdown requested before review started"@,
        now,
        now,
        i,
    );
}

// ---------------------------------------------------------------------------
// Beginnings and ends
// ---------------------------------------------------------------------------

/// A watched pull request is read again under the name that its repository is
/// registered with. One whose repository is not registered is no longer watched.
pub proof fn refreshes_need_a_registration(
    state: State,
    viewer_id: i64,
    registrations: Seq<RegistrationModel>,
    watched: TrackedModel,
    now: i64,
)
    ensures
        match refresh_begun(state, viewer_id, registrations, watched, now) {
            (next, RefreshStepModel::Read { full_name, depth }) => {
                &&& next == state
                &&& depth == depth_of(watched, now)
                &&& exists|i: int|
                    0 <= i < registrations.len() && (
                    #[trigger] registrations[i]).repository.repository.id == watched.repository_id
                        && registrations[i].repository.repository.full_name == full_name
            },
            (next, RefreshStepModel::Dropped) => {
                &&& lacks_repository(registrations, watched.repository_id)
                &&& next == (State { tracked_pulls: next.tracked_pulls, ..state })
                &&& next.tracked_pulls.len() == state.tracked_pulls.len()
                &&& forall|i: int|
                    0 <= i < state.tracked_pulls.len() ==> #[trigger] next.tracked_pulls[i]
                        == if watches(
                        state.tracked_pulls[i],
                        "github.com"@,
                        viewer_id,
                        watched.repository_id,
                        watched.pull_request.id,
                    ) {
                        TrackedModel { active: false, updated_at: now, ..state.tracked_pulls[i] }
                    } else {
                        state.tracked_pulls[i]
                    }
            },
        },
{
    registrations_are_found_by_number(registrations, watched.repository_id);
    let next = refresh_begun(state, viewer_id, registrations, watched, now).0;
    if let Some(found) = registration_in(registrations, watched.repository_id) {
        let k = registrations.index_of(found);
        assert(registrations[k] == found);
    } else {
        assert forall|i: int|
            0 <= i < state.tracked_pulls.len() implies #[trigger] next.tracked_pulls[i] == if watches(
            state.tracked_pulls[i],
            "github.com"@,
            viewer_id,
            watched.repository_id,
            watched.pull_request.id,
        ) {
            TrackedModel { active: false, updated_at: now, ..state.tracked_pulls[i] }
        } else {
            state.tracked_pulls[i]
        } by {
            dropping_changes_its_own_row(
                state,
                "github.com"@,
                viewer_id,
                watched.repository_id,
                watched.pull_request.id,
                now,
                i,
            );
        }
    }
}

/// A refused request ends the refreshes of a cycle, and so does the end of the daemon;
/// nothing else does.
pub proof fn refused_requests_end_the_refreshes(rate_limited: bool)
    ensures
        crate::daemon::refresh::stops(Refreshed::Stopped),
        crate::daemon::refresh::stops(Refreshed::Failed { rate_limited }) <==> rate_limited,
        !crate::daemon::refresh::stops(Refreshed::Gone),
        forall|queued: Option<EnqueueResult>|
            !crate::daemon::refresh::stops(#[trigger] updated_refresh(queued)),
{
}

/// A refresh that took a pull request in.
pub open spec fn updated_refresh(queued: Option<EnqueueResult>) -> Refreshed {
    Refreshed::Updated { queued }
}

/// An action is prepared by reading its pull request under the name that its repository
/// is registered with; without a registration it is given up.
pub proof fn preparations_need_a_registration(
    action: ActionModel,
    registration: Option<RegistrationModel>,
)
    ensures
        match registration {
            None => crate::daemon::prepare::begun(action, registration) == StepModel::End(
                VerdictModel::Cancel("repository is no longer registered"@),
            ),
            Some(found) => crate::daemon::prepare::begun(action, registration) == StepModel::Ask(
                StageModel::Reading,
                RequestModel::ReadPull {
                    full_name: found.repository.repository.full_name,
                    number: action.pull_request_number,
                },
            ),
        },
{
}

/// An action whose command failed waits for its delay and is queued again, or is parked
/// at the third launch; the error is kept with it.
pub proof fn failed_commands_wait_or_park(
    state: State,
    id: i64,
    attempts: u32,
    error: Seq<char>,
    now: Timestamp,
    after: State,
    r: Option<ActionStatus>,
    i: int,
)
    requires
        state.wf(),
        settles(state, id, attempts, VerdictModel::Fail(error), now, after, r),
        0 <= i < state.actions.len(),
        state.actions[i].id == id,
        state.actions[i].status == ActionStatus::Running,
        -8_000_000_000_000 <= now.seconds <= 8_000_000_000_000,
        now.nanos < 1_000_000_000,
        attempts < u32::MAX,
    ensures
        ({
            let base = failure_base(attempts);
            let row = after.actions[i];
            &&& r == Some(row.status)
            &&& row.status == if state.actions[i].attempts >= 3 {
                ActionStatus::Parked
            } else {
                ActionStatus::Pending
            }
            &&& row.last_error == Some(error)
            &&& row.attempts == state.actions[i].attempts
            &&& row.due_at * 1_000_000 + 1_000_000 > now.seconds * 1_000_000_000 + now.nanos + base
                * 1_000_000_000
            &&& row.due_at * 1_000_000 <= now.seconds * 1_000_000_000 + now.nanos + (base
                + failure_spread(attempts)) * 1_000_000_000
        }),
{
    let millis = now.in_millis() as i64;
    let jitter = choose|jitter: u64|
        jitter <= failure_spread(attempts) && (after, r) == state.fail_action(
            id,
            error,
            (#[trigger] crate::time::millis_after(now, failure_delay(attempts, jitter))) as i64,
            millis,
        );
    let due = crate::time::millis_after(now, failure_delay(attempts, jitter));
    crate::daemon::retry::failures_wait_twice_as_long(attempts, jitter);
    crate::db::action_effects::failures_park_at_the_third_launch(
        state,
        id,
        error,
        due as i64,
        millis,
    );
    assert(failure_base(attempts) <= 300);
}

/// The user is told which action was started afresh, or that there was none; only a
/// parked action of theirs is.
pub proof fn retries_tell_what_they_did(
    state: State,
    viewer_id: i64,
    full_name: Seq<char>,
    number: u64,
    now: i64,
)
    ensures
        ({
            let (next, told) = retried(state, viewer_id, full_name, number, now);
            let name = full_name + "#"@ + decimal(number as nat);
            let parked = exists|i: int|
                0 <= i < state.actions.len() && parked_for(
                    #[trigger] state.actions[i],
                    "github.com"@,
                    viewer_id,
                    full_name,
                    number,
                );
            &&& number <= i64::MAX ==> (told is Ok <==> parked)
            &&& told is Err ==> next == state
            &&& told is Err && number <= i64::MAX ==> told == Err::<Seq<char>, Seq<char>>(
                "no parked action found for "@ + name,
            )
            &&& told matches Ok(text) ==> exists|k: int|
                0 <= k < state.actions.len() && parked_for(
                    #[trigger] state.actions[k],
                    "github.com"@,
                    viewer_id,
                    full_name,
                    number,
                ) && next.actions[k].status == ActionStatus::Pending && next.actions[k].attempts
                    == 0 && next.actions[k].due_at == now && text == "queued action "@ + int_text(
                    state.actions[k].id as int,
                ) + " for "@ + name
        }),
{
    crate::db::action_effects::retries_take_the_newest_parked(
        state,
        "github.com"@,
        viewer_id,
        full_name,
        number,
        now,
    );
}

/// A cycle begins exactly where a repository is registered, with every registration by
/// name, and asks for nothing but a bootstrap or the poll. GitHub has asked for nothing
/// yet.
pub proof fn cycles_begin_with_every_registration(
    state: State,
    viewer_id: i64,
    interval: Duration,
    lease_lost: bool,
    now: i64,
    m: RegistrationModel,
)
    requires
        state.registrations.len() <= usize::MAX,
    ensures
        match cycle_begun(state, viewer_id, interval, lease_lost, now) {
            None => state.registrations.len() == 0,
            Some((cycle, asked)) => {
                &&& state.registrations.len() > 0
                &&& cycle.registrations.contains(m) <==> state.registrations.contains(m)
                &&& cycle.registrations.len() == state.registrations.len()
                &&& cycle.viewer_id == viewer_id
                &&& cycle.interval == interval
                &&& cycle.now == now
                &&& cycle.server is None
                &&& asked is Poll || asked is Bootstrap
                &&& lease_lost ==> asked is Poll
            },
        },
{
    lists_hold_every_row(
        state,
        m,
        LeaseModel {
            host: seq![],
            viewer_id: 0,
            viewer_login: seq![],
            owner: seq![],
            expires_at: 0,
            updated_at: 0,
        },
        PollModel {
            host: seq![],
            viewer_id: 0,
            last_modified: None,
            high_water: None,
            updated_at: 0,
        },
        0,
        0,
    );
}

/// A read in part that names no author keeps the one that is known.
pub proof fn unnamed_authors_stay(known: PullModel, user: ViewerModel)
    ensures
        author_of(known, None) == known.author,
        author_of(known, Some(user)) == user,
{
}

} // verus!
