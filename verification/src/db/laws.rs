//! What the operations promise together.

use vstd::prelude::*;
use crate::db::actions::{is_outdated, is_running, is_same, runs_for, MAX_ACTION_ATTEMPTS};
use crate::db::integrity::{other_id, other_lease, other_work};
use crate::db::leases::{lease_of, live_for, open_to};
use crate::db::notifications::{running_discoveries, stored_as};
use crate::db::overview::{old_action, old_discovery, old_pull, pull_uses};
use crate::db::registry::{
    bootstrap_of, bootstraps_of, has_key, of_repository, poll_of, waiting_in,
};
use crate::db::rows::{
    ActionModel, ActionStatus, DiscoveryModel, DiscoveryStatus, EnqueueResult, LeaseModel,
    NewActionModel, PollModel, RegistrationModel, StoredModel, TrackedModel,
};
use crate::db::State;
use crate::model::{NotificationModel, RegisteredModel};
use crate::table::{
    any, any_push, any_updated, best_in_range, best_is_best, count, count_exchange, count_is_zero,
    first, first_exists, first_in_range, lookup, removed_keeps,
};

verus! {

// ---------------------------------------------------------------------------
// Claims
// ---------------------------------------------------------------------------

/// A claim keeps the viewer within the limit.
pub proof fn claim_respects_limit(
    state: State,
    host: Seq<char>,
    viewer_id: i64,
    limit: nat,
    now: i64,
)
    requires
        count(state.actions, runs_for(host, viewer_id)) <= limit,
    ensures
        count(
            state.claim_due_action(host, viewer_id, limit, now).0.actions,
            runs_for(host, viewer_id),
        ) <= limit,
{
    let before = |a: ActionModel, b: ActionModel| a.claimed_before(b);
    best_in_range(state.actions, state.claimable(host, viewer_id, now), before);
    if let Some(k) = state.next_action(host, viewer_id, limit, now) {
        count_exchange(
            state.actions,
            k,
            state.actions[k].claimed(now),
            runs_for(host, viewer_id),
        );
    }
}

/// Where the viewer is below the limit, a claim succeeds exactly when some
/// action may run, and takes one that no other such action precedes.
pub proof fn claim_takes_the_oldest(
    state: State,
    host: Seq<char>,
    viewer_id: i64,
    limit: nat,
    now: i64,
)
    requires
        count(state.actions, runs_for(host, viewer_id)) < limit,
    ensures
        state.claim_due_action(host, viewer_id, limit, now).1 is Some <==> any(
            state.actions,
            state.claimable(host, viewer_id, now),
        ),
        state.next_action(host, viewer_id, limit, now) matches Some(k) ==> 0 <= k
            < state.actions.len() && state.claimable(host, viewer_id, now)(state.actions[k])
            && forall|j: int|
            0 <= j < state.actions.len() && state.claimable(host, viewer_id, now)(
                #[trigger] state.actions[j],
            ) ==> state.actions[k].claimed_before(state.actions[j]),
{
    let before = |a: ActionModel, b: ActionModel| a.claimed_before(b);
    let test = state.claimable(host, viewer_id, now);
    best_is_best(state.actions, test, before);
    if let Some(k) = state.next_action(host, viewer_id, limit, now) {
        assert forall|j: int| 0 <= j < state.actions.len() && test(#[trigger] state.actions[j])
            implies state.actions[k].claimed_before(state.actions[j]) by {
            assert(before(state.actions[k], state.actions[j]));
        }
    }
}

/// A claim that is deferred leaves the attempts as they were: only launches
/// count.
pub proof fn defer_refunds_the_claim(
    m: ActionModel,
    claimed_at: i64,
    error: Seq<char>,
    retry_at: i64,
    now: i64,
)
    requires
        m.attempts < MAX_ACTION_ATTEMPTS,
    ensures
        m.claimed(claimed_at).deferred(error, retry_at, now).attempts == m.attempts,
        m.claimed(claimed_at).deferred(error, retry_at, now).status == ActionStatus::Pending,
        m.claimed(claimed_at).deferred(error, retry_at, now).due_at == retry_at,
{
}

/// A launch that fails parks the action exactly when it was the third.
pub proof fn third_failure_parks(m: ActionModel, now: i64)
    requires
        m.attempts < MAX_ACTION_ATTEMPTS,
    ensures
        m.claimed(now).after_failure() == ActionStatus::Parked <==> m.attempts + 1 == 3,
        m.claimed(now).after_failure() == ActionStatus::Pending <==> m.attempts + 1 < 3,
{
}

/// A parked action is never claimed, and retrying it gives it three launches
/// again.
pub proof fn parked_waits_for_retry(
    state: State,
    m: ActionModel,
    host: Seq<char>,
    viewer_id: i64,
    now: i64,
)
    requires
        m.status == ActionStatus::Parked,
    ensures
        !state.claimable(host, viewer_id, now)(m),
        m.retried(now).status == ActionStatus::Pending,
        m.retried(now).attempts == 0,
        m.retried(now).due_at == now,
{
}

/// A finished action stays as it is, whatever is asked for it by number.
pub proof fn finished_actions_are_immutable(
    state: State,
    i: int,
    id: i64,
    text: Seq<char>,
    retry_at: i64,
    now: i64,
)
    requires
        state.wf(),
        0 <= i < state.actions.len(),
        state.actions[i].status.is_final(),
    ensures
        state.complete_action(id, now).actions[i] == state.actions[i],
        state.cancel_action(id, text, now).actions[i] == state.actions[i],
        state.defer_action(id, text, retry_at, now).actions[i] == state.actions[i],
        state.fail_action(id, text, retry_at, now).0.actions[i] == state.actions[i],
{
    first_in_range(state.actions, is_running(id), 0);
    if let Some(k) = first(state.actions, is_running(id)) {
        let r = |a: ActionModel, b: ActionModel| other_id(a, b);
        if k < i {
            assert(r(state.actions[k], state.actions[i]));
        } else {
            assert(r(state.actions[i], state.actions[k]));
        }
    }
}

/// After recovery nothing runs for the viewer.
pub proof fn recovery_leaves_nothing_running(
    state: State,
    host: Seq<char>,
    viewer_id: i64,
    retry_at: i64,
    now: i64,
)
    ensures
        !any(
            state.recover_running_actions(host, viewer_id, retry_at, now).actions,
            runs_for(host, viewer_id),
        ),
        !any(
            state.recover_running_discoveries(host, viewer_id, retry_at, now).discoveries,
            running_discoveries(host, viewer_id),
        ),
{
    let actions = state.recover_running_actions(host, viewer_id, retry_at, now).actions;
    assert forall|i: int| 0 <= i < actions.len() implies !runs_for(host, viewer_id)(
        #[trigger] actions[i],
    ) by {
        assert(runs_for(host, viewer_id)(state.actions[i]) || !runs_for(host, viewer_id)(
            state.actions[i],
        ));
    }
    let discoveries =
        state.recover_running_discoveries(host, viewer_id, retry_at, now).discoveries;
    assert forall|i: int| 0 <= i < discoveries.len() implies !running_discoveries(host, viewer_id)(
        #[trigger] discoveries[i],
    ) by {
        assert(running_discoveries(host, viewer_id)(state.discoveries[i]) || !running_discoveries(
            host,
            viewer_id,
        )(state.discoveries[i]));
    }
}

// ---------------------------------------------------------------------------
// Queueing
// ---------------------------------------------------------------------------

/// Queueing the same review twice queues it once: the second time nothing is
/// inserted or superseded, and the same action is named.
pub proof fn enqueue_is_idempotent(state: State, new: NewActionModel, now: i64, later: i64)
    requires
        state.wf(),
        state.enqueue_action(new, now) is Ok,
    ensures
        ({
            let (next, result) = state.enqueue_action(new, now)->Ok_0;
            let again = next.enqueue_action(new, later);
            &&& again is Ok
            &&& again->Ok_0.1 == (EnqueueResult {
                action_id: result.action_id,
                inserted: false,
                superseded: 0,
            })
            &&& again->Ok_0.0.actions.len() == next.actions.len()
            &&& again->Ok_0.0.last_action_id == next.last_action_id
        }),
{
    let (next, result) = state.enqueue_action(new, now)->Ok_0;
    let rest = state.supersede(new, now);
    let same = is_same(new);
    let outdated = is_outdated(new);
    first_in_range(state.actions, same, 0);
    // No other action of the pull request waits any more.
    assert forall|i: int| 0 <= i < next.actions.len() implies !outdated(
        #[trigger] next.actions[i],
    ) by {
        if i < state.actions.len() {
            assert(outdated(state.actions[i]) || !outdated(state.actions[i]));
        }
    }
    count_is_zero(next.actions, outdated);
    assert(!any(next.actions, outdated));
    match first(state.actions, same) {
        Some(k) => {
            assert(same(next.actions[k]));
            first_in_range(next.actions, same, 0);
            let j = first(next.actions, same)->0;
            assert(same(next.actions[j]));
            assert(same(state.actions[j]));
            assert(next.actions[j].id == state.actions[j].id);
            let r = |a: ActionModel, b: ActionModel| other_work(a, b);
            if j < k {
                assert(r(state.actions[j], state.actions[k]));
            } else if k < j {
                assert(r(state.actions[k], state.actions[j]));
            }
        },
        None => {
            let last = state.actions.len() as int;
            assert(next.actions[last] == ActionModel::created(result.action_id, new, now));
            assert(same(next.actions[last]));
            first_in_range(next.actions, same, 0);
            let j = first(next.actions, same)->0;
            if j < last {
                assert(same(next.actions[j]));
                assert(same(state.actions[j]));
            }
        },
    }
}

/// A review that succeeded is never queued again: queueing it changes nothing
/// about it and inserts nothing.
pub proof fn success_is_not_repeated(state: State, new: NewActionModel, now: i64, i: int)
    requires
        state.wf(),
        0 <= i < state.actions.len(),
        state.actions[i].same_identity(new),
        state.actions[i].status == ActionStatus::Succeeded,
    ensures
        state.enqueue_action(new, now) matches Ok((next, result)) ==> !result.inserted
            && next.actions.len() == state.actions.len() && next.actions[i] == state.actions[i]
            && result.action_id == state.actions[i].id,
{
    let same = is_same(new);
    first_in_range(state.actions, same, 0);
    assert(same(state.actions[i]));
    let k = first(state.actions, same)->0;
    let r = |a: ActionModel, b: ActionModel| other_work(a, b);
    if k < i {
        assert(r(state.actions[k], state.actions[i]));
    } else if i < k {
        assert(r(state.actions[i], state.actions[k]));
    }
}

/// Queueing a review leaves no other review of the same pull request waiting or
/// parked: the newer one takes their place, whether its head or what asked for
/// it differs. It touches no action that runs or is finished, nor one of another
/// pull request.
pub proof fn enqueue_supersedes_other_work(state: State, new: NewActionModel, now: i64)
    requires
        state.wf(),
    ensures
        state.enqueue_action(new, now) matches Ok((next, _)) ==> {
            &&& forall|i: int|
                0 <= i < next.actions.len() && (#[trigger] next.actions[i]).same_pull(new)
                    && next.actions[i].status.is_undispatched() ==> next.actions[i].same_identity(
                    new,
                )
            &&& forall|i: int|
                0 <= i < state.actions.len() && is_outdated(new)(#[trigger] state.actions[i])
                    ==> next.actions[i] == state.actions[i].superseded(now)
            &&& forall|i: int|
                0 <= i < state.actions.len() && (!(
                #[trigger] state.actions[i]).status.is_undispatched()
                    || !state.actions[i].same_pull(new)) ==> next.actions[i] == state.actions[i]
        },
{
    if let Ok((next, _)) = state.enqueue_action(new, now) {
        first_in_range(state.actions, is_same(new), 0);
        assert forall|i: int|
            0 <= i < next.actions.len() && (#[trigger] next.actions[i]).same_pull(new)
                && next.actions[i].status.is_undispatched() implies next.actions[i].same_identity(
            new,
        ) by {
            if i < state.actions.len() {
                assert(is_outdated(new)(state.actions[i]) || !is_outdated(new)(state.actions[i]));
            }
        }
        if let Some(k) = first(state.actions, is_same(new)) {
            let id = state.actions[k].id;
            let apart = |a: ActionModel, b: ActionModel| other_id(a, b);
            assert forall|i: int| 0 <= i < state.actions.len() && i != k implies (
            #[trigger] state.actions[i]).id != id by {
                if i < k {
                    assert(apart(state.actions[i], state.actions[k]));
                } else {
                    assert(apart(state.actions[k], state.actions[i]));
                }
            }
        }
    }
}

// ---------------------------------------------------------------------------
// Leases
// ---------------------------------------------------------------------------

/// A live lease is never taken by another owner, who is told so; the leases
/// stay as they are.
pub proof fn live_lease_is_not_stolen(
    state: State,
    i: int,
    login: Seq<char>,
    owner: Seq<char>,
    now: i64,
    duration: i64,
)
    requires
        state.wf(),
        0 <= i < state.leases.len(),
        state.leases[i].expires_at > now,
        state.leases[i].owner != owner,
    ensures
        state.acquire_lease(
            state.leases[i].host,
            state.leases[i].viewer_id,
            login,
            owner,
            now,
            duration,
        ) matches Ok((next, taken)) ==> !taken && next == state,
{
    let host = state.leases[i].host;
    let viewer_id = state.leases[i].viewer_id;
    let key = open_to(host, viewer_id, owner, now);
    let r = |a: LeaseModel, b: LeaseModel| other_lease(a, b);
    assert forall|j: int| 0 <= j < state.leases.len() implies !key(#[trigger] state.leases[j]) by {
        if j < i {
            assert(r(state.leases[j], state.leases[i]));
        } else if i < j {
            assert(r(state.leases[i], state.leases[j]));
        }
    }
    assert(lease_of(host, viewer_id)(state.leases[i]));
    assert(any(state.leases, lease_of(host, viewer_id)));
    if let Ok((next, taken)) = state.acquire_lease(host, viewer_id, login, owner, now, duration) {
        assert(next.leases =~= state.leases);
    }
}

/// Who takes a lease holds it until it ends: until then no other owner can
/// take it.
pub proof fn lease_excludes_others(
    state: State,
    host: Seq<char>,
    viewer_id: i64,
    login: Seq<char>,
    owner: Seq<char>,
    now: i64,
    duration: i64,
    other_login: Seq<char>,
    other_owner: Seq<char>,
    later: i64,
    other_duration: i64,
)
    requires
        state.wf(),
        state.acquire_lease(host, viewer_id, login, owner, now, duration) matches Ok((_, true)),
        owner != other_owner,
        later < now + duration,
    ensures
        ({
            let next = state.acquire_lease(host, viewer_id, login, owner, now, duration)->Ok_0.0;
            next.acquire_lease(
                host,
                viewer_id,
                other_login,
                other_owner,
                later,
                other_duration,
            ) matches Ok((after, taken)) ==> !taken && after == next
        }),
{
    let next = state.acquire_lease(host, viewer_id, login, owner, now, duration)->Ok_0.0;
    crate::db::integrity::leases_keep_wf(state, host, viewer_id, login, owner, now, duration);
    let key = open_to(host, viewer_id, owner, now);
    let i = if any(state.leases, lease_of(host, viewer_id)) {
        let i = choose|i: int| 0 <= i < state.leases.len() && key(#[trigger] state.leases[i]);
        assert(key(state.leases[i]));
        i
    } else {
        state.leases.len() as int
    };
    assert(next.leases[i].owner == owner);
    assert(next.leases[i].expires_at == now + duration);
    live_lease_is_not_stolen(next, i, other_login, other_owner, later, other_duration);
}

/// A lease that is over cannot be renewed, nor one of another owner; it can be
/// taken anew.
pub proof fn renewal_needs_a_live_lease(
    state: State,
    host: Seq<char>,
    viewer_id: i64,
    owner: Seq<char>,
    now: i64,
    duration: i64,
)
    ensures
        state.renew_lease(host, viewer_id, owner, now, duration) matches Ok((next, renewed))
            ==> renewed == any(state.leases, live_for(host, viewer_id, owner, now)) && (!renewed
            ==> next == state),
{
    let key = live_for(host, viewer_id, owner, now);
    if !any(state.leases, key) {
        if let Ok((next, _)) = state.renew_lease(host, viewer_id, owner, now, duration) {
            assert forall|i: int| 0 <= i < state.leases.len() implies next.leases[i]
                == #[trigger] state.leases[i] by {
                assert(!key(state.leases[i]));
            }
            assert(next.leases =~= state.leases);
        }
    }
}

/// Giving up a lease leaves the leases of others.
pub proof fn release_leaves_others(
    state: State,
    host: Seq<char>,
    viewer_id: i64,
    owner: Seq<char>,
    i: int,
)
    requires
        0 <= i < state.leases.len(),
        state.leases[i].owner != owner,
    ensures
        state.release_lease(host, viewer_id, owner).leases.contains(state.leases[i]),
{
    removed_keeps(state.leases, crate::db::leases::held_by(host, viewer_id, owner));
}

// ---------------------------------------------------------------------------
// Registration and bootstrap
// ---------------------------------------------------------------------------

/// A repository that was registered anew, or whose registration changed, has
/// to be bootstrapped by every viewer again.
pub proof fn change_asks_for_bootstrap(
    state: State,
    host: Seq<char>,
    repository: RegisteredModel,
    now: i64,
    viewer_id: i64,
)
    requires
        state.wf(),
        state.registration_changes(host, repository),
    ensures
        state.upsert_registration(host, repository, now) matches Ok(next)
            ==> next.bootstrap_pending(host, viewer_id, repository.repository.id) == Some(true),
{
    if let Ok(next) = state.upsert_registration(host, repository, now) {
        let id = repository.repository.id;
        let key = of_repository(host, id);
        let changed = state.registration_changes(host, repository);
        if any(state.registrations, key) {
            any_updated(
                state.registrations,
                key,
                |m: RegistrationModel| m.replaced(repository, changed, now),
                key,
            );
        } else {
            any_push(
                state.registrations,
                RegistrationModel::created(host, repository, now),
                key,
            );
        }
        let q = bootstrap_of(host, viewer_id, id);
        first_exists(next.bootstraps, q);
        if let Some(k) = first(next.bootstraps, q) {
            assert(bootstraps_of(host, id)(state.bootstraps[k]));
        }
    }
}

/// Registering the same thing again asks nobody to bootstrap it again.
pub proof fn repeat_keeps_bootstrap(
    state: State,
    host: Seq<char>,
    repository: RegisteredModel,
    now: i64,
    viewer_id: i64,
)
    requires
        state.wf(),
        !state.registration_changes(host, repository),
    ensures
        state.upsert_registration(host, repository, now) matches Ok(next)
            ==> next.bootstrap_pending(host, viewer_id, repository.repository.id)
            == state.bootstrap_pending(host, viewer_id, repository.repository.id),
{
    if let Ok(next) = state.upsert_registration(host, repository, now) {
        let id = repository.repository.id;
        let key = of_repository(host, id);
        first_exists(state.registrations, key);
        any_updated(
            state.registrations,
            key,
            |m: RegistrationModel| m.replaced(repository, false, now),
            key,
        );
    }
}

/// A bootstrap counts for the viewer who did it, and for no other.
pub proof fn bootstrap_is_per_viewer(
    state: State,
    host: Seq<char>,
    viewer_id: i64,
    repository_id: i64,
    now: i64,
    other: i64,
)
    requires
        state.wf(),
        any(state.registrations, of_repository(host, repository_id)),
    ensures
        ({
            let next = state.mark_bootstrap_complete(host, viewer_id, repository_id, now);
            &&& next.bootstrap_pending(host, viewer_id, repository_id) == Some(false)
            &&& other != viewer_id ==> next.bootstrap_pending(host, other, repository_id)
                == state.bootstrap_pending(host, other, repository_id)
        }),
{
    let next = state.mark_bootstrap_complete(host, viewer_id, repository_id, now);
    let key = bootstrap_of(host, viewer_id, repository_id);
    let s = state.bootstraps;
    let t = next.bootstraps;
    first_exists(s, key);
    first_exists(t, key);
    if any(s, key) {
        let k = first(s, key)->0;
        assert(key(t[k]));
        let j = first(t, key)->0;
        assert(key(s[j]));
    } else {
        assert(key(t[s.len() as int]));
        let j = first(t, key)->0;
        if j < s.len() {
            assert(key(s[j]));
        }
    }
    if other != viewer_id {
        let q = bootstrap_of(host, other, repository_id);
        first_in_range(s, q, 0);
        first_in_range(t, q, 0);
        first_exists(s, q);
        first_exists(t, q);
        if let Some(i) = first(s, q) {
            assert(q(t[i]));
            let j = first(t, q)->0;
            assert(q(s[j]));
            assert(i == j);
        } else {
            if let Some(j) = first(t, q) {
                if j < s.len() {
                    assert(q(s[j]));
                }
            }
        }
    }
}

/// After a repository is forgotten it is not registered, and no work of it
/// waits; what runs goes on.
pub proof fn forgotten_repository_has_no_work(
    state: State,
    host: Seq<char>,
    repository_id: i64,
    now: i64,
)
    ensures
        ({
            let next = state.remove_registration(host, repository_id, now);
            &&& !any(next.registrations, of_repository(host, repository_id))
            &&& !any(next.actions, waiting_in(host, repository_id))
            &&& forall|i: int|
                0 <= i < next.tracked_pulls.len() && (#[trigger] next.tracked_pulls[i]).host == host
                    && next.tracked_pulls[i].repository_id == repository_id
                    ==> !next.tracked_pulls[i].active
            &&& forall|i: int|
                0 <= i < state.actions.len() && (#[trigger] state.actions[i]).status
                    == ActionStatus::Running ==> next.actions[i] == state.actions[i]
        }),
{
    let next = state.remove_registration(host, repository_id, now);
    removed_keeps(state.registrations, of_repository(host, repository_id));
    assert forall|i: int| 0 <= i < next.actions.len() implies !waiting_in(host, repository_id)(
        #[trigger] next.actions[i],
    ) by {
        assert(waiting_in(host, repository_id)(state.actions[i]) || !waiting_in(
            host,
            repository_id,
        )(state.actions[i]));
    }
}

// ---------------------------------------------------------------------------
// Notifications
// ---------------------------------------------------------------------------

/// The stored revision of a notification is the latest that was seen.
pub proof fn revision_never_goes_back(
    m: StoredModel,
    n: NotificationModel,
    raw: Seq<char>,
    now: i64,
)
    ensures
        m.seen(n, raw, now).notification.revision() >= m.notification.revision(),
        m.seen(n, raw, now).notification.revision() >= n.revision(),
        n.revision() >= m.notification.revision() ==> m.seen(n, raw, now).notification == n
            && m.seen(n, raw, now).raw == raw,
        m.seen(n, raw, now).first_seen_at == m.first_seen_at,
{
}

/// Seeing the same or an older revision again neither reopens a discovery nor
/// disturbs one that is under way; a newer one starts it afresh.
pub proof fn only_new_revisions_reopen(m: DiscoveryModel, n: NotificationModel, now: i64)
    ensures
        n.revision() <= m.notification_updated_at ==> {
            &&& m.seen(n, now).status == m.status
            &&& m.seen(n, now).attempts == m.attempts
            &&& m.seen(n, now).due_at == m.due_at
            &&& m.seen(n, now).completed_at == m.completed_at
        },
        n.revision() > m.notification_updated_at ==> {
            &&& m.seen(n, now).status == DiscoveryStatus::Pending
            &&& m.seen(n, now).attempts == 0
            &&& m.seen(n, now).due_at == now
        },
{
}

/// After a poll is committed, each of its notifications is stored, and the
/// next poll starts from what the poll brought.
pub proof fn commit_stores_everything(
    state: State,
    host: Seq<char>,
    viewer_id: i64,
    page: Seq<(NotificationModel, Seq<char>)>,
    last_modified: Option<Seq<char>>,
    high_water: Option<Seq<char>>,
    now: i64,
)
    requires
        state.wf(),
    ensures
        ({
            let next = state.commit_poll(
                host,
                viewer_id,
                page,
                last_modified,
                high_water,
                now,
            );
            &&& forall|i: int|
                0 <= i < page.len() ==> any(
                    next.notifications,
                    stored_as(host, viewer_id, (#[trigger] page[i]).0.id),
                )
            &&& lookup(next.poll_states, poll_of(host, viewer_id)) == Some(
                PollModel { host, viewer_id, last_modified, high_water, updated_at: now },
            )
        }),
{
    store_all_stores(state, host, viewer_id, page, now);
    let stored = state.store_all(host, viewer_id, page, now);
    let next = state.commit_poll(host, viewer_id, page, last_modified, high_water, now);
    let key = poll_of(host, viewer_id);
    let s = stored.poll_states;
    let t = next.poll_states;
    first_exists(t, key);
    if any(s, key) {
        let i = choose|i: int| 0 <= i < s.len() && key(#[trigger] s[i]);
        assert(key(t[i]));
        let j = first(t, key)->0;
        assert(key(s[j]));
    } else {
        assert(key(t[s.len() as int]));
        let j = first(t, key)->0;
        if j < s.len() {
            assert(key(s[j]));
        }
    }
}

proof fn stored_stays(
    state: State,
    host: Seq<char>,
    viewer_id: i64,
    n: NotificationModel,
    raw: Seq<char>,
    now: i64,
    id: Seq<char>,
)
    ensures
        any(state.notifications, stored_as(host, viewer_id, id)) || id == n.id ==> any(
            state.upsert_notification(host, viewer_id, n, raw, now).notifications,
            stored_as(host, viewer_id, id),
        ),
{
    let q = stored_as(host, viewer_id, id);
    let stored = stored_as(host, viewer_id, n.id);
    let next = state.upsert_notification(host, viewer_id, n, raw, now);
    if any(state.notifications, q) || id == n.id {
        if any(state.notifications, stored) {
            let i = if any(state.notifications, q) {
                choose|i: int| 0 <= i < state.notifications.len() && q(
                    #[trigger] state.notifications[i],
                )
            } else {
                choose|i: int| 0 <= i < state.notifications.len() && stored(
                    #[trigger] state.notifications[i],
                )
            };
            assert(q(next.notifications[i]));
        } else {
            any_push(
                state.notifications,
                StoredModel {
                    host,
                    viewer_id,
                    notification: n,
                    raw,
                    first_seen_at: now,
                    last_seen_at: now,
                },
                q,
            );
        }
    }
}

proof fn store_all_stores(
    state: State,
    host: Seq<char>,
    viewer_id: i64,
    page: Seq<(NotificationModel, Seq<char>)>,
    now: i64,
)
    ensures
        forall|i: int|
            0 <= i < page.len() ==> any(
                state.store_all(host, viewer_id, page, now).notifications,
                stored_as(host, viewer_id, (#[trigger] page[i]).0.id),
            ),
    decreases page.len(),
{
    if page.len() > 0 {
        let front = page.drop_last();
        let before = state.store_all(host, viewer_id, front, now);
        store_all_stores(state, host, viewer_id, front, now);
        assert forall|i: int| 0 <= i < page.len() implies any(
            state.store_all(host, viewer_id, page, now).notifications,
            stored_as(host, viewer_id, (#[trigger] page[i]).0.id),
        ) by {
            if i < front.len() {
                assert(front[i] == page[i]);
            }
            stored_stays(
                before,
                host,
                viewer_id,
                page.last().0,
                page.last().1,
                now,
                page[i].0.id,
            );
        }
    }
}

// ---------------------------------------------------------------------------
// Named values and pruning
// ---------------------------------------------------------------------------

/// A named value reads back as it was set, and the others are untouched.
pub proof fn metadata_reads_back(
    state: State,
    key: Seq<char>,
    value: Seq<char>,
    now: i64,
    other: Seq<char>,
)
    ensures
        lookup(state.set_metadata(key, value, now).metadata, has_key(key)) matches Some(m)
            && m.value == value,
        other != key ==> lookup(state.set_metadata(key, value, now).metadata, has_key(other))
            == lookup(state.metadata, has_key(other)),
{
    let s = state.metadata;
    let t = state.set_metadata(key, value, now).metadata;
    first_exists(t, has_key(key));
    if any(s, has_key(key)) {
        let i = choose|i: int| 0 <= i < s.len() && has_key(key)(#[trigger] s[i]);
        assert(has_key(key)(t[i]));
        let j = first(t, has_key(key))->0;
        assert(has_key(key)(s[j]));
    } else {
        assert(has_key(key)(t[s.len() as int]));
        let j = first(t, has_key(key))->0;
        if j < s.len() {
            assert(has_key(key)(s[j]));
        }
    }
    if other != key {
        let q = has_key(other);
        first_in_range(s, q, 0);
        first_in_range(t, q, 0);
        if let Some(i) = first(s, q) {
            assert(q(t[i]));
            let j = first(t, q)->0;
            assert(q(s[j]));
            assert(i == j);
        } else {
            if let Some(j) = first(t, q) {
                if j < s.len() {
                    assert(q(s[j]));
                }
            }
        }
    }
}

/// Pruning removes no work that waits, runs or is parked, no discovery that is
/// not finished, no pull request that is watched, and no notification that a
/// remaining pull request came from.
pub proof fn prune_keeps_live_work(state: State, cutoff: i64)
    ensures
        ({
            let next = state.prune_older_than(cutoff);
            &&& forall|i: int|
                0 <= i < state.actions.len() && !(#[trigger] state.actions[i]).status.is_final()
                    ==> next.actions.contains(state.actions[i])
            &&& forall|i: int|
                0 <= i < state.discoveries.len() && (#[trigger] state.discoveries[i]).status
                    != DiscoveryStatus::Completed ==> next.discoveries.contains(
                    state.discoveries[i],
                )
            &&& forall|i: int|
                0 <= i < state.tracked_pulls.len() && (#[trigger] state.tracked_pulls[i]).active
                    ==> next.tracked_pulls.contains(state.tracked_pulls[i])
            &&& forall|i: int|
                0 <= i < state.notifications.len() && any(
                    next.tracked_pulls,
                    pull_uses(#[trigger] state.notifications[i]),
                ) ==> next.notifications.contains(state.notifications[i])
        }),
{
    let next = state.prune_older_than(cutoff);
    removed_keeps(state.actions, old_action(cutoff));
    removed_keeps(state.discoveries, old_discovery(cutoff));
    removed_keeps(state.tracked_pulls, old_pull(cutoff));
    removed_keeps(state.notifications, state.without_finished(cutoff).stale(cutoff));
}

/// A registration reads back as it was made: another clone of the same
/// repository takes the place of the one before. The registrations of other
/// repositories are untouched.
pub proof fn registration_reads_back(
    state: State,
    host: Seq<char>,
    repository: RegisteredModel,
    now: i64,
    other: i64,
)
    ensures
        state.upsert_registration(host, repository, now) matches Ok(next) ==> {
            &&& lookup(
                next.registrations,
                of_repository(host, repository.repository.id),
            ) matches Some(m) && m.repository.repository == repository.repository
                && m.repository.origin_url == repository.origin_url && m.repository.local_path
                == repository.local_path && m.updated_at == now
            &&& other != repository.repository.id ==> lookup(
                next.registrations,
                of_repository(host, other),
            ) == lookup(state.registrations, of_repository(host, other))
        },
{
    if let Ok(next) = state.upsert_registration(host, repository, now) {
        let p = of_repository(host, repository.repository.id);
        let s = state.registrations;
        let t = next.registrations;
        first_exists(t, p);
        if any(s, p) {
            let i = choose|i: int| 0 <= i < s.len() && p(#[trigger] s[i]);
            assert(p(t[i]));
            let j = first(t, p)->0;
            assert(p(s[j]));
        } else {
            assert(p(t[s.len() as int]));
            let j = first(t, p)->0;
            if j < s.len() {
                assert(p(s[j]));
            }
        }
        if other != repository.repository.id {
            let q = of_repository(host, other);
            first_in_range(s, q, 0);
            first_in_range(t, q, 0);
            if let Some(i) = first(s, q) {
                assert(q(t[i]));
                let j = first(t, q)->0;
                assert(q(s[j]));
                assert(i == j);
            } else {
                if let Some(j) = first(t, q) {
                    if j < s.len() {
                        assert(q(s[j]));
                    }
                }
            }
        }
    }
}

/// A pull request that is watched reads back as it was stored, whatever was
/// known of it before.
pub proof fn watched_pull_reads_back(state: State, pull: TrackedModel)
    ensures
        state.upsert_tracked_pull_request(pull) matches Ok(next) ==> lookup(
            next.tracked_pulls,
            pull.key(),
        ) == Some(pull),
{
    if let Ok(next) = state.upsert_tracked_pull_request(pull) {
        let p = pull.key();
        let s = state.tracked_pulls;
        let t = next.tracked_pulls;
        first_exists(t, p);
        if any(s, p) {
            let i = choose|i: int| 0 <= i < s.len() && p(#[trigger] s[i]);
            assert(p(t[i]));
            let j = first(t, p)->0;
            assert(p(s[j]));
        } else {
            assert(p(t[s.len() as int]));
            let j = first(t, p)->0;
            if j < s.len() {
                assert(p(s[j]));
            }
        }
    }
}

} // verus!
