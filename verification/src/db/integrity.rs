//! What holds of the tables after any sequence of operations.

use vstd::prelude::*;
use crate::db::actions::{
    has_id, is_open, is_outdated, is_parked, is_running, is_same, is_waiting, runs_for, runs_in,
    MAX_ACTION_ATTEMPTS,
};
use crate::db::notifications::{
    discovery_of, due_discovery, running_discoveries, running_discovery, stored_as,
};
use crate::db::overview::{discovery_uses, old_action, old_discovery, old_pull};
use crate::db::pulls::pull_of;
use crate::db::registry::{
    bootstrap_of, bootstraps_of, has_key, of_repository, poll_of, pulls_of, takes_name,
    unfinished_of, waiting_in,
};
use crate::db::leases::{held_by, lease_of, live_for, open_to};
use crate::db::rows::{
    ActionModel, ActionStatus, BootstrapModel, DiscoveryModel, LeaseModel, MetadataModel,
    NewActionModel, PollModel, RegistrationModel, StoredModel, TrackedModel,
};
use crate::db::State;
use crate::model::{NotificationModel, RegisteredModel};
use crate::table::{
    all, all_push, all_removed, all_updated, any, any_push, any_removed, any_updated, best,
    best_in_range, first, first_in_range, pairwise, pairwise_exchange, pairwise_push,
    pairwise_removed, pairwise_updated, removed_keeps, updated,
};

verus! {

// ---------------------------------------------------------------------------
// Keys
// ---------------------------------------------------------------------------

pub open spec fn other_id(a: ActionModel, b: ActionModel) -> bool {
    a.id != b.id
}

pub open spec fn other_work(a: ActionModel, b: ActionModel) -> bool {
    !a.identical(b)
}

/// The two do not both run in one repository.
pub open spec fn apart(a: ActionModel, b: ActionModel) -> bool {
    !(a.status == ActionStatus::Running && b.status == ActionStatus::Running && a.host == b.host
        && a.repository_id == b.repository_id)
}

pub open spec fn other_repository(a: RegistrationModel, b: RegistrationModel) -> bool {
    !(a.host == b.host && a.repository.repository.id == b.repository.repository.id)
}

pub open spec fn other_name(a: RegistrationModel, b: RegistrationModel) -> bool {
    !(a.host == b.host && a.repository.repository.full_name == b.repository.repository.full_name)
}

pub open spec fn other_bootstrap(a: BootstrapModel, b: BootstrapModel) -> bool {
    !(a.host == b.host && a.viewer_id == b.viewer_id && a.repository_id == b.repository_id)
}

pub open spec fn other_lease(a: LeaseModel, b: LeaseModel) -> bool {
    !(a.host == b.host && a.viewer_id == b.viewer_id)
}

pub open spec fn other_poll(a: PollModel, b: PollModel) -> bool {
    !(a.host == b.host && a.viewer_id == b.viewer_id)
}

pub open spec fn other_key(a: MetadataModel, b: MetadataModel) -> bool {
    a.key != b.key
}

pub open spec fn other_notification(a: StoredModel, b: StoredModel) -> bool {
    !(a.host == b.host && a.viewer_id == b.viewer_id && a.notification.id == b.notification.id)
}

pub open spec fn other_discovery(a: DiscoveryModel, b: DiscoveryModel) -> bool {
    !(a.host == b.host && a.viewer_id == b.viewer_id && a.notification_id == b.notification_id)
}

pub open spec fn other_pull(a: TrackedModel, b: TrackedModel) -> bool {
    !(a.host == b.host && a.viewer_id == b.viewer_id && a.repository_id == b.repository_id
        && a.pull_request.id == b.pull_request.id)
}

// ---------------------------------------------------------------------------
// The invariant
// ---------------------------------------------------------------------------

impl State {
    /// Every action has a number of its own, no work is queued twice, a
    /// repository runs one action at a time, and no action was launched more
    /// often than it may be.
    pub open spec fn actions_wf(self) -> bool {
        &&& pairwise(self.actions, |a: ActionModel, b: ActionModel| other_id(a, b))
        &&& pairwise(self.actions, |a: ActionModel, b: ActionModel| other_work(a, b))
        &&& pairwise(self.actions, |a: ActionModel, b: ActionModel| apart(a, b))
        &&& all(
            self.actions,
            |m: ActionModel| m.id <= self.last_action_id && m.attempts <= MAX_ACTION_ATTEMPTS,
        )
    }

    /// The repository of a bootstrap is registered.
    pub open spec fn bootstraps_rooted(self) -> bool {
        all(
            self.bootstraps,
            |b: BootstrapModel| any(self.registrations, of_repository(b.host, b.repository_id)),
        )
    }

    /// The notification of a discovery is stored.
    pub open spec fn discoveries_rooted(self) -> bool {
        all(
            self.discoveries,
            |d: DiscoveryModel|
                any(self.notifications, stored_as(d.host, d.viewer_id, d.notification_id)),
        )
    }

    pub open spec fn registry_wf(self) -> bool {
        &&& pairwise(
            self.registrations,
            |a: RegistrationModel, b: RegistrationModel| other_repository(a, b),
        )
        &&& pairwise(
            self.registrations,
            |a: RegistrationModel, b: RegistrationModel| other_name(a, b),
        )
        &&& pairwise(self.bootstraps, |a: BootstrapModel, b: BootstrapModel| other_bootstrap(a, b))
        &&& self.bootstraps_rooted()
    }

    pub open spec fn discoveries_wf(self) -> bool {
        &&& pairwise(self.notifications, |a: StoredModel, b: StoredModel| other_notification(a, b))
        &&& pairwise(self.discoveries, |a: DiscoveryModel, b: DiscoveryModel| other_discovery(a, b))
        &&& self.discoveries_rooted()
    }

    /// The tables hold together.
    pub open spec fn wf(self) -> bool {
        &&& self.actions_wf()
        &&& self.registry_wf()
        &&& self.discoveries_wf()
        &&& pairwise(self.tracked_pulls, |a: TrackedModel, b: TrackedModel| other_pull(a, b))
        &&& pairwise(self.leases, |a: LeaseModel, b: LeaseModel| other_lease(a, b))
        &&& pairwise(self.poll_states, |a: PollModel, b: PollModel| other_poll(a, b))
        &&& pairwise(self.metadata, |a: MetadataModel, b: MetadataModel| other_key(a, b))
    }
}

/// The empty tables hold together.
pub proof fn empty_wf()
    ensures
        State::empty().wf(),
{
}

// ---------------------------------------------------------------------------
// Actions
// ---------------------------------------------------------------------------

/// A change of actions that keeps identities, starts nothing and counts no
/// attempt keeps the queue in order.
proof fn actions_updated(
    state: State,
    p: spec_fn(ActionModel) -> bool,
    f: spec_fn(ActionModel) -> ActionModel,
)
    requires
        state.actions_wf(),
        forall|m: ActionModel|
            #[trigger] p(m) ==> f(m).id == m.id && f(m).identical(m) && f(m).attempts <= m.attempts
                && f(m).status != ActionStatus::Running,
    ensures
        (State { actions: updated(state.actions, p, f), ..state }).actions_wf(),
{
    pairwise_updated(state.actions, p, f, |a: ActionModel, b: ActionModel| other_id(a, b));
    pairwise_updated(state.actions, p, f, |a: ActionModel, b: ActionModel| other_work(a, b));
    pairwise_updated(state.actions, p, f, |a: ActionModel, b: ActionModel| apart(a, b));
    let bounded = |m: ActionModel|
        m.id <= state.last_action_id && m.attempts <= MAX_ACTION_ATTEMPTS;
    all_updated(state.actions, p, f, bounded);
}

/// Queueing a review keeps the invariant.
pub proof fn enqueue_keeps_wf(state: State, new: NewActionModel, now: i64)
    requires
        state.wf(),
    ensures
        state.enqueue_action(new, now) matches Ok((next, _)) ==> next.wf(),
{
    let rest = state.supersede(new, now);
    actions_updated(state, is_outdated(new), |m: ActionModel| m.superseded(now));
    match first(state.actions, is_same(new)) {
        Some(k) => {
            let id = state.actions[k].id;
            let f = |m: ActionModel| m.refreshed(new, now);
            let p = is_waiting(id);
            pairwise_updated(rest.actions, p, f, |a: ActionModel, b: ActionModel| other_id(a, b));
            pairwise_updated(rest.actions, p, f, |a: ActionModel, b: ActionModel| other_work(a, b));
            pairwise_updated(rest.actions, p, f, |a: ActionModel, b: ActionModel| apart(a, b));
            all_updated(
                rest.actions,
                p,
                f,
                |m: ActionModel| m.id <= rest.last_action_id && m.attempts <= MAX_ACTION_ATTEMPTS,
            );
        },
        None => if state.last_action_id < i64::MAX {
            let id = (state.last_action_id + 1) as i64;
            let m = ActionModel::created(id, new, now);
            first_in_range(state.actions, is_same(new), 0);
            assert forall|i: int| 0 <= i < rest.actions.len() implies other_id(
                #[trigger] rest.actions[i],
                m,
            ) && other_work(rest.actions[i], m) && apart(rest.actions[i], m) by {
                assert(!is_same(new)(state.actions[i]));
            }
            pairwise_push(rest.actions, m, |a: ActionModel, b: ActionModel| other_id(a, b));
            pairwise_push(rest.actions, m, |a: ActionModel, b: ActionModel| other_work(a, b));
            pairwise_push(rest.actions, m, |a: ActionModel, b: ActionModel| apart(a, b));
        },
    }
}

/// Claiming an action keeps the invariant: above all, no repository gets a
/// second running action.
pub proof fn claim_keeps_wf(state: State, host: Seq<char>, viewer_id: i64, limit: nat, now: i64)
    requires
        state.wf(),
    ensures
        state.claim_due_action(host, viewer_id, limit, now).0.wf(),
{
    let before = |a: ActionModel, b: ActionModel| a.claimed_before(b);
    let test = state.claimable(host, viewer_id, now);
    best_in_range(state.actions, test, before);
    if let Some(k) = state.next_action(host, viewer_id, limit, now) {
        let s = state.actions;
        let m = s[k].claimed(now);
        assert forall|i: int| 0 <= i < s.len() && i != k implies other_id(#[trigger] s[i], m)
            && other_id(m, s[i]) && other_work(s[i], m) && other_work(m, s[i]) && apart(s[i], m)
            && apart(m, s[i]) by {
            let r1 = |a: ActionModel, b: ActionModel| other_id(a, b);
            let r2 = |a: ActionModel, b: ActionModel| other_work(a, b);
            if i < k {
                assert(r1(s[i], s[k]) && r2(s[i], s[k]));
            } else {
                assert(r1(s[k], s[i]) && r2(s[k], s[i]));
            }
            assert(!state.busy(s[k].host, s[k].repository_id));
            assert(!runs_in(s[k].host, s[k].repository_id)(s[i]));
        }
        pairwise_exchange(s, k, m, |a: ActionModel, b: ActionModel| other_id(a, b));
        pairwise_exchange(s, k, m, |a: ActionModel, b: ActionModel| other_work(a, b));
        pairwise_exchange(s, k, m, |a: ActionModel, b: ActionModel| apart(a, b));
    }
}

/// Finishing, cancelling, failing, deferring and recovering actions keeps the
/// invariant.
pub proof fn outcomes_keep_wf(
    state: State,
    id: i64,
    text: Seq<char>,
    retry_at: i64,
    now: i64,
    host: Seq<char>,
    viewer_id: i64,
)
    requires
        state.wf(),
    ensures
        state.complete_action(id, now).wf(),
        state.cancel_action(id, text, now).wf(),
        state.fail_action(id, text, retry_at, now).0.wf(),
        state.defer_action(id, text, retry_at, now).wf(),
        state.recover_running_actions(host, viewer_id, retry_at, now).wf(),
{
    actions_updated(state, is_running(id), |m: ActionModel| m.completed(now));
    actions_updated(state, is_open(id), |m: ActionModel| m.cancelled(text, now));
    actions_updated(state, is_running(id), |m: ActionModel| m.deferred(text, retry_at, now));
    actions_updated(
        state,
        has_id(id),
        |m: ActionModel| m.failed(ActionStatus::Parked, text, retry_at, now),
    );
    actions_updated(
        state,
        has_id(id),
        |m: ActionModel| m.failed(ActionStatus::Pending, text, retry_at, now),
    );
    actions_updated(
        state,
        runs_for(host, viewer_id),
        |m: ActionModel|
            m.failed(
                m.after_failure(),
                "daemon stopped while review command was running"@,
                retry_at,
                now,
            ),
    );
}

/// Retrying a parked action keeps the invariant.
pub proof fn retry_keeps_wf(
    state: State,
    host: Seq<char>,
    viewer_id: i64,
    full_name: Seq<char>,
    number: u64,
    now: i64,
)
    requires
        state.wf(),
    ensures
        state.retry_newest_parked(host, viewer_id, full_name, number, now) matches Ok((next, _))
            ==> next.wf(),
{
    let newer = |a: ActionModel, b: ActionModel| a.newer(b);
    let test = is_parked(host, viewer_id, full_name, number);
    best_in_range(state.actions, test, newer);
    if let Some(k) = best(state.actions, test, newer) {
        let s = state.actions;
        let m = s[k].retried(now);
        assert forall|i: int| 0 <= i < s.len() && i != k implies other_id(#[trigger] s[i], m)
            && other_id(m, s[i]) && other_work(s[i], m) && other_work(m, s[i]) by {
            let r1 = |a: ActionModel, b: ActionModel| other_id(a, b);
            let r2 = |a: ActionModel, b: ActionModel| other_work(a, b);
            if i < k {
                assert(r1(s[i], s[k]) && r2(s[i], s[k]));
            } else {
                assert(r1(s[k], s[i]) && r2(s[k], s[i]));
            }
        }
        pairwise_exchange(s, k, m, |a: ActionModel, b: ActionModel| other_id(a, b));
        pairwise_exchange(s, k, m, |a: ActionModel, b: ActionModel| other_work(a, b));
        pairwise_exchange(s, k, m, |a: ActionModel, b: ActionModel| apart(a, b));
    }
}

// ---------------------------------------------------------------------------
// Registry
// ---------------------------------------------------------------------------

/// Registering a repository keeps the invariant.
pub proof fn register_keeps_wf(state: State, host: Seq<char>, repository: RegisteredModel, now: i64)
    requires
        state.wf(),
    ensures
        state.upsert_registration(host, repository, now) matches Ok(next) ==> next.wf(),
{
    if !any(state.registrations, takes_name(host, repository)) {
        let id = repository.repository.id;
        let changed = state.registration_changes(host, repository);
        let key = of_repository(host, id);
        let r1 = |a: RegistrationModel, b: RegistrationModel| other_repository(a, b);
        let r2 = |a: RegistrationModel, b: RegistrationModel| other_name(a, b);
        let s = state.registrations;
        let next = state.upsert_registration(host, repository, now)->Ok_0;
        let t = next.registrations;
        if any(s, key) {
            let f = |m: RegistrationModel| m.replaced(repository, changed, now);
            pairwise_updated(s, key, f, r1);
            assert forall|i: int, j: int|
                #![trigger t[i], t[j]]
                0 <= i < j < t.len() implies other_name(t[i], t[j]) by {
                assert(r1(s[i], s[j]) && r2(s[i], s[j]));
                assert(!takes_name(host, repository)(s[i]));
                assert(!takes_name(host, repository)(s[j]));
            }
        } else {
            let m = RegistrationModel::created(host, repository, now);
            assert forall|i: int| 0 <= i < s.len() implies other_repository(#[trigger] s[i], m)
                && other_name(s[i], m) by {
                assert(!key(s[i]));
                assert(!takes_name(host, repository)(s[i]));
            }
            pairwise_push(s, m, r1);
            pairwise_push(s, m, r2);
        }
        let g = |m: BootstrapModel| m.with(true, now);
        pairwise_updated(
            state.bootstraps,
            bootstraps_of(host, id),
            g,
            |a: BootstrapModel, b: BootstrapModel| other_bootstrap(a, b),
        );
        assert forall|i: int| 0 <= i < next.bootstraps.len() implies any(
            t,
            of_repository(
                (#[trigger] next.bootstraps[i]).host,
                next.bootstraps[i].repository_id,
            ),
        ) by {
            let b = state.bootstraps[i];
            let q = of_repository(b.host, b.repository_id);
            assert(any(s, q));
            if any(s, key) {
                any_updated(
                    s,
                    key,
                    |m: RegistrationModel| m.replaced(repository, changed, now),
                    q,
                );
            } else {
                any_push(s, RegistrationModel::created(host, repository, now), q);
            }
        }
    }
}

/// Forgetting a repository keeps the invariant.
pub proof fn unregister_keeps_wf(state: State, host: Seq<char>, repository_id: i64, now: i64)
    requires
        state.wf(),
    ensures
        state.remove_registration(host, repository_id, now).wf(),
{
    let next = state.remove_registration(host, repository_id, now);
    let key = of_repository(host, repository_id);
    actions_updated(state, waiting_in(host, repository_id), |m: ActionModel| m.abandoned(now));
    pairwise_updated(
        state.tracked_pulls,
        pulls_of(host, repository_id),
        |m: TrackedModel| m.deactivated(now),
        |a: TrackedModel, b: TrackedModel| other_pull(a, b),
    );
    pairwise_removed(
        state.discoveries,
        unfinished_of(host, repository_id),
        |a: DiscoveryModel, b: DiscoveryModel| other_discovery(a, b),
    );
    all_removed(
        state.discoveries,
        unfinished_of(host, repository_id),
        |d: DiscoveryModel|
            any(state.notifications, stored_as(d.host, d.viewer_id, d.notification_id)),
    );
    pairwise_removed(
        state.registrations,
        key,
        |a: RegistrationModel, b: RegistrationModel| other_repository(a, b),
    );
    pairwise_removed(
        state.registrations,
        key,
        |a: RegistrationModel, b: RegistrationModel| other_name(a, b),
    );
    pairwise_removed(
        state.bootstraps,
        bootstraps_of(host, repository_id),
        |a: BootstrapModel, b: BootstrapModel| other_bootstrap(a, b),
    );
    removed_keeps(state.bootstraps, bootstraps_of(host, repository_id));
    assert forall|i: int| 0 <= i < next.bootstraps.len() implies any(
        next.registrations,
        of_repository((#[trigger] next.bootstraps[i]).host, next.bootstraps[i].repository_id),
    ) by {
        let b = next.bootstraps[i];
        let q = of_repository(b.host, b.repository_id);
        let rooted = |b: BootstrapModel|
            any(state.registrations, of_repository(b.host, b.repository_id));
        let j = choose|j: int| 0 <= j < state.bootstraps.len() && state.bootstraps[j] == b;
        assert(state.bootstraps.contains(b));
        assert(rooted(state.bootstraps[j]));
        let k = choose|k: int|
            0 <= k < state.registrations.len() && q(#[trigger] state.registrations[k]);
        let both = |m: RegistrationModel| q(m) && !key(m);
        if key(state.registrations[k]) {
            assert(any(state.registrations, key));
            assert(!bootstraps_of(host, repository_id)(b));
        }
        assert(both(state.registrations[k]));
        any_removed(state.registrations, key, q);
    }
}

/// Recording a bootstrap keeps the invariant.
pub proof fn bootstrap_keeps_wf(
    state: State,
    host: Seq<char>,
    viewer_id: i64,
    repository_id: i64,
    now: i64,
)
    requires
        state.wf(),
    ensures
        state.mark_bootstrap_complete(host, viewer_id, repository_id, now).wf(),
{
    let key = bootstrap_of(host, viewer_id, repository_id);
    let r = |a: BootstrapModel, b: BootstrapModel| other_bootstrap(a, b);
    let f = |m: BootstrapModel| m.with(false, now);
    let rooted = |b: BootstrapModel|
        any(state.registrations, of_repository(b.host, b.repository_id));
    pairwise_updated(state.bootstraps, key, f, r);
    all_updated(state.bootstraps, key, f, rooted);
    if any(state.registrations, of_repository(host, repository_id)) && !any(
        state.bootstraps,
        key,
    ) {
        let m = BootstrapModel { host, viewer_id, repository_id, pending: false, updated_at: now };
        assert forall|i: int| 0 <= i < state.bootstraps.len() implies other_bootstrap(
            #[trigger] state.bootstraps[i],
            m,
        ) by {
            assert(!key(state.bootstraps[i]));
        }
        pairwise_push(state.bootstraps, m, r);
        all_push(state.bootstraps, m, rooted);
    }
}

/// Setting a named value or the start of the next poll keeps the invariant.
pub proof fn settings_keep_wf(
    state: State,
    key: Seq<char>,
    value: Seq<char>,
    host: Seq<char>,
    viewer_id: i64,
    last_modified: Option<Seq<char>>,
    high_water: Option<Seq<char>>,
    now: i64,
)
    requires
        state.wf(),
    ensures
        state.set_metadata(key, value, now).wf(),
        state.set_poll_state(host, viewer_id, last_modified, high_water, now).wf(),
{
    let entry = MetadataModel { key, value, updated_at: now };
    let r1 = |a: MetadataModel, b: MetadataModel| other_key(a, b);
    pairwise_updated(state.metadata, has_key(key), |m: MetadataModel| entry, r1);
    if !any(state.metadata, has_key(key)) {
        assert forall|i: int| 0 <= i < state.metadata.len() implies other_key(
            #[trigger] state.metadata[i],
            entry,
        ) by {
            assert(!has_key(key)(state.metadata[i]));
        }
        pairwise_push(state.metadata, entry, r1);
    }
    let poll = PollModel { host, viewer_id, last_modified, high_water, updated_at: now };
    let r2 = |a: PollModel, b: PollModel| other_poll(a, b);
    pairwise_updated(state.poll_states, poll_of(host, viewer_id), |m: PollModel| poll, r2);
    if !any(state.poll_states, poll_of(host, viewer_id)) {
        assert forall|i: int| 0 <= i < state.poll_states.len() implies other_poll(
            #[trigger] state.poll_states[i],
            poll,
        ) by {
            assert(!poll_of(host, viewer_id)(state.poll_states[i]));
        }
        pairwise_push(state.poll_states, poll, r2);
    }
}

// ---------------------------------------------------------------------------
// Notifications and discoveries
// ---------------------------------------------------------------------------

/// Storing a notification keeps the invariant.
pub proof fn notification_keeps_wf(
    state: State,
    host: Seq<char>,
    viewer_id: i64,
    n: NotificationModel,
    raw: Seq<char>,
    now: i64,
)
    requires
        state.wf(),
    ensures
        state.upsert_notification(host, viewer_id, n, raw, now).wf(),
{
    let next = state.upsert_notification(host, viewer_id, n, raw, now);
    let stored = stored_as(host, viewer_id, n.id);
    let queued = discovery_of(host, viewer_id, n.id);
    let r1 = |a: StoredModel, b: StoredModel| other_notification(a, b);
    let r2 = |a: DiscoveryModel, b: DiscoveryModel| other_discovery(a, b);
    let f = |m: StoredModel| m.seen(n, raw, now);
    let new = StoredModel {
        host,
        viewer_id,
        notification: n,
        raw,
        first_seen_at: now,
        last_seen_at: now,
    };
    if any(state.notifications, stored) {
        let s = state.notifications;
        let t = next.notifications;
        assert forall|i: int, j: int| #![trigger t[i], t[j]] 0 <= i < j < t.len() implies r1(
            t[i],
            t[j],
        ) by {
            assert(r1(s[i], s[j]));
        }
    } else {
        assert forall|i: int| 0 <= i < state.notifications.len() implies other_notification(
            #[trigger] state.notifications[i],
            new,
        ) by {
            assert(!stored(state.notifications[i]));
        }
        pairwise_push(state.notifications, new, r1);
    }
    // Every notification that was stored still is, and the new one is too.
    assert forall|h: Seq<char>, v: i64, id: Seq<char>|
        #![trigger stored_as(h, v, id)]
        any(state.notifications, stored_as(h, v, id)) || (h == host && v == viewer_id && id
            == n.id) implies any(next.notifications, stored_as(h, v, id)) by {
        let q = stored_as(h, v, id);
        if any(state.notifications, stored) {
            let i = if any(state.notifications, q) {
                choose|i: int| 0 <= i < state.notifications.len() && q(
                    #[trigger] state.notifications[i],
                )
            } else {
                choose|i: int| 0 <= i < state.notifications.len() && stored(
                    #[trigger] state.notifications[i],
                )
            };
            assert(q(next.notifications[i]));
        } else {
            any_push(state.notifications, new, q);
        }
    }
    let g = |m: DiscoveryModel| m.seen(n, now);
    let d = DiscoveryModel::created(host, viewer_id, n, now);
    if n.asks_for_review() && any(state.registrations, of_repository(host, n.repository_id)) {
        if any(state.discoveries, queued) {
            pairwise_updated(state.discoveries, queued, g, r2);
        } else {
            assert forall|i: int| 0 <= i < state.discoveries.len() implies other_discovery(
                #[trigger] state.discoveries[i],
                d,
            ) by {
                assert(!queued(state.discoveries[i]));
            }
            pairwise_push(state.discoveries, d, r2);
        }
    }
    assert forall|i: int| 0 <= i < next.discoveries.len() implies any(
        next.notifications,
        stored_as(
            (#[trigger] next.discoveries[i]).host,
            next.discoveries[i].viewer_id,
            next.discoveries[i].notification_id,
        ),
    ) by {
        let m = next.discoveries[i];
        let q = stored_as(m.host, m.viewer_id, m.notification_id);
        if i < state.discoveries.len() {
            let o = state.discoveries[i];
            let rooted = |d: DiscoveryModel|
                any(state.notifications, stored_as(d.host, d.viewer_id, d.notification_id));
            assert(rooted(o));
            assert(q == stored_as(o.host, o.viewer_id, o.notification_id));
        }
    }
}

/// Committing a poll or a bootstrap keeps the invariant.
pub proof fn commit_keeps_wf(
    state: State,
    host: Seq<char>,
    viewer_id: i64,
    repository_id: i64,
    page: Seq<(NotificationModel, Seq<char>)>,
    last_modified: Option<Seq<char>>,
    high_water: Option<Seq<char>>,
    now: i64,
)
    requires
        state.wf(),
    ensures
        state.commit_poll(host, viewer_id, page, last_modified, high_water, now).wf(),
        state.commit_bootstrap(host, viewer_id, repository_id, page, now).wf(),
{
    store_all_keeps_wf(state, host, viewer_id, page, now);
    let stored = state.store_all(host, viewer_id, page, now);
    settings_keep_wf(
        stored,
        seq![],
        seq![],
        host,
        viewer_id,
        last_modified,
        high_water,
        now,
    );
    bootstrap_keeps_wf(stored, host, viewer_id, repository_id, now);
}

proof fn store_all_keeps_wf(
    state: State,
    host: Seq<char>,
    viewer_id: i64,
    page: Seq<(NotificationModel, Seq<char>)>,
    now: i64,
)
    requires
        state.wf(),
    ensures
        state.store_all(host, viewer_id, page, now).wf(),
    decreases page.len(),
{
    if page.len() > 0 {
        store_all_keeps_wf(state, host, viewer_id, page.drop_last(), now);
        notification_keeps_wf(
            state.store_all(host, viewer_id, page.drop_last(), now),
            host,
            viewer_id,
            page.last().0,
            page.last().1,
            now,
        );
    }
}

proof fn discoveries_updated(
    state: State,
    p: spec_fn(DiscoveryModel) -> bool,
    f: spec_fn(DiscoveryModel) -> DiscoveryModel,
)
    requires
        state.discoveries_wf(),
        forall|m: DiscoveryModel|
            #[trigger] p(m) ==> f(m).host == m.host && f(m).viewer_id == m.viewer_id && f(
                m,
            ).notification_id == m.notification_id,
    ensures
        (State { discoveries: updated(state.discoveries, p, f), ..state }).discoveries_wf(),
{
    pairwise_updated(
        state.discoveries,
        p,
        f,
        |a: DiscoveryModel, b: DiscoveryModel| other_discovery(a, b),
    );
    all_updated(
        state.discoveries,
        p,
        f,
        |d: DiscoveryModel|
            any(state.notifications, stored_as(d.host, d.viewer_id, d.notification_id)),
    );
}

/// Claiming, finishing, deferring and recovering discoveries keeps the
/// invariant.
pub proof fn discoveries_keep_wf(
    state: State,
    host: Seq<char>,
    viewer_id: i64,
    id: Seq<char>,
    error: Seq<char>,
    retry_at: i64,
    now: i64,
)
    requires
        state.wf(),
    ensures
        state.claim_pending_discovery(host, viewer_id, now) matches Ok((next, _)) ==> next.wf(),
        state.complete_discovery(host, viewer_id, id, now).wf(),
        state.defer_discovery(host, viewer_id, id, error, retry_at, now).wf(),
        state.recover_running_discoveries(host, viewer_id, retry_at, now).wf(),
{
    let key = running_discovery(host, viewer_id, id);
    discoveries_updated(state, key, |m: DiscoveryModel| m.completed(now));
    discoveries_updated(state, key, |m: DiscoveryModel| m.deferred(error, retry_at, now));
    discoveries_updated(
        state,
        running_discoveries(host, viewer_id),
        |m: DiscoveryModel| m.recovered(retry_at, now),
    );
    let before = |a: DiscoveryModel, b: DiscoveryModel| a.claimed_before(b);
    let due = due_discovery(host, viewer_id, now);
    best_in_range(state.discoveries, due, before);
    if let Some(k) = best(state.discoveries, due, before) {
        let s = state.discoveries;
        let m = s[k].claimed(now);
        let r = |a: DiscoveryModel, b: DiscoveryModel| other_discovery(a, b);
        assert forall|i: int| 0 <= i < s.len() && i != k implies other_discovery(
            #[trigger] s[i],
            m,
        ) && other_discovery(m, s[i]) by {
            if i < k {
                assert(r(s[i], s[k]));
            } else {
                assert(r(s[k], s[i]));
            }
        }
        pairwise_exchange(s, k, m, r);
        let rooted = |d: DiscoveryModel|
            any(state.notifications, stored_as(d.host, d.viewer_id, d.notification_id));
        assert(rooted(s[k]));
        assert(rooted(m));
        assert(all(s.update(k, m), rooted));
    }
}

// ---------------------------------------------------------------------------
// Pull requests, leases, pruning
// ---------------------------------------------------------------------------

/// Watching a pull request, or no longer, keeps the invariant.
pub proof fn pulls_keep_wf(
    state: State,
    pull: TrackedModel,
    host: Seq<char>,
    viewer_id: i64,
    repository_id: i64,
    pull_request_id: i64,
    now: i64,
)
    requires
        state.wf(),
    ensures
        state.upsert_tracked_pull_request(pull) matches Ok(next) ==> next.wf(),
        state.deactivate_tracked_pull_request(
            host,
            viewer_id,
            repository_id,
            pull_request_id,
            now,
        ).wf(),
{
    let r = |a: TrackedModel, b: TrackedModel| other_pull(a, b);
    pairwise_updated(state.tracked_pulls, pull.key(), |m: TrackedModel| pull, r);
    if !any(state.tracked_pulls, pull.key()) {
        assert forall|i: int| 0 <= i < state.tracked_pulls.len() implies other_pull(
            #[trigger] state.tracked_pulls[i],
            pull,
        ) by {
            assert(!pull.key()(state.tracked_pulls[i]));
        }
        pairwise_push(state.tracked_pulls, pull, r);
    }
    pairwise_updated(
        state.tracked_pulls,
        pull_of(host, viewer_id, repository_id, pull_request_id),
        |m: TrackedModel| m.deactivated(now),
        r,
    );
}

/// Taking, renewing and giving up leases keeps the invariant.
pub proof fn leases_keep_wf(
    state: State,
    host: Seq<char>,
    viewer_id: i64,
    login: Seq<char>,
    owner: Seq<char>,
    now: i64,
    duration: i64,
)
    requires
        state.wf(),
    ensures
        state.acquire_lease(host, viewer_id, login, owner, now, duration) matches Ok((next, _))
            ==> next.wf(),
        state.renew_lease(host, viewer_id, owner, now, duration) matches Ok((next, _))
            ==> next.wf(),
        state.release_lease(host, viewer_id, owner).wf(),
{
    let r = |a: LeaseModel, b: LeaseModel| other_lease(a, b);
    let expires_at = (now + duration) as i64;
    let lease = LeaseModel {
        host,
        viewer_id,
        viewer_login: login,
        owner,
        expires_at,
        updated_at: now,
    };
    pairwise_updated(
        state.leases,
        open_to(host, viewer_id, owner, now),
        |m: LeaseModel| lease,
        r,
    );
    pairwise_updated(
        state.leases,
        live_for(host, viewer_id, owner, now),
        |m: LeaseModel| m.renewed(expires_at, now),
        r,
    );
    pairwise_removed(state.leases, held_by(host, viewer_id, owner), r);
    if !any(state.leases, lease_of(host, viewer_id)) {
        assert forall|i: int| 0 <= i < state.leases.len() implies other_lease(
            #[trigger] state.leases[i],
            lease,
        ) by {
            assert(!lease_of(host, viewer_id)(state.leases[i]));
        }
        pairwise_push(state.leases, lease, r);
    }
}

/// Pruning keeps the invariant: above all, no discovery loses its
/// notification.
pub proof fn prune_keeps_wf(state: State, cutoff: i64)
    requires
        state.wf(),
    ensures
        state.prune_older_than(cutoff).wf(),
{
    let rest = state.without_finished(cutoff);
    let next = state.prune_older_than(cutoff);
    let old = old_action(cutoff);
    pairwise_removed(state.actions, old, |a: ActionModel, b: ActionModel| other_id(a, b));
    pairwise_removed(state.actions, old, |a: ActionModel, b: ActionModel| other_work(a, b));
    pairwise_removed(state.actions, old, |a: ActionModel, b: ActionModel| apart(a, b));
    all_removed(
        state.actions,
        old,
        |m: ActionModel| m.id <= state.last_action_id && m.attempts <= MAX_ACTION_ATTEMPTS,
    );
    pairwise_removed(
        state.discoveries,
        old_discovery(cutoff),
        |a: DiscoveryModel, b: DiscoveryModel| other_discovery(a, b),
    );
    let rooted = |d: DiscoveryModel|
        any(state.notifications, stored_as(d.host, d.viewer_id, d.notification_id));
    all_removed(state.discoveries, old_discovery(cutoff), rooted);
    pairwise_removed(
        state.tracked_pulls,
        old_pull(cutoff),
        |a: TrackedModel, b: TrackedModel| other_pull(a, b),
    );
    let stale = rest.stale(cutoff);
    pairwise_removed(
        state.notifications,
        stale,
        |a: StoredModel, b: StoredModel| other_notification(a, b),
    );
    assert forall|i: int| 0 <= i < next.discoveries.len() implies any(
        next.notifications,
        stored_as(
            (#[trigger] next.discoveries[i]).host,
            next.discoveries[i].viewer_id,
            next.discoveries[i].notification_id,
        ),
    ) by {
        let d = rest.discoveries[i];
        let q = stored_as(d.host, d.viewer_id, d.notification_id);
        assert(rooted(d));
        let k = choose|k: int|
            0 <= k < state.notifications.len() && q(#[trigger] state.notifications[k]);
        let n = state.notifications[k];
        assert(discovery_uses(n)(rest.discoveries[i]));
        assert(any(rest.discoveries, discovery_uses(n)));
        let both = |m: StoredModel| q(m) && !stale(m);
        assert(both(state.notifications[k]));
        any_removed(state.notifications, stale, q);
    }
}

} // verus!
