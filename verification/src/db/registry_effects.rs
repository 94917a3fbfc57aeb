//! What the operations on registrations, settings, leases and old rows do, row by
//! row.

use vstd::prelude::*;
use crate::db::integrity::other_repository;
use crate::db::leases::{held_by, lease_of, live_for, open_to};
use crate::db::overview::{old_action, old_discovery, old_pull};
use crate::db::registry::{
    bootstrap_of, bootstraps_of, has_key, of_name, of_repository, poll_of, takes_name,
};
use crate::db::rows::{
    ActionModel, ActionStatus, BootstrapModel, DbError, DiscoveryModel, DiscoveryStatus, LeaseModel,
    MetadataModel, PollModel, RegistrationModel, StoredModel, TrackedModel,
};
use crate::db::State;
use crate::model::RegisteredModel;
use crate::paths::paths_equal;
use crate::table::{any, first, first_in_range, lookup, removed_keeps};

verus! {

/// The row registers the repository with that number.
pub open spec fn registers(m: RegistrationModel, host: Seq<char>, id: i64) -> bool {
    m.host == host && m.repository.repository.id == id
}

/// The viewer's row about the first reading of a repository.
pub open spec fn tells_bootstrap(
    m: BootstrapModel,
    host: Seq<char>,
    viewer_id: i64,
    id: i64,
) -> bool {
    m.host == host && m.viewer_id == viewer_id && m.repository_id == id
}

/// A repository is registered once. Registering it again takes over what is given
/// and keeps when it was first registered; every viewer has to read it afresh
/// exactly where its name, its page, its origin or its clone is another one. A name
/// that another repository has is refused.
pub proof fn registering_replaces_its_own_row(
    state: State,
    host: Seq<char>,
    new: RegisteredModel,
    now: i64,
)
    requires
        state.wf(),
    ensures
        match state.upsert_registration(host, new, now) {
            Err(error) => error == DbError::NameTaken && exists|i: int|
                0 <= i < state.registrations.len() && (#[trigger] state.registrations[i]).host
                    == host && state.registrations[i].repository.repository.id != new.repository.id
                    && state.registrations[i].repository.repository.full_name
                    == new.repository.full_name,
            Ok(next) => {
                let id = new.repository.id;
                &&& forall|i: int|
                    0 <= i < state.registrations.len() && (#[trigger] state.registrations[i]).host
                        == host && state.registrations[i].repository.repository.id != id
                        ==> state.registrations[i].repository.repository.full_name
                        != new.repository.full_name
                &&& next == (State {
                    registrations: next.registrations,
                    bootstraps: next.bootstraps,
                    ..state
                })
                &&& (forall|i: int|
                    0 <= i < state.registrations.len() ==> !registers(
                        #[trigger] state.registrations[i],
                        host,
                        id,
                    )) ==> next.registrations == state.registrations.push(
                    RegistrationModel {
                        host,
                        repository: RegisteredModel { bootstrap_pending: true, ..new },
                        registered_at: now,
                        updated_at: now,
                    },
                )
                &&& forall|i: int|
                    0 <= i < state.registrations.len() && !registers(
                        #[trigger] state.registrations[i],
                        host,
                        id,
                    ) ==> next.registrations[i] == state.registrations[i]
                &&& forall|i: int|
                    0 <= i < state.registrations.len() && registers(
                        #[trigger] state.registrations[i],
                        host,
                        id,
                    ) ==> {
                        let old_row = state.registrations[i];
                        let changed = old_row.repository.repository.full_name
                            != new.repository.full_name || old_row.repository.repository.html_url
                            != new.repository.html_url || old_row.repository.origin_url
                            != new.origin_url || !paths_equal(
                            old_row.repository.local_path,
                            new.local_path,
                        );
                        &&& next.registrations.len() == state.registrations.len()
                        &&& next.registrations[i] == (RegistrationModel {
                            host,
                            repository: RegisteredModel {
                                bootstrap_pending: changed
                                    || old_row.repository.bootstrap_pending,
                                ..new
                            },
                            registered_at: old_row.registered_at,
                            updated_at: now,
                        })
                        &&& !changed ==> next.bootstraps == state.bootstraps
                        &&& changed ==> next.bootstraps.len() == state.bootstraps.len() && forall|
                            b: int,
                        |
                            0 <= b < state.bootstraps.len() ==> next.bootstraps[b] == if (
                            #[trigger] state.bootstraps[b]).host == host
                                && state.bootstraps[b].repository_id == id {
                                BootstrapModel {
                                    pending: true,
                                    updated_at: now,
                                    ..state.bootstraps[b]
                                }
                            } else {
                                state.bootstraps[b]
                            }
                    }
            },
        },
{
    let id = new.repository.id;
    let p = of_repository(host, id);
    let t = takes_name(host, new);
    first_in_range(state.registrations, p, 0);
    assert forall|i: int| 0 <= i < state.registrations.len() implies p(
        #[trigger] state.registrations[i],
    ) == registers(state.registrations[i], host, id) by {}
    if any(state.registrations, t) {
        let i = choose|i: int|
            0 <= i < state.registrations.len() && t(#[trigger] state.registrations[i]);
        assert(t(state.registrations[i]));
    } else {
        assert forall|i: int|
            0 <= i < state.registrations.len() && (#[trigger] state.registrations[i]).host == host
                && state.registrations[i].repository.repository.id
                != id implies state.registrations[i].repository.repository.full_name
            != new.repository.full_name by {
            assert(!t(state.registrations[i]));
        }
    }
    assert forall|i: int|
        0 <= i < state.registrations.len() && registers(
            #[trigger] state.registrations[i],
            host,
            id,
        ) implies first(state.registrations, p) == Some(i) by {
        assert(p(state.registrations[i]));
        let k = first(state.registrations, p)->0;
        assert(p(state.registrations[k]));
        let r = |a: RegistrationModel, b: RegistrationModel| other_repository(a, b);
        if k < i {
            assert(r(state.registrations[k], state.registrations[i]));
        } else if i < k {
            assert(r(state.registrations[i], state.registrations[k]));
        }
    }
    if any(state.registrations, p) {
        let i = choose|i: int|
            0 <= i < state.registrations.len() && p(#[trigger] state.registrations[i]);
        assert(registers(state.registrations[i], host, id));
    }
}

/// Forgetting a repository removes its registration, what is known of its first
/// reading and its unfinished discoveries; its pull requests are no longer active,
/// and its actions that wait or are parked are cancelled. Its other rows, and those
/// of other repositories, stay as they were.
pub proof fn forgetting_touches_its_own_rows(
    state: State,
    host: Seq<char>,
    id: i64,
    now: i64,
)
    ensures
        ({
            let next = state.remove_registration(host, id, now);
            &&& next.notifications == state.notifications
            &&& next.metadata == state.metadata
            &&& next.poll_states == state.poll_states
            &&& next.leases == state.leases
            &&& next.last_action_id == state.last_action_id
            &&& forall|m: RegistrationModel|
                #[trigger] next.registrations.contains(m) <==> state.registrations.contains(m)
                    && !registers(m, host, id)
            &&& forall|m: DiscoveryModel|
                #[trigger] next.discoveries.contains(m) <==> state.discoveries.contains(m) && !(
                m.host == host && m.repository_id == id && m.status != DiscoveryStatus::Completed)
            &&& (exists|i: int|
                0 <= i < state.registrations.len() && registers(
                    #[trigger] state.registrations[i],
                    host,
                    id,
                )) ==> forall|m: BootstrapModel|
                #[trigger] next.bootstraps.contains(m) <==> state.bootstraps.contains(m) && !(
                m.host == host && m.repository_id == id)
            &&& next.tracked_pulls.len() == state.tracked_pulls.len()
            &&& forall|i: int|
                0 <= i < state.tracked_pulls.len() ==> next.tracked_pulls[i] == if (
                #[trigger] state.tracked_pulls[i]).host == host
                    && state.tracked_pulls[i].repository_id == id {
                    TrackedModel { active: false, updated_at: now, ..state.tracked_pulls[i] }
                } else {
                    state.tracked_pulls[i]
                }
            &&& next.actions.len() == state.actions.len()
            &&& forall|i: int|
                0 <= i < state.actions.len() ==> {
                    let m = #[trigger] state.actions[i];
                    next.actions[i] == if m.host == host && m.repository_id == id && (m.status
                        == ActionStatus::Pending || m.status == ActionStatus::Parked) {
                        ActionModel { status: ActionStatus::Cancelled, updated_at: now, ..m }
                    } else {
                        m
                    }
                }
        }),
{
    let next = state.remove_registration(host, id, now);
    let p = of_repository(host, id);
    removed_contains(state.registrations, p);
    removed_contains(
        state.discoveries,
        crate::db::registry::unfinished_of(host, id),
    );
    removed_contains(state.bootstraps, bootstraps_of(host, id));
    if exists|i: int|
        0 <= i < state.registrations.len() && registers(#[trigger] state.registrations[i], host, id) {
        let i = choose|i: int|
            0 <= i < state.registrations.len() && registers(
                #[trigger] state.registrations[i],
                host,
                id,
            );
        assert(p(state.registrations[i]));
    }
}

proof fn removed_contains<M>(s: Seq<M>, p: spec_fn(M) -> bool)
    ensures
        forall|m: M|
            #[trigger] crate::table::removed(s, p).contains(m) <==> s.contains(m) && !p(m),
{
    let rest = crate::table::removed(s, p);
    removed_keeps(s, p);
    assert forall|m: M| #[trigger] rest.contains(m) <==> s.contains(m) && !p(m) by {
        if rest.contains(m) {
            let k = choose|k: int| 0 <= k < rest.len() && rest[k] == m;
            assert(rest[k] == m);
        }
        if s.contains(m) && !p(m) {
            let i = choose|i: int| 0 <= i < s.len() && s[i] == m;
            assert(s[i] == m);
        }
    }
}

/// A viewer still has to read a registered repository until it is marked as read for
/// them. The mark is theirs and that repository's alone.
pub proof fn bootstraps_are_marked_for_one_viewer(
    state: State,
    host: Seq<char>,
    viewer_id: i64,
    id: i64,
    now: i64,
)
    requires
        state.wf(),
    ensures
        ({
            let known = exists|i: int|
                0 <= i < state.registrations.len() && registers(
                    #[trigger] state.registrations[i],
                    host,
                    id,
                );
            let next = state.mark_bootstrap_complete(host, viewer_id, id, now);
            let pending = state.bootstrap_pending(host, viewer_id, id);
            &&& pending is Some <==> known
            &&& known && (forall|b: int|
                0 <= b < state.bootstraps.len() ==> !tells_bootstrap(
                    #[trigger] state.bootstraps[b],
                    host,
                    viewer_id,
                    id,
                )) ==> pending == Some(true)
            &&& forall|b: int|
                known && 0 <= b < state.bootstraps.len() && tells_bootstrap(
                    #[trigger] state.bootstraps[b],
                    host,
                    viewer_id,
                    id,
                ) ==> pending == Some(state.bootstraps[b].pending)
            &&& !known ==> next == state
            &&& next == (State { bootstraps: next.bootstraps, ..state })
            &&& known ==> exists|b: int|
                0 <= b < next.bootstraps.len() && #[trigger] next.bootstraps[b] == (
                BootstrapModel {
                    host,
                    viewer_id,
                    repository_id: id,
                    pending: false,
                    updated_at: now,
                })
            &&& forall|b: int|
                0 <= b < state.bootstraps.len() && !tells_bootstrap(
                    #[trigger] state.bootstraps[b],
                    host,
                    viewer_id,
                    id,
                ) ==> next.bootstraps[b] == state.bootstraps[b]
        }),
{
    let p = of_repository(host, id);
    let q = bootstrap_of(host, viewer_id, id);
    let next = state.mark_bootstrap_complete(host, viewer_id, id, now);
    first_in_range(state.bootstraps, q, 0);
    assert forall|i: int| 0 <= i < state.registrations.len() implies p(
        #[trigger] state.registrations[i],
    ) == registers(state.registrations[i], host, id) by {}
    assert forall|b: int| 0 <= b < state.bootstraps.len() implies q(#[trigger] state.bootstraps[b])
        == tells_bootstrap(state.bootstraps[b], host, viewer_id, id) by {}
    if any(state.registrations, p) {
        let i = choose|i: int|
            0 <= i < state.registrations.len() && p(#[trigger] state.registrations[i]);
        assert(registers(state.registrations[i], host, id));
        if any(state.bootstraps, q) {
            let b = choose|b: int| 0 <= b < state.bootstraps.len() && q(#[trigger] state.bootstraps[b]);
            assert(next.bootstraps[b] == (BootstrapModel {
                host,
                viewer_id,
                repository_id: id,
                pending: false,
                updated_at: now,
            }));
        } else {
            let b = state.bootstraps.len() as int;
            assert(next.bootstraps[b].pending == false);
        }
    }
    assert forall|b: int|
        0 <= b < state.bootstraps.len() && tells_bootstrap(
            #[trigger] state.bootstraps[b],
            host,
            viewer_id,
            id,
        ) implies first(state.bootstraps, q) == Some(b) by {
        assert(q(state.bootstraps[b]));
        let k = first(state.bootstraps, q)->0;
        assert(q(state.bootstraps[k]));
        let r = |x: BootstrapModel, y: BootstrapModel| crate::db::integrity::other_bootstrap(x, y);
        if k < b {
            assert(r(state.bootstraps[k], state.bootstraps[b]));
        } else if b < k {
            assert(r(state.bootstraps[b], state.bootstraps[k]));
        }
    }
}

/// A setting is kept under its key, and what the next poll starts from under its
/// viewer. Other rows stay as they were.
pub proof fn settings_replace_their_own_row(
    state: State,
    key: Seq<char>,
    value: Seq<char>,
    host: Seq<char>,
    viewer_id: i64,
    last_modified: Option<Seq<char>>,
    high_water: Option<Seq<char>>,
    now: i64,
)
    ensures
        ({
            let set = state.set_metadata(key, value, now);
            let polled = state.set_poll_state(host, viewer_id, last_modified, high_water, now);
            &&& set == (State { metadata: set.metadata, ..state })
            &&& polled == (State { poll_states: polled.poll_states, ..state })
            &&& exists|i: int|
                0 <= i < set.metadata.len() && #[trigger] set.metadata[i] == (MetadataModel {
                    key,
                    value,
                    updated_at: now,
                })
            &&& forall|i: int|
                0 <= i < state.metadata.len() && (#[trigger] state.metadata[i]).key != key
                    ==> set.metadata[i] == state.metadata[i]
            &&& exists|i: int|
                0 <= i < polled.poll_states.len() && #[trigger] polled.poll_states[i] == (
                PollModel { host, viewer_id, last_modified, high_water, updated_at: now })
            &&& forall|i: int|
                0 <= i < state.poll_states.len() && !((#[trigger] state.poll_states[i]).host == host
                    && state.poll_states[i].viewer_id == viewer_id) ==> polled.poll_states[i]
                    == state.poll_states[i]
        }),
{
    let set = state.set_metadata(key, value, now);
    let polled = state.set_poll_state(host, viewer_id, last_modified, high_water, now);
    let p = has_key(key);
    let q = poll_of(host, viewer_id);
    if any(state.metadata, p) {
        let i = choose|i: int| 0 <= i < state.metadata.len() && p(#[trigger] state.metadata[i]);
        assert(set.metadata[i].key == key);
    } else {
        assert(set.metadata[state.metadata.len() as int].key == key);
    }
    if any(state.poll_states, q) {
        let i = choose|i: int| 0 <= i < state.poll_states.len() && q(#[trigger] state.poll_states[i]);
        assert(polled.poll_states[i].host == host);
    } else {
        assert(polled.poll_states[state.poll_states.len() as int].host == host);
    }
}

/// Rows are found by what identifies them: registrations by number or name,
/// settings by key, and what a poll starts from by the viewer.
pub proof fn rows_are_found_by_their_key(
    state: State,
    host: Seq<char>,
    id: i64,
    full_name: Seq<char>,
    key: Seq<char>,
)
    ensures
        match lookup(state.registrations, of_repository(host, id)) {
            Some(m) => registers(m, host, id) && state.registrations.contains(m),
            None => forall|i: int|
                0 <= i < state.registrations.len() ==> !registers(
                    #[trigger] state.registrations[i],
                    host,
                    id,
                ),
        },
        match lookup(state.registrations, of_name(host, full_name)) {
            Some(m) => m.host == host && m.repository.repository.full_name == full_name
                && state.registrations.contains(m),
            None => forall|i: int|
                0 <= i < state.registrations.len() ==> !((#[trigger] state.registrations[i]).host
                    == host && state.registrations[i].repository.repository.full_name == full_name),
        },
        match lookup(state.metadata, has_key(key)) {
            Some(m) => m.key == key && state.metadata.contains(m),
            None => forall|i: int| 0 <= i < state.metadata.len() ==> (
            #[trigger] state.metadata[i]).key != key,
        },
        match lookup(state.poll_states, poll_of(host, id)) {
            Some(m) => m.host == host && m.viewer_id == id && state.poll_states.contains(m),
            None => forall|i: int|
                0 <= i < state.poll_states.len() ==> !((#[trigger] state.poll_states[i]).host
                    == host && state.poll_states[i].viewer_id == id),
        },
{
    let p = of_repository(host, id);
    let n = of_name(host, full_name);
    let k = has_key(key);
    let q = poll_of(host, id);
    first_in_range(state.registrations, p, 0);
    first_in_range(state.registrations, n, 0);
    first_in_range(state.metadata, k, 0);
    first_in_range(state.poll_states, q, 0);
    assert forall|i: int| 0 <= i < state.registrations.len() implies p(
        #[trigger] state.registrations[i],
    ) == registers(state.registrations[i], host, id) && n(state.registrations[i]) == (
    state.registrations[i].host == host && state.registrations[i].repository.repository.full_name
        == full_name) by {}
    assert forall|i: int| 0 <= i < state.metadata.len() implies k(#[trigger] state.metadata[i]) == (
    state.metadata[i].key == key) by {}
    assert forall|i: int| 0 <= i < state.poll_states.len() implies q(
        #[trigger] state.poll_states[i],
    ) == (state.poll_states[i].host == host && state.poll_states[i].viewer_id == id) by {}
}

// ---------------------------------------------------------------------------
// Leases
// ---------------------------------------------------------------------------

/// A lease is taken where the viewer has none, where it is over, or by the one that
/// holds it; it then lasts for the asked time. Where another one holds it, nothing
/// changes. The leases of other viewers stay as they were.
pub proof fn leases_are_taken_when_free(
    state: State,
    host: Seq<char>,
    viewer_id: i64,
    login: Seq<char>,
    owner: Seq<char>,
    now: i64,
    duration: i64,
)
    requires
        state.wf(),
    ensures
        match state.acquire_lease(host, viewer_id, login, owner, now, duration) {
            Err(error) => duration <= 0 || now + duration > 8_210_266_876_799_999 || now + duration
                < -8_334_601_228_800_000,
            Ok((next, taken)) => {
                &&& duration > 0
                &&& now + duration <= 8_210_266_876_799_999
                &&& next == (State { leases: next.leases, ..state })
                &&& taken <==> forall|i: int|
                    0 <= i < state.leases.len() && (#[trigger] state.leases[i]).host == host
                        && state.leases[i].viewer_id == viewer_id ==> state.leases[i].expires_at
                        <= now || state.leases[i].owner == owner
                &&& !taken ==> next == state
                &&& taken ==> exists|i: int|
                    0 <= i < next.leases.len() && #[trigger] next.leases[i] == (LeaseModel {
                        host,
                        viewer_id,
                        viewer_login: login,
                        owner,
                        expires_at: (now + duration) as i64,
                        updated_at: now,
                    })
                &&& forall|i: int|
                    0 <= i < state.leases.len() && !((#[trigger] state.leases[i]).host == host
                        && state.leases[i].viewer_id == viewer_id) ==> next.leases[i]
                        == state.leases[i]
            },
        },
{
    let p = lease_of(host, viewer_id);
    let q = open_to(host, viewer_id, owner, now);
    assert forall|i: int| 0 <= i < state.leases.len() implies p(#[trigger] state.leases[i]) == (
    state.leases[i].host == host && state.leases[i].viewer_id == viewer_id) && q(state.leases[i])
        == (state.leases[i].host == host && state.leases[i].viewer_id == viewer_id && (
    state.leases[i].expires_at <= now || state.leases[i].owner == owner)) by {}
    if let Ok((next, taken)) = state.acquire_lease(host, viewer_id, login, owner, now, duration) {
        if !any(state.leases, p) {
            assert(next.leases[state.leases.len() as int].owner == owner);
        } else {
            let k = choose|k: int| 0 <= k < state.leases.len() && p(#[trigger] state.leases[k]);
            let r = |a: LeaseModel, b: LeaseModel| crate::db::integrity::other_lease(a, b);
            assert forall|i: int| 0 <= i < state.leases.len() && p(#[trigger] state.leases[i])
                implies i == k by {
                if i < k {
                    assert(r(state.leases[i], state.leases[k]));
                } else if k < i {
                    assert(r(state.leases[k], state.leases[i]));
                }
            }
            if q(state.leases[k]) {
                assert(next.leases[k].owner == owner);
            } else {
                assert(next.leases =~= state.leases);
            }
        }
    }
}

/// A lease is renewed by the one that holds it while it lasts, and released by the
/// one that holds it. Other leases stay as they were.
pub proof fn leases_are_kept_by_their_owner(
    state: State,
    host: Seq<char>,
    viewer_id: i64,
    owner: Seq<char>,
    now: i64,
    duration: i64,
)
    ensures
        match state.renew_lease(host, viewer_id, owner, now, duration) {
            Err(error) => duration <= 0 || now + duration > 8_210_266_876_799_999 || now + duration
                < -8_334_601_228_800_000,
            Ok((next, renewed)) => {
                &&& duration > 0
                &&& now + duration <= 8_210_266_876_799_999
                &&& next == (State { leases: next.leases, ..state })
                &&& next.leases.len() == state.leases.len()
                &&& renewed <==> exists|i: int|
                    0 <= i < state.leases.len() && (#[trigger] state.leases[i]).host == host
                        && state.leases[i].viewer_id == viewer_id && state.leases[i].owner == owner
                        && state.leases[i].expires_at > now
                &&& forall|i: int|
                    0 <= i < state.leases.len() ==> {
                        let m = #[trigger] state.leases[i];
                        next.leases[i] == if m.host == host && m.viewer_id == viewer_id && m.owner
                            == owner && m.expires_at > now {
                            LeaseModel {
                                expires_at: (now + duration) as i64,
                                updated_at: now,
                                ..m
                            }
                        } else {
                            m
                        }
                    }
            },
        },
        ({
            let next = state.release_lease(host, viewer_id, owner);
            &&& next == (State { leases: next.leases, ..state })
            &&& forall|m: LeaseModel|
                #[trigger] next.leases.contains(m) <==> state.leases.contains(m) && !(m.host == host
                    && m.viewer_id == viewer_id && m.owner == owner)
        }),
{
    let p = live_for(host, viewer_id, owner, now);
    assert forall|i: int| 0 <= i < state.leases.len() implies p(#[trigger] state.leases[i]) == (
    state.leases[i].host == host && state.leases[i].viewer_id == viewer_id && state.leases[i].owner
        == owner && state.leases[i].expires_at > now) by {}
    if any(state.leases, p) {
        let i = choose|i: int| 0 <= i < state.leases.len() && p(#[trigger] state.leases[i]);
        assert(p(state.leases[i]));
    }
    removed_contains(state.leases, held_by(host, viewer_id, owner));
}

// ---------------------------------------------------------------------------
// Old rows
// ---------------------------------------------------------------------------

/// A pruning removes what was finished, or no longer watched, before the given time,
/// and the notifications last seen before it that nothing left refers to. All else
/// stays.
pub proof fn pruning_removes_what_is_over(state: State, cutoff: i64)
    ensures
        ({
            let next = state.prune_older_than(cutoff);
            &&& next == (State {
                actions: next.actions,
                discoveries: next.discoveries,
                tracked_pulls: next.tracked_pulls,
                notifications: next.notifications,
                ..state
            })
            &&& forall|m: ActionModel|
                #[trigger] next.actions.contains(m) <==> state.actions.contains(m) && !((m.status
                    == ActionStatus::Succeeded || m.status == ActionStatus::Cancelled)
                    && m.updated_at < cutoff)
            &&& forall|m: DiscoveryModel|
                #[trigger] next.discoveries.contains(m) <==> state.discoveries.contains(m) && !(
                m.status == DiscoveryStatus::Completed && m.updated_at < cutoff)
            &&& forall|m: TrackedModel|
                #[trigger] next.tracked_pulls.contains(m) <==> state.tracked_pulls.contains(m) && (
                m.active || m.updated_at >= cutoff)
            &&& forall|n: StoredModel|
                #[trigger] next.notifications.contains(n) <==> state.notifications.contains(n) && (
                n.last_seen_at >= cutoff || (exists|i: int|
                    0 <= i < next.tracked_pulls.len() && (#[trigger] next.tracked_pulls[i]).host
                        == n.host && next.tracked_pulls[i].viewer_id == n.viewer_id
                        && next.tracked_pulls[i].notification_id == n.notification.id) || (exists|
                    i: int,
                |
                    0 <= i < next.discoveries.len() && (#[trigger] next.discoveries[i]).host
                        == n.host && next.discoveries[i].viewer_id == n.viewer_id
                        && next.discoveries[i].notification_id == n.notification.id))
        }),
{
    let next = state.prune_older_than(cutoff);
    let rest = state.without_finished(cutoff);
    removed_contains(state.actions, old_action(cutoff));
    removed_contains(state.discoveries, old_discovery(cutoff));
    removed_contains(state.tracked_pulls, old_pull(cutoff));
    removed_contains(state.notifications, rest.stale(cutoff));
    assert forall|n: StoredModel|
        #[trigger] next.notifications.contains(n) <==> state.notifications.contains(n) && (
        n.last_seen_at >= cutoff || (exists|i: int|
            0 <= i < next.tracked_pulls.len() && (#[trigger] next.tracked_pulls[i]).host == n.host
                && next.tracked_pulls[i].viewer_id == n.viewer_id
                && next.tracked_pulls[i].notification_id == n.notification.id) || (exists|i: int|
            0 <= i < next.discoveries.len() && (#[trigger] next.discoveries[i]).host == n.host
                && next.discoveries[i].viewer_id == n.viewer_id
                && next.discoveries[i].notification_id == n.notification.id)) by {
        let p = crate::db::overview::pull_uses(n);
        let d = crate::db::overview::discovery_uses(n);
        if any(next.tracked_pulls, p) {
            let i = choose|i: int|
                0 <= i < next.tracked_pulls.len() && p(#[trigger] next.tracked_pulls[i]);
            assert(next.tracked_pulls[i].host == n.host);
        }
        if any(next.discoveries, d) {
            let i = choose|i: int|
                0 <= i < next.discoveries.len() && d(#[trigger] next.discoveries[i]);
            assert(next.discoveries[i].host == n.host);
        }
        if exists|i: int|
            0 <= i < next.tracked_pulls.len() && (#[trigger] next.tracked_pulls[i]).host == n.host
                && next.tracked_pulls[i].viewer_id == n.viewer_id
                && next.tracked_pulls[i].notification_id == n.notification.id {
            let i = choose|i: int|
                0 <= i < next.tracked_pulls.len() && (#[trigger] next.tracked_pulls[i]).host
                    == n.host && next.tracked_pulls[i].viewer_id == n.viewer_id
                    && next.tracked_pulls[i].notification_id == n.notification.id;
            assert(p(next.tracked_pulls[i]));
        }
        if exists|i: int|
            0 <= i < next.discoveries.len() && (#[trigger] next.discoveries[i]).host == n.host
                && next.discoveries[i].viewer_id == n.viewer_id
                && next.discoveries[i].notification_id == n.notification.id {
            let i = choose|i: int|
                0 <= i < next.discoveries.len() && (#[trigger] next.discoveries[i]).host == n.host
                    && next.discoveries[i].viewer_id == n.viewer_id
                    && next.discoveries[i].notification_id == n.notification.id;
            assert(d(next.discoveries[i]));
        }
    }
}

} // verus!
