//! What the lists and the counts of the store say of its rows.

use vstd::prelude::*;
use crate::db::migrate::{collapsed, keeper, steps_from, Migration};
use crate::db::notification_effects::filter_has;
use crate::db::overview::{old_action, old_pull, unfinished, with_status};
use crate::db::rows::{
    ActionModel, ActionStatus, DaemonLease, DbError, LeaseModel, PollModel, PollState,
    RegisteredRepositoryRecord, RegistrationModel, ReviewAction,
};
use crate::db::State;
use crate::order::{sorted, sorted_is_sorted};
use crate::table::{best_is_best, count, removed};
use crate::text::text_le;

verus! {

/// A sorted list holds the same rows.
proof fn sorting_keeps_rows<M>(a: Seq<M>, b: Seq<M>, m: M)
    requires
        a.to_multiset() == b.to_multiset(),
    ensures
        a.contains(m) <==> b.contains(m),
{
    broadcast use vstd::seq_lib::group_to_multiset_ensures;

    assert(a.contains(m) <==> a.to_multiset().count(m) > 0);
    assert(b.contains(m) <==> b.to_multiset().count(m) > 0);
}

/// The status lists the actions that are pending, running or parked, and no others, by
/// the time at which they are due and by number.
pub proof fn open_actions_are_listed(state: State, m: ActionModel, i: int, j: int)
    ensures
        ({
            let listed = sorted::<ReviewAction>(state.actions.filter(unfinished()));
            &&& listed.contains(m) <==> state.actions.contains(m) && (m.status
                == ActionStatus::Pending || m.status == ActionStatus::Running || m.status
                == ActionStatus::Parked)
            &&& 0 <= i < j < listed.len() ==> listed[i].due_at < listed[j].due_at || (
            listed[i].due_at == listed[j].due_at && listed[i].id <= listed[j].id)
        }),
{
    let rows = state.actions.filter(unfinished());
    sorted_is_sorted::<ReviewAction>(rows);
    sorting_keeps_rows(sorted::<ReviewAction>(rows), rows, m);
    filter_has(state.actions, unfinished(), m);
}

/// The repositories are listed by name, the leases by host and login, and the polls by
/// host and viewer; each list holds all rows and no others.
pub proof fn lists_hold_every_row(
    state: State,
    r: RegistrationModel,
    l: LeaseModel,
    p: PollModel,
    i: int,
    j: int,
)
    ensures
        ({
            let repositories = sorted::<RegisteredRepositoryRecord>(state.registrations);
            let leases = sorted::<DaemonLease>(state.leases);
            let polls = sorted::<PollState>(state.poll_states);
            &&& repositories.contains(r) <==> state.registrations.contains(r)
            &&& leases.contains(l) <==> state.leases.contains(l)
            &&& polls.contains(p) <==> state.poll_states.contains(p)
            &&& repositories.len() == state.registrations.len()
            &&& leases.len() == state.leases.len()
            &&& polls.len() == state.poll_states.len()
            &&& 0 <= i < j < repositories.len() ==> text_le(
                repositories[i].repository.repository.full_name,
                repositories[j].repository.repository.full_name,
            )
            &&& 0 <= i < j < leases.len() ==> text_le(leases[i].host, leases[j].host) && (
            leases[i].host == leases[j].host ==> text_le(
                leases[i].viewer_login,
                leases[j].viewer_login,
            ))
            &&& 0 <= i < j < polls.len() ==> text_le(polls[i].host, polls[j].host) && (polls[i].host
                == polls[j].host ==> polls[i].viewer_id <= polls[j].viewer_id)
        }),
{
    sorted_is_sorted::<RegisteredRepositoryRecord>(state.registrations);
    sorted_is_sorted::<DaemonLease>(state.leases);
    sorted_is_sorted::<PollState>(state.poll_states);
    sorting_keeps_rows(
        sorted::<RegisteredRepositoryRecord>(state.registrations),
        state.registrations,
        r,
    );
    sorting_keeps_rows(sorted::<DaemonLease>(state.leases), state.leases, l);
    sorting_keeps_rows(sorted::<PollState>(state.poll_states), state.poll_states, p);
    let leases = sorted::<DaemonLease>(state.leases);
    let polls = sorted::<PollState>(state.poll_states);
    if 0 <= i < j < leases.len() && leases[i].host == leases[j].host {
        crate::text::text_le_total(leases[i].host, leases[i].host);
    }
    if 0 <= i < j < polls.len() && polls[i].host == polls[j].host {
        crate::text::text_le_total(polls[i].host, polls[i].host);
    }
}

/// An action counts under its own status, once, and under no other.
pub proof fn actions_are_counted_by_status(rows: Seq<ActionModel>, m: ActionModel, s: ActionStatus)
    ensures
        count(Seq::<ActionModel>::empty(), with_status(s)) == 0,
        count(rows.push(m), with_status(s)) == count(rows, with_status(s)) + if m.status == s {
            1nat
        } else {
            0nat
        },
{
    reveal(Seq::filter);
    assert(rows.push(m).drop_last() =~= rows);
}

proof fn rest_is_counted<M>(s: Seq<M>, p: spec_fn(M) -> bool)
    ensures
        count(s, p) + removed(s, p).len() == s.len(),
    decreases s.len(),
{
    reveal(Seq::filter);
    if s.len() > 0 {
        rest_is_counted(s.drop_last(), p);
    }
}

/// The numbers that pruning reports are those of the rows that it removed.
pub proof fn pruning_counts_what_it_removes(state: State, cutoff: i64)
    ensures
        ({
            let next = state.prune_older_than(cutoff);
            &&& count(state.actions, old_action(cutoff)) == state.actions.len()
                - next.actions.len()
            &&& count(state.tracked_pulls, old_pull(cutoff)) == state.tracked_pulls.len()
                - next.tracked_pulls.len()
            &&& count(state.notifications, state.without_finished(cutoff).stale(cutoff))
                == state.notifications.len() - next.notifications.len()
        }),
{
    rest_is_counted(state.actions, old_action(cutoff));
    rest_is_counted(state.tracked_pulls, old_pull(cutoff));
    rest_is_counted(state.notifications, state.without_finished(cutoff).stale(cutoff));
}

// ---------------------------------------------------------------------------
// Older stores
// ---------------------------------------------------------------------------

/// A store of a later version is refused, and no other one is. A new store is made at
/// once, and one of the current version is left alone; the others are led up by one
/// version after another.
pub proof fn only_later_stores_are_refused(version: int)
    ensures
        steps_from(version) is Err <==> version > 5,
        version > 5 && version <= i64::MAX ==> steps_from(version) == Err::<
            Seq<Migration>,
            DbError,
        >(DbError::SchemaTooNew { version: version as i64 }),
        version == 0 ==> steps_from(version) == Ok::<Seq<Migration>, DbError>(
            seq![Migration::CreateSchema],
        ),
        version == 5 || version < 0 ==> steps_from(version) == Ok::<Seq<Migration>, DbError>(
            seq![],
        ),
        1 <= version <= 4 ==> (steps_from(version) matches Ok(steps) && steps.len() == 5 - version
            && steps.last() == Migration::AddDiscoveries && forall|i: int|
            0 <= i < steps.len() ==> (#[trigger] steps[i]).starts_from() == version + i
                && steps[i].leads_to() == version + i + 1),
{
}

/// Two actions are for the same revision of a pull request, for the same viewer and by
/// the same trigger.
pub open spec fn same_work(a: ActionModel, b: ActionModel) -> bool {
    &&& a.host == b.host
    &&& a.viewer_id == b.viewer_id
    &&& a.repository_id == b.repository_id
    &&& a.pull_request_id == b.pull_request_id
    &&& a.head_sha == b.head_sha
    &&& a.trigger_key == b.trigger_key
}

/// How far an action has come: one that succeeded before one that runs, that before one
/// that waits, that before one that is parked, and that before one that was cancelled.
pub open spec fn progress_of(status: ActionStatus) -> int {
    match status {
        ActionStatus::Succeeded => 5,
        ActionStatus::Running => 4,
        ActionStatus::Pending => 3,
        ActionStatus::Parked => 2,
        ActionStatus::Cancelled => 1,
    }
}

/// An action that is left by collapsing is one of the rows, and has come as far as any
/// other for the same work, as lately, and has the largest number of those.
pub proof fn collapsing_keeps_the_furthest(
    rows: Seq<ActionModel>,
    m: ActionModel,
    other: ActionModel,
)
    requires
        crate::db::migrate::distinct_ids(rows),
        collapsed(rows).contains(m),
        rows.contains(other),
        same_work(m, other),
    ensures
        rows.contains(m),
        progress_of(m.status) >= progress_of(other.status),
        progress_of(m.status) == progress_of(other.status) ==> m.updated_at >= other.updated_at,
        progress_of(m.status) == progress_of(other.status) && m.updated_at == other.updated_at
            ==> m.id >= other.id,
{
    let p = crate::db::migrate::identical_to(m);
    let before = |a: ActionModel, b: ActionModel| a.kept_before(b);
    let test = |c: ActionModel| keeper(rows, c) matches Some(k) && rows[k].id == c.id;
    assert(collapsed(rows) == rows.filter(test));
    filter_has(rows, test, m);
    assert(test(m));
    best_is_best(rows, p, before);
    let k = keeper(rows, m)->0;
    let i = rows.index_of(other);
    let j = rows.index_of(m);
    assert(rows[j] == m && rows[i] == other);
    assert(rows[k].id == rows[j].id);
    assert(k == j);
    assert(p(rows[i]));
    assert(before(rows[k], rows[i]));
}

} // verus!
