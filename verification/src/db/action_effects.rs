//! What the operations on the queue of actions do, row by row.

use vstd::prelude::*;
use crate::db::actions::{
    has_id, is_outdated, is_parked, is_running, is_same, runs_for, runs_in,
};
use crate::db::integrity::{other_id, other_work};
use crate::db::rows::{ActionModel, ActionStatus, DbError, NewActionModel};
use crate::db::State;
use crate::table::{
    best, best_is_best, count, first, first_in_range, lookup,
};

verus! {

/// An action is for the pull request that `new` is for.
pub open spec fn for_pull(m: ActionModel, new: NewActionModel) -> bool {
    &&& m.host == new.host
    &&& m.viewer_id == new.viewer_id
    &&& m.repository_id == new.repository_id
    &&& m.pull_request_id == new.pull_request_id
}

/// An action is for the head and the trigger that `new` is for.
pub open spec fn for_work(m: ActionModel, new: NewActionModel) -> bool {
    for_pull(m, new) && m.head_sha == new.head_sha && m.trigger_key == new.trigger_key
}

/// An action waits or is parked.
pub open spec fn waits(m: ActionModel) -> bool {
    m.status == ActionStatus::Pending || m.status == ActionStatus::Parked
}

/// Queueing a review adds an action where there is none yet for that head and
/// trigger: it waits from the asked time on, and was never launched. Where there is
/// one, it is found by its number, and while it waits or is parked it takes over
/// what is asked for, without losing its place. The other actions of the pull
/// request that wait or are parked are cancelled. Nothing else changes.
pub proof fn queueing_keeps_one_of_each(state: State, new: NewActionModel, now: i64)
    requires
        state.wf(),
    ensures
        match state.enqueue_action(new, now) {
            Err(error) => {
                ||| error == DbError::NumberTooLarge && new.pull_request_number > i64::MAX
                ||| error == DbError::ActionIdsExhausted && state.last_action_id == i64::MAX
                    && forall|i: int|
                    0 <= i < state.actions.len() ==> !for_work(#[trigger] state.actions[i], new)
            },
            Ok((next, result)) => {
                &&& new.pull_request_number <= i64::MAX
                &&& next == (State {
                    actions: next.actions,
                    last_action_id: next.last_action_id,
                    ..state
                })
                &&& result.inserted <==> forall|i: int|
                    0 <= i < state.actions.len() ==> !for_work(#[trigger] state.actions[i], new)
                &&& result.inserted ==> {
                    &&& next.actions.len() == state.actions.len() + 1
                    &&& next.last_action_id == state.last_action_id + 1
                    &&& next.actions.last() == (ActionModel {
                        id: result.action_id,
                        host: new.host,
                        viewer_id: new.viewer_id,
                        repository_id: new.repository_id,
                        repository_full_name: new.repository_full_name,
                        pull_request_id: new.pull_request_id,
                        pull_request_number: new.pull_request_number,
                        head_sha: new.head_sha,
                        base_sha: new.envelope.pull_request.base_sha,
                        trigger_key: new.trigger_key,
                        reason: new.reason,
                        envelope: new.envelope,
                        status: ActionStatus::Pending,
                        attempts: 0,
                        due_at: new.due_at,
                        last_error: None,
                        created_at: now,
                        updated_at: now,
                        completed_at: None,
                    })
                    &&& result.action_id == next.last_action_id
                }
                &&& !result.inserted ==> {
                    &&& next.actions.len() == state.actions.len()
                    &&& next.last_action_id == state.last_action_id
                    &&& exists|i: int|
                        0 <= i < state.actions.len() && for_work(#[trigger] state.actions[i], new)
                            && state.actions[i].id == result.action_id
                }
                &&& forall|i: int|
                    0 <= i < state.actions.len() ==> {
                        let before = #[trigger] state.actions[i];
                        let after = next.actions[i];
                        &&& for_work(before, new) && waits(before) ==> after == (ActionModel {
                            repository_full_name: new.repository_full_name,
                            pull_request_number: new.pull_request_number,
                            base_sha: new.envelope.pull_request.base_sha,
                            reason: new.reason,
                            envelope: new.envelope,
                            updated_at: now,
                            ..before
                        })
                        &&& for_pull(before, new) && !for_work(before, new) && waits(before)
                            ==> after == (ActionModel {
                            status: ActionStatus::Cancelled,
                            updated_at: now,
                            last_error: Some("superseded by newer review action"@),
                            ..before
                        })
                        &&& !for_pull(before, new) || !waits(before) ==> after == before
                    }
                &&& result.superseded == count(
                    state.actions,
                    |m: ActionModel| for_pull(m, new) && !for_work(m, new) && waits(m),
                ) as usize
            },
        },
{
    let same = is_same(new);
    first_in_range(state.actions, same, 0);
    assert(is_outdated(new) =~= (|m: ActionModel|
        for_pull(m, new) && !for_work(m, new) && waits(m)));
    assert forall|i: int| 0 <= i < state.actions.len() && for_work(#[trigger] state.actions[i], new)
        implies first(state.actions, same) == Some(i) by {
        assert(same(state.actions[i]));
        let k = first(state.actions, same)->0;
        assert(same(state.actions[k]));
        let r = |a: ActionModel, b: ActionModel| other_work(a, b);
        if k < i {
            assert(r(state.actions[k], state.actions[i]));
        } else if i < k {
            assert(r(state.actions[i], state.actions[k]));
        }
    }
    if let Some(k) = first(state.actions, same) {
        assert(for_work(state.actions[k], new));
        assert forall|i: int| 0 <= i < state.actions.len() && i != k implies (
        #[trigger] state.actions[i]).id != state.actions[k].id by {
            let r = |a: ActionModel, b: ActionModel| other_id(a, b);
            if k < i {
                assert(r(state.actions[k], state.actions[i]));
            } else {
                assert(r(state.actions[i], state.actions[k]));
            }
        }
    }
}

/// The viewer's action is due, has launches left, and no other review of its
/// repository runs, whoever it runs for.
pub open spec fn may_start(
    state: State,
    m: ActionModel,
    host: Seq<char>,
    viewer_id: i64,
    now: i64,
) -> bool {
    &&& m.host == host
    &&& m.viewer_id == viewer_id
    &&& m.status == ActionStatus::Pending
    &&& m.due_at <= now
    &&& m.attempts < 3
    &&& forall|i: int|
        0 <= i < state.actions.len() && (#[trigger] state.actions[i]).host == m.host
            && state.actions[i].repository_id == m.repository_id ==> state.actions[i].status
            != ActionStatus::Running
}

/// A claim takes an action that may start, the one that has been due for longest,
/// and marks it as running with one more launch. It takes none only where as many
/// of the viewer's run as are allowed, or none may start.
pub proof fn claims_start_what_may_start(
    state: State,
    host: Seq<char>,
    viewer_id: i64,
    limit: nat,
    now: i64,
)
    ensures
        ({
            let running = count(
                state.actions,
                |m: ActionModel|
                    m.host == host && m.viewer_id == viewer_id && m.status == ActionStatus::Running,
            );
            match state.claim_due_action(host, viewer_id, limit, now) {
                (next, Some(action)) => {
                    &&& running < limit
                    &&& next == (State { actions: next.actions, ..state })
                    &&& exists|k: int|
                        0 <= k < state.actions.len() && may_start(
                            state,
                            #[trigger] state.actions[k],
                            host,
                            viewer_id,
                            now,
                        ) && next.actions == state.actions.update(k, action) && action == (
                        ActionModel {
                            status: ActionStatus::Running,
                            attempts: (state.actions[k].attempts + 1) as u32,
                            updated_at: now,
                            last_error: None,
                            ..state.actions[k]
                        })
                    &&& forall|j: int|
                        0 <= j < state.actions.len() && may_start(
                            state,
                            #[trigger] state.actions[j],
                            host,
                            viewer_id,
                            now,
                        ) ==> {
                            let other = state.actions[j];
                            ||| action.due_at < other.due_at
                            ||| action.due_at == other.due_at && action.created_at
                                < other.created_at
                            ||| action.due_at == other.due_at && action.created_at
                                == other.created_at && action.id <= other.id
                        }
                },
                (next, None) => {
                    &&& next == state
                    &&& running >= limit || forall|j: int|
                        0 <= j < state.actions.len() ==> !may_start(
                            state,
                            #[trigger] state.actions[j],
                            host,
                            viewer_id,
                            now,
                        )
                },
            }
        }),
{
    assert(runs_for(host, viewer_id) =~= (|m: ActionModel|
        m.host == host && m.viewer_id == viewer_id && m.status == ActionStatus::Running));
    let before = |a: ActionModel, b: ActionModel| a.claimed_before(b);
    let test = state.claimable(host, viewer_id, now);
    best_is_best(state.actions, test, before);
    assert forall|j: int| 0 <= j < state.actions.len() implies test(#[trigger] state.actions[j])
        == may_start(state, state.actions[j], host, viewer_id, now) by {
        let m = state.actions[j];
        let busy = runs_in(m.host, m.repository_id);
        if state.busy(m.host, m.repository_id) {
            let i = choose|i: int| 0 <= i < state.actions.len() && busy(#[trigger] state.actions[i]);
            assert(busy(state.actions[i]));
        } else {
            assert forall|i: int|
                0 <= i < state.actions.len() && (#[trigger] state.actions[i]).host == m.host
                    && state.actions[i].repository_id == m.repository_id implies state.actions[i].status
                != ActionStatus::Running by {
                assert(!busy(state.actions[i]));
            }
        }
    }
    if let Some(k) = state.next_action(host, viewer_id, limit, now) {
        assert(test(state.actions[k]));
        assert forall|j: int|
            0 <= j < state.actions.len() && may_start(
                state,
                #[trigger] state.actions[j],
                host,
                viewer_id,
                now,
            ) implies state.actions[k].claimed_before(state.actions[j]) by {
            assert(test(state.actions[j]));
            assert(before(state.actions[k], state.actions[j]));
        }
    }
}

/// A success and a deferral change a running action, and a cancellation one that
/// is not finished: the one with that number, and no other. A deferral takes back
/// the launch that was counted.
pub proof fn outcomes_change_their_own_action(
    state: State,
    id: i64,
    text: Seq<char>,
    retry_at: i64,
    now: i64,
    i: int,
)
    requires
        0 <= i < state.actions.len(),
    ensures
        ({
            let m = state.actions[i];
            let own = m.id == id;
            let running = own && m.status == ActionStatus::Running;
            let done = state.complete_action(id, now);
            let gone = state.cancel_action(id, text, now);
            let back = state.defer_action(id, text, retry_at, now);
            &&& done == (State { actions: done.actions, ..state })
            &&& gone == (State { actions: gone.actions, ..state })
            &&& back == (State { actions: back.actions, ..state })
            &&& done.actions.len() == state.actions.len()
            &&& gone.actions.len() == state.actions.len()
            &&& back.actions.len() == state.actions.len()
            &&& done.actions[i] == if running {
                ActionModel {
                    status: ActionStatus::Succeeded,
                    completed_at: Some(now),
                    updated_at: now,
                    last_error: None,
                    ..m
                }
            } else {
                m
            }
            &&& gone.actions[i] == if own && m.status != ActionStatus::Succeeded && m.status
                != ActionStatus::Cancelled {
                ActionModel {
                    status: ActionStatus::Cancelled,
                    completed_at: Some(now),
                    updated_at: now,
                    last_error: Some(text),
                    ..m
                }
            } else {
                m
            }
            &&& !running ==> back.actions[i] == m
            &&& running ==> {
                let n = back.actions[i];
                &&& n == (ActionModel {
                    status: ActionStatus::Pending,
                    attempts: n.attempts,
                    due_at: retry_at,
                    completed_at: None,
                    updated_at: now,
                    last_error: Some(text),
                    ..m
                })
                &&& m.attempts > 0 ==> n.attempts + 1 == m.attempts
                &&& m.attempts == 0 ==> n.attempts == 0
            }
        }),
{
}

/// A launch that failed sends its action back to the queue, due at the given time,
/// unless it was the third: then the action is parked. Only a running action fails,
/// and no other changes.
pub proof fn failures_park_at_the_third_launch(
    state: State,
    id: i64,
    error: Seq<char>,
    retry_at: i64,
    now: i64,
)
    requires
        state.wf(),
    ensures
        ({
            let (next, status) = state.fail_action(id, error, retry_at, now);
            &&& next == (State { actions: next.actions, ..state })
            &&& next.actions.len() == state.actions.len()
            &&& status is None <==> forall|i: int|
                0 <= i < state.actions.len() && (#[trigger] state.actions[i]).id == id
                    ==> state.actions[i].status != ActionStatus::Running
            &&& status is None ==> next == state
            &&& forall|i: int|
                0 <= i < state.actions.len() && (#[trigger] state.actions[i]).id == id
                    && state.actions[i].status == ActionStatus::Running ==> {
                    let parks = state.actions[i].attempts >= 3;
                    &&& status == Some(
                        if parks {
                            ActionStatus::Parked
                        } else {
                            ActionStatus::Pending
                        },
                    )
                    &&& next.actions[i] == (ActionModel {
                        status: status->0,
                        due_at: retry_at,
                        updated_at: now,
                        completed_at: if parks {
                            Some(now)
                        } else {
                            None
                        },
                        last_error: Some(error),
                        ..state.actions[i]
                    })
                }
            &&& forall|i: int|
                0 <= i < state.actions.len() && ((#[trigger] state.actions[i]).id != id
                    || state.actions[i].status != ActionStatus::Running) ==> next.actions[i]
                    == state.actions[i]
        }),
{
    let p = is_running(id);
    first_in_range(state.actions, p, 0);
    assert forall|i: int|
        0 <= i < state.actions.len() && (#[trigger] state.actions[i]).id == id
            && state.actions[i].status == ActionStatus::Running implies p(state.actions[i]) by {}
    if let Some(k) = first(state.actions, p) {
        assert(p(state.actions[k]));
        assert forall|i: int| 0 <= i < state.actions.len() && i != k implies (
        #[trigger] state.actions[i]).id != id by {
            let r = |a: ActionModel, b: ActionModel| other_id(a, b);
            if k < i {
                assert(r(state.actions[k], state.actions[i]));
            } else {
                assert(r(state.actions[i], state.actions[k]));
            }
        }
    }
}

/// When a daemon starts, the actions that an earlier one left running count as
/// launches that failed. Actions of other viewers, and those that do not run, stay
/// as they were.
pub proof fn recovery_fails_what_was_running(
    state: State,
    host: Seq<char>,
    viewer_id: i64,
    retry_at: i64,
    now: i64,
    i: int,
)
    requires
        0 <= i < state.actions.len(),
    ensures
        ({
            let next = state.recover_running_actions(host, viewer_id, retry_at, now);
            let m = state.actions[i];
            let parks = m.attempts >= 3;
            &&& next == (State { actions: next.actions, ..state })
            &&& next.actions.len() == state.actions.len()
            &&& next.actions[i] == if m.host == host && m.viewer_id == viewer_id && m.status
                == ActionStatus::Running {
                ActionModel {
                    status: if parks {
                        ActionStatus::Parked
                    } else {
                        ActionStatus::Pending
                    },
                    due_at: retry_at,
                    updated_at: now,
                    completed_at: if parks {
                        Some(now)
                    } else {
                        None
                    },
                    last_error: Some("daemon stopped while review command was running"@),
                    ..m
                }
            } else {
                m
            }
        }),
{
}

/// The action is a parked one of the viewer for the pull request.
pub open spec fn parked_for(
    m: ActionModel,
    host: Seq<char>,
    viewer_id: i64,
    full_name: Seq<char>,
    number: u64,
) -> bool {
    &&& m.host == host
    &&& m.viewer_id == viewer_id
    &&& m.repository_full_name == full_name
    &&& m.pull_request_number == number
    &&& m.status == ActionStatus::Parked
}

/// A retry takes the newest parked action of the pull request, and puts it back in
/// the queue as if it had never been launched, due at once. Where none is parked,
/// nothing changes.
pub proof fn retries_take_the_newest_parked(
    state: State,
    host: Seq<char>,
    viewer_id: i64,
    full_name: Seq<char>,
    number: u64,
    now: i64,
)
    ensures
        match state.retry_newest_parked(host, viewer_id, full_name, number, now) {
            Err(error) => error == DbError::NumberTooLarge && number > i64::MAX,
            Ok((next, None)) => number <= i64::MAX && next == state && forall|i: int|
                0 <= i < state.actions.len() ==> !parked_for(
                    #[trigger] state.actions[i],
                    host,
                    viewer_id,
                    full_name,
                    number,
                ),
            Ok((next, Some(id))) => {
                &&& number <= i64::MAX
                &&& next == (State { actions: next.actions, ..state })
                &&& exists|k: int|
                    0 <= k < state.actions.len() && parked_for(
                        #[trigger] state.actions[k],
                        host,
                        viewer_id,
                        full_name,
                        number,
                    ) && state.actions[k].id == id && (forall|j: int|
                        0 <= j < state.actions.len() && parked_for(
                            #[trigger] state.actions[j],
                            host,
                            viewer_id,
                            full_name,
                            number,
                        ) ==> state.actions[j].created_at < state.actions[k].created_at || (
                        state.actions[j].created_at == state.actions[k].created_at
                            && state.actions[j].id <= id)) && next.actions == state.actions.update(
                        k,
                        ActionModel {
                            status: ActionStatus::Pending,
                            attempts: 0,
                            due_at: now,
                            updated_at: now,
                            completed_at: None,
                            last_error: None,
                            ..state.actions[k]
                        },
                    )
            },
        },
{
    let test = is_parked(host, viewer_id, full_name, number);
    let before = |a: ActionModel, b: ActionModel| a.newer(b);
    best_is_best(state.actions, test, before);
    assert forall|j: int| 0 <= j < state.actions.len() implies test(#[trigger] state.actions[j])
        == parked_for(state.actions[j], host, viewer_id, full_name, number) by {}
    if let Some(k) = best(state.actions, test, before) {
        assert(test(state.actions[k]));
        assert forall|j: int|
            0 <= j < state.actions.len() && parked_for(
                #[trigger] state.actions[j],
                host,
                viewer_id,
                full_name,
                number,
            ) implies state.actions[k].newer(state.actions[j]) by {
            assert(test(state.actions[j]));
            assert(before(state.actions[k], state.actions[j]));
        }
    }
}

/// An action is found by its number.
pub proof fn actions_are_found_by_number(state: State, id: i64)
    ensures
        match lookup(state.actions, has_id(id)) {
            Some(m) => m.id == id && state.actions.contains(m),
            None => forall|i: int| 0 <= i < state.actions.len() ==> (#[trigger] state.actions[i]).id
                != id,
        },
{
    first_in_range(state.actions, has_id(id), 0);
    if lookup(state.actions, has_id(id)) is None {
        assert forall|i: int| 0 <= i < state.actions.len() implies (#[trigger] state.actions[i]).id
            != id by {
            assert(!has_id(id)(state.actions[i]));
        }
    }
}

} // verus!
