//! The queue of reviews.

use vstd::prelude::*;
use crate::db::rows::{
    ActionModel, ActionStatus, DbError, EnqueueResult, NewActionModel, NewReviewAction,
    ReviewAction,
};
use crate::db::{Database, State};
use crate::order::models;
use crate::table::{
    any, any_row, best, choose_row, count, count_is_zero, count_rows, find_row, first, lookup,
    position, update_where, updated, Change, Choice, Test,
};
use crate::text::str_eq;

verus! {

/// A review is launched at most this often before it is parked.
pub const MAX_ACTION_ATTEMPTS: u32 = 3;

/// The largest number that the store can hold.
pub const MAX_STORED_NUMBER: u64 = 0x7fff_ffff_ffff_ffff;

// ---------------------------------------------------------------------------
// What happens to one action
// ---------------------------------------------------------------------------

impl ActionModel {
    /// The action is for the same pull request and viewer.
    pub open spec fn same_pull(self, new: NewActionModel) -> bool {
        self.host == new.host && self.viewer_id == new.viewer_id && self.repository_id
            == new.repository_id && self.pull_request_id == new.pull_request_id
    }

    /// The action is the one that `new` asks for.
    pub open spec fn same_identity(self, new: NewActionModel) -> bool {
        self.same_pull(new) && self.head_sha == new.head_sha && self.trigger_key == new.trigger_key
    }

    /// Two actions are for the same thing.
    pub open spec fn identical(self, other: ActionModel) -> bool {
        self.host == other.host && self.viewer_id == other.viewer_id && self.repository_id
            == other.repository_id && self.pull_request_id == other.pull_request_id && self.head_sha
            == other.head_sha && self.trigger_key == other.trigger_key
    }

    pub open spec fn superseded(self, now: i64) -> ActionModel {
        ActionModel {
            status: ActionStatus::Cancelled,
            updated_at: now,
            last_error: Some("superseded by newer review action"@),
            ..self
        }
    }

    /// The payload of `new` takes the place of the old one.
    pub open spec fn refreshed(self, new: NewActionModel, now: i64) -> ActionModel {
        ActionModel {
            repository_full_name: new.repository_full_name,
            pull_request_number: new.pull_request_number,
            base_sha: new.envelope.pull_request.base_sha,
            reason: new.reason,
            envelope: new.envelope,
            updated_at: now,
            ..self
        }
    }

    pub open spec fn created(id: i64, new: NewActionModel, now: i64) -> ActionModel {
        ActionModel {
            id,
            host: new.host,
            viewer_id: new.viewer_id,
            repository_id: new.repository_id,
            repository_full_name: new.repository_full_name,
            pull_request_id: new.pull_request_id,
            pull_request_number: new.pull_request_number,
            head_sha: new.head_sha,
            base_sha: new.envelope.pull_request.base_sha,
            trigger_key: new.trigger_key,
            reason: new.reason,
            envelope: new.envelope,
            status: ActionStatus::Pending,
            attempts: 0,
            due_at: new.due_at,
            last_error: None,
            created_at: now,
            updated_at: now,
            completed_at: None,
        }
    }

    pub open spec fn claimed(self, now: i64) -> ActionModel {
        ActionModel {
            status: ActionStatus::Running,
            attempts: (self.attempts + 1) as u32,
            updated_at: now,
            last_error: None,
            ..self
        }
    }

    pub open spec fn completed(self, now: i64) -> ActionModel {
        ActionModel {
            status: ActionStatus::Succeeded,
            updated_at: now,
            completed_at: Some(now),
            last_error: None,
            ..self
        }
    }

    pub open spec fn cancelled(self, reason: Seq<char>, now: i64) -> ActionModel {
        ActionModel {
            status: ActionStatus::Cancelled,
            last_error: Some(reason),
            updated_at: now,
            completed_at: Some(now),
            ..self
        }
    }

    /// The status after a launch that failed.
    pub open spec fn after_failure(self) -> ActionStatus {
        if self.attempts >= MAX_ACTION_ATTEMPTS {
            ActionStatus::Parked
        } else {
            ActionStatus::Pending
        }
    }

    pub open spec fn failed(
        self,
        status: ActionStatus,
        error: Seq<char>,
        retry_at: i64,
        now: i64,
    ) -> ActionModel {
        ActionModel {
            status,
            due_at: retry_at,
            updated_at: now,
            completed_at: if status == ActionStatus::Parked {
                Some(now)
            } else {
                None
            },
            last_error: Some(error),
            ..self
        }
    }

    /// Back in the queue; the attempt does not count.
    pub open spec fn deferred(self, error: Seq<char>, retry_at: i64, now: i64) -> ActionModel {
        ActionModel {
            status: ActionStatus::Pending,
            attempts: if self.attempts > 0 {
                (self.attempts - 1) as u32
            } else {
                0
            },
            due_at: retry_at,
            updated_at: now,
            completed_at: None,
            last_error: Some(error),
            ..self
        }
    }

    pub open spec fn retried(self, now: i64) -> ActionModel {
        ActionModel {
            status: ActionStatus::Pending,
            attempts: 0,
            due_at: now,
            updated_at: now,
            completed_at: None,
            last_error: None,
            ..self
        }
    }

    /// `self` is claimed before `other`: it is due earlier, or was created
    /// earlier, or has the smaller number.
    pub open spec fn claimed_before(self, other: ActionModel) -> bool {
        if self.due_at != other.due_at {
            self.due_at < other.due_at
        } else if self.created_at != other.created_at {
            self.created_at < other.created_at
        } else {
            self.id <= other.id
        }
    }

    /// `self` is newer than `other`.
    pub open spec fn newer(self, other: ActionModel) -> bool {
        if self.created_at != other.created_at {
            self.created_at > other.created_at
        } else {
            self.id >= other.id
        }
    }
}

// ---------------------------------------------------------------------------
// What happens to the queue
// ---------------------------------------------------------------------------

/// The tests by which the operations find their actions.
pub open spec fn has_id(id: i64) -> spec_fn(ActionModel) -> bool {
    |m: ActionModel| m.id == id
}

pub open spec fn is_running(id: i64) -> spec_fn(ActionModel) -> bool {
    |m: ActionModel| m.id == id && m.status == ActionStatus::Running
}

pub open spec fn is_open(id: i64) -> spec_fn(ActionModel) -> bool {
    |m: ActionModel| m.id == id && !m.status.is_final()
}

pub open spec fn is_waiting(id: i64) -> spec_fn(ActionModel) -> bool {
    |m: ActionModel| m.id == id && m.status.is_undispatched()
}

/// The action is for the same pull request, but not the one that `new` asks for,
/// and it was not started or is parked.
pub open spec fn is_outdated(new: NewActionModel) -> spec_fn(ActionModel) -> bool {
    |m: ActionModel| m.same_pull(new) && !m.same_identity(new) && m.status.is_undispatched()
}

pub open spec fn is_same(new: NewActionModel) -> spec_fn(ActionModel) -> bool {
    |m: ActionModel| m.same_identity(new)
}

pub open spec fn runs_for(host: Seq<char>, viewer_id: i64) -> spec_fn(ActionModel) -> bool {
    |m: ActionModel|
        m.host == host && m.viewer_id == viewer_id && m.status == ActionStatus::Running
}

pub open spec fn runs_in(host: Seq<char>, repository_id: i64) -> spec_fn(ActionModel) -> bool {
    |m: ActionModel|
        m.host == host && m.repository_id == repository_id && m.status == ActionStatus::Running
}

pub open spec fn is_parked(
    host: Seq<char>,
    viewer_id: i64,
    full_name: Seq<char>,
    number: u64,
) -> spec_fn(ActionModel) -> bool {
    |m: ActionModel|
        m.host == host && m.viewer_id == viewer_id && m.repository_full_name == full_name
            && m.pull_request_number == number && m.status == ActionStatus::Parked
}

impl State {
    /// The repository has a running action, whoever it runs for.
    pub open spec fn busy(self, host: Seq<char>, repository_id: i64) -> bool {
        any(self.actions, runs_in(host, repository_id))
    }

    /// The action may be claimed now.
    pub open spec fn claimable(
        self,
        host: Seq<char>,
        viewer_id: i64,
        now: i64,
    ) -> spec_fn(ActionModel) -> bool {
        |m: ActionModel|
            m.host == host && m.viewer_id == viewer_id && m.status == ActionStatus::Pending
                && m.due_at <= now && m.attempts < MAX_ACTION_ATTEMPTS && !self.busy(
                m.host,
                m.repository_id,
            )
    }

    /// The position of the action that is claimed next: none where the viewer
    /// already runs `limit` actions.
    pub open spec fn next_action(
        self,
        host: Seq<char>,
        viewer_id: i64,
        limit: nat,
        now: i64,
    ) -> Option<int> {
        if count(self.actions, runs_for(host, viewer_id)) >= limit {
            None
        } else {
            best(
                self.actions,
                self.claimable(host, viewer_id, now),
                |a: ActionModel, b: ActionModel| a.claimed_before(b),
            )
        }
    }

    pub open spec fn claim_due_action(
        self,
        host: Seq<char>,
        viewer_id: i64,
        limit: nat,
        now: i64,
    ) -> (State, Option<ActionModel>) {
        match self.next_action(host, viewer_id, limit, now) {
            Some(k) => {
                let action = self.actions[k].claimed(now);
                (State { actions: self.actions.update(k, action), ..self }, Some(action))
            },
            None => (self, None),
        }
    }

    /// The queue after the actions that `new` outdates are cancelled.
    pub open spec fn supersede(self, new: NewActionModel, now: i64) -> State {
        State {
            actions: updated(
                self.actions,
                is_outdated(new),
                |m: ActionModel| m.superseded(now),
            ),
            ..self
        }
    }

    pub open spec fn enqueue_action(
        self,
        new: NewActionModel,
        now: i64,
    ) -> Result<(State, EnqueueResult), DbError> {
        let rest = self.supersede(new, now);
        let superseded = count(self.actions, is_outdated(new)) as usize;
        if new.pull_request_number > MAX_STORED_NUMBER {
            Err(DbError::NumberTooLarge)
        } else {
            match first(self.actions, is_same(new)) {
                Some(k) => {
                    let action_id = self.actions[k].id;
                    Ok(
                        (
                            State {
                                actions: updated(
                                    rest.actions,
                                    is_waiting(action_id),
                                    |m: ActionModel| m.refreshed(new, now),
                                ),
                                ..self
                            },
                            EnqueueResult { action_id, inserted: false, superseded },
                        ),
                    )
                },
                None => if self.last_action_id == i64::MAX {
                    Err(DbError::ActionIdsExhausted)
                } else {
                    let action_id = (self.last_action_id + 1) as i64;
                    Ok(
                        (
                            State {
                                actions: rest.actions.push(
                                    ActionModel::created(action_id, new, now),
                                ),
                                last_action_id: action_id,
                                ..self
                            },
                            EnqueueResult { action_id, inserted: true, superseded },
                        ),
                    )
                },
            }
        }
    }

    pub open spec fn complete_action(self, id: i64, now: i64) -> State {
        State {
            actions: updated(self.actions, is_running(id), |m: ActionModel| m.completed(now)),
            ..self
        }
    }

    pub open spec fn cancel_action(self, id: i64, reason: Seq<char>, now: i64) -> State {
        State {
            actions: updated(self.actions, is_open(id), |m: ActionModel| m.cancelled(reason, now)),
            ..self
        }
    }

    pub open spec fn defer_action(
        self,
        id: i64,
        error: Seq<char>,
        retry_at: i64,
        now: i64,
    ) -> State {
        State {
            actions: updated(
                self.actions,
                is_running(id),
                |m: ActionModel| m.deferred(error, retry_at, now),
            ),
            ..self
        }
    }

    pub open spec fn fail_action(
        self,
        id: i64,
        error: Seq<char>,
        retry_at: i64,
        now: i64,
    ) -> (State, Option<ActionStatus>) {
        match lookup(self.actions, is_running(id)) {
            Some(running) => {
                let status = running.after_failure();
                (
                    State {
                        actions: updated(
                            self.actions,
                            has_id(id),
                            |m: ActionModel| m.failed(status, error, retry_at, now),
                        ),
                        ..self
                    },
                    Some(status),
                )
            },
            None => (self, None),
        }
    }

    pub open spec fn recover_running_actions(
        self,
        host: Seq<char>,
        viewer_id: i64,
        retry_at: i64,
        now: i64,
    ) -> State {
        State {
            actions: updated(
                self.actions,
                runs_for(host, viewer_id),
                |m: ActionModel|
                    m.failed(
                        m.after_failure(),
                        "daemon stopped while review command was running"@,
                        retry_at,
                        now,
                    ),
            ),
            ..self
        }
    }

    pub open spec fn retry_newest_parked(
        self,
        host: Seq<char>,
        viewer_id: i64,
        full_name: Seq<char>,
        number: u64,
        now: i64,
    ) -> Result<(State, Option<i64>), DbError> {
        if number > MAX_STORED_NUMBER {
            Err(DbError::NumberTooLarge)
        } else {
            match best(
                self.actions,
                is_parked(host, viewer_id, full_name, number),
                |a: ActionModel, b: ActionModel| a.newer(b),
            ) {
                Some(k) => Ok(
                    (
                        State {
                            actions: self.actions.update(k, self.actions[k].retried(now)),
                            ..self
                        },
                        Some(self.actions[k].id),
                    ),
                ),
                None => Ok((self, None)),
            }
        }
    }
}

// ---------------------------------------------------------------------------
// Rules
// ---------------------------------------------------------------------------

struct HasId {
    id: i64,
}

impl Test<ReviewAction> for HasId {
    closed spec fn holds(&self, m: ActionModel) -> bool {
        has_id(self.id)(m)
    }

    fn check(&self, row: &ReviewAction) -> (r: bool) {
        row.id == self.id
    }
}

struct IsRunning {
    id: i64,
}

impl Test<ReviewAction> for IsRunning {
    closed spec fn holds(&self, m: ActionModel) -> bool {
        is_running(self.id)(m)
    }

    fn check(&self, row: &ReviewAction) -> (r: bool) {
        row.id == self.id && row.status == ActionStatus::Running
    }
}

struct Outdate<'a> {
    new: &'a NewReviewAction,
    now: i64,
}

fn same_pull(row: &ReviewAction, new: &NewReviewAction) -> (r: bool)
    ensures
        r == row@.same_pull(new@),
{
    str_eq(row.host.as_str(), new.host.as_str()) && row.viewer_id == new.viewer_id
        && row.repository_id == new.repository_id && row.pull_request_id == new.pull_request_id
}

impl<'a> Test<ReviewAction> for Outdate<'a> {
    closed spec fn holds(&self, m: ActionModel) -> bool {
        is_outdated(self.new@)(m)
    }

    fn check(&self, row: &ReviewAction) -> (r: bool) {
        same_pull(row, self.new) && !(str_eq(row.head_sha.as_str(), self.new.head_sha.as_str())
            && str_eq(row.trigger_key.as_str(), self.new.trigger_key.as_str()))
            && row.status.undispatched()
    }
}

impl<'a> Change<ReviewAction> for Outdate<'a> {
    closed spec fn changed(&self, m: ActionModel) -> ActionModel {
        m.superseded(self.now)
    }

    fn apply(&self, row: &mut ReviewAction) {
        row.status = ActionStatus::Cancelled;
        row.updated_at = self.now;
        row.last_error = Some("superseded by newer review action".to_owned());
    }
}

struct Same<'a> {
    new: &'a NewReviewAction,
}

impl<'a> Test<ReviewAction> for Same<'a> {
    closed spec fn holds(&self, m: ActionModel) -> bool {
        is_same(self.new@)(m)
    }

    fn check(&self, row: &ReviewAction) -> (r: bool) {
        same_pull(row, self.new) && str_eq(row.head_sha.as_str(), self.new.head_sha.as_str())
            && str_eq(row.trigger_key.as_str(), self.new.trigger_key.as_str())
    }
}

struct Refresh<'a> {
    id: i64,
    new: &'a NewReviewAction,
    now: i64,
}

impl<'a> Test<ReviewAction> for Refresh<'a> {
    closed spec fn holds(&self, m: ActionModel) -> bool {
        is_waiting(self.id)(m)
    }

    fn check(&self, row: &ReviewAction) -> (r: bool) {
        row.id == self.id && row.status.undispatched()
    }
}

impl<'a> Change<ReviewAction> for Refresh<'a> {
    closed spec fn changed(&self, m: ActionModel) -> ActionModel {
        m.refreshed(self.new@, self.now)
    }

    fn apply(&self, row: &mut ReviewAction) {
        row.repository_full_name = self.new.repository_full_name.clone();
        row.pull_request_number = self.new.pull_request_number;
        row.base_sha = self.new.envelope.pull_request.base_sha.clone();
        row.reason = self.new.reason.clone();
        row.envelope = self.new.envelope.clone();
        row.updated_at = self.now;
    }
}

struct RunsFor<'a> {
    host: &'a str,
    viewer_id: i64,
}

impl<'a> Test<ReviewAction> for RunsFor<'a> {
    closed spec fn holds(&self, m: ActionModel) -> bool {
        runs_for(self.host@, self.viewer_id)(m)
    }

    fn check(&self, row: &ReviewAction) -> (r: bool) {
        str_eq(row.host.as_str(), self.host) && row.viewer_id == self.viewer_id && row.status
            == ActionStatus::Running
    }
}

struct RunsIn<'a> {
    host: &'a str,
    repository_id: i64,
}

impl<'a> Test<ReviewAction> for RunsIn<'a> {
    closed spec fn holds(&self, m: ActionModel) -> bool {
        runs_in(self.host@, self.repository_id)(m)
    }

    fn check(&self, row: &ReviewAction) -> (r: bool) {
        str_eq(row.host.as_str(), self.host) && row.repository_id == self.repository_id
            && row.status == ActionStatus::Running
    }
}

struct Claim<'a> {
    host: &'a str,
    viewer_id: i64,
    now: i64,
    database: &'a Database,
}

impl<'a> Test<ReviewAction> for Claim<'a> {
    closed spec fn holds(&self, m: ActionModel) -> bool {
        self.database@.claimable(self.host@, self.viewer_id, self.now)(m)
    }

    fn check(&self, row: &ReviewAction) -> (r: bool) {
        str_eq(row.host.as_str(), self.host) && row.viewer_id == self.viewer_id && row.status
            == ActionStatus::Pending && row.due_at <= self.now && row.attempts
            < MAX_ACTION_ATTEMPTS && !self.database.is_busy(row.host.as_str(), row.repository_id)
    }
}

impl<'a> Choice<ReviewAction> for Claim<'a> {
    closed spec fn precedes(&self, a: ActionModel, b: ActionModel) -> bool {
        a.claimed_before(b)
    }

    fn is_before(&self, a: &ReviewAction, b: &ReviewAction) -> (r: bool) {
        if a.due_at != b.due_at {
            a.due_at < b.due_at
        } else if a.created_at != b.created_at {
            a.created_at < b.created_at
        } else {
            a.id <= b.id
        }
    }
}

struct Complete {
    id: i64,
    now: i64,
}

impl Test<ReviewAction> for Complete {
    closed spec fn holds(&self, m: ActionModel) -> bool {
        is_running(self.id)(m)
    }

    fn check(&self, row: &ReviewAction) -> (r: bool) {
        row.id == self.id && row.status == ActionStatus::Running
    }
}

impl Change<ReviewAction> for Complete {
    closed spec fn changed(&self, m: ActionModel) -> ActionModel {
        m.completed(self.now)
    }

    fn apply(&self, row: &mut ReviewAction) {
        row.status = ActionStatus::Succeeded;
        row.updated_at = self.now;
        row.completed_at = Some(self.now);
        row.last_error = None;
    }
}

struct Cancel<'a> {
    id: i64,
    reason: &'a str,
    now: i64,
}

impl<'a> Test<ReviewAction> for Cancel<'a> {
    closed spec fn holds(&self, m: ActionModel) -> bool {
        is_open(self.id)(m)
    }

    fn check(&self, row: &ReviewAction) -> (r: bool) {
        row.id == self.id && !row.status.finished()
    }
}

impl<'a> Change<ReviewAction> for Cancel<'a> {
    closed spec fn changed(&self, m: ActionModel) -> ActionModel {
        m.cancelled(self.reason@, self.now)
    }

    fn apply(&self, row: &mut ReviewAction) {
        row.status = ActionStatus::Cancelled;
        row.last_error = Some(self.reason.to_owned());
        row.updated_at = self.now;
        row.completed_at = Some(self.now);
    }
}

fn mark_failed(
    row: &mut ReviewAction,
    status: ActionStatus,
    error: &str,
    retry_at: i64,
    now: i64,
)
    ensures
        final(row)@ == old(row)@.failed(status, error@, retry_at, now),
{
    row.status = status;
    row.due_at = retry_at;
    row.updated_at = now;
    row.completed_at = if status == ActionStatus::Parked {
        Some(now)
    } else {
        None
    };
    row.last_error = Some(error.to_owned());
}

fn status_after_failure(row: &ReviewAction) -> (r: ActionStatus)
    ensures
        r == row@.after_failure(),
{
    if row.attempts >= MAX_ACTION_ATTEMPTS {
        ActionStatus::Parked
    } else {
        ActionStatus::Pending
    }
}

struct Fail<'a> {
    id: i64,
    status: ActionStatus,
    error: &'a str,
    retry_at: i64,
    now: i64,
}

impl<'a> Test<ReviewAction> for Fail<'a> {
    closed spec fn holds(&self, m: ActionModel) -> bool {
        has_id(self.id)(m)
    }

    fn check(&self, row: &ReviewAction) -> (r: bool) {
        row.id == self.id
    }
}

impl<'a> Change<ReviewAction> for Fail<'a> {
    closed spec fn changed(&self, m: ActionModel) -> ActionModel {
        m.failed(self.status, self.error@, self.retry_at, self.now)
    }

    fn apply(&self, row: &mut ReviewAction) {
        mark_failed(row, self.status, self.error, self.retry_at, self.now);
    }
}

struct Defer<'a> {
    id: i64,
    error: &'a str,
    retry_at: i64,
    now: i64,
}

impl<'a> Test<ReviewAction> for Defer<'a> {
    closed spec fn holds(&self, m: ActionModel) -> bool {
        is_running(self.id)(m)
    }

    fn check(&self, row: &ReviewAction) -> (r: bool) {
        row.id == self.id && row.status == ActionStatus::Running
    }
}

impl<'a> Change<ReviewAction> for Defer<'a> {
    closed spec fn changed(&self, m: ActionModel) -> ActionModel {
        m.deferred(self.error@, self.retry_at, self.now)
    }

    fn apply(&self, row: &mut ReviewAction) {
        row.status = ActionStatus::Pending;
        if row.attempts > 0 {
            row.attempts = row.attempts - 1;
        }
        row.due_at = self.retry_at;
        row.updated_at = self.now;
        row.completed_at = None;
        row.last_error = Some(self.error.to_owned());
    }
}

struct Recover<'a> {
    host: &'a str,
    viewer_id: i64,
    retry_at: i64,
    now: i64,
}

impl<'a> Test<ReviewAction> for Recover<'a> {
    closed spec fn holds(&self, m: ActionModel) -> bool {
        runs_for(self.host@, self.viewer_id)(m)
    }

    fn check(&self, row: &ReviewAction) -> (r: bool) {
        str_eq(row.host.as_str(), self.host) && row.viewer_id == self.viewer_id && row.status
            == ActionStatus::Running
    }
}

impl<'a> Change<ReviewAction> for Recover<'a> {
    closed spec fn changed(&self, m: ActionModel) -> ActionModel {
        m.failed(
            m.after_failure(),
            "daemon stopped while review command was running"@,
            self.retry_at,
            self.now,
        )
    }

    fn apply(&self, row: &mut ReviewAction) {
        let status = status_after_failure(row);
        mark_failed(
            row,
            status,
            "daemon stopped while review command was running",
            self.retry_at,
            self.now,
        );
    }
}

struct Parked<'a> {
    host: &'a str,
    viewer_id: i64,
    full_name: &'a str,
    number: u64,
}

impl<'a> Test<ReviewAction> for Parked<'a> {
    closed spec fn holds(&self, m: ActionModel) -> bool {
        is_parked(self.host@, self.viewer_id, self.full_name@, self.number)(m)
    }

    fn check(&self, row: &ReviewAction) -> (r: bool) {
        str_eq(row.host.as_str(), self.host) && row.viewer_id == self.viewer_id && str_eq(
            row.repository_full_name.as_str(),
            self.full_name,
        ) && row.pull_request_number == self.number && row.status == ActionStatus::Parked
    }
}

impl<'a> Choice<ReviewAction> for Parked<'a> {
    closed spec fn precedes(&self, a: ActionModel, b: ActionModel) -> bool {
        a.newer(b)
    }

    fn is_before(&self, a: &ReviewAction, b: &ReviewAction) -> (r: bool) {
        if a.created_at != b.created_at {
            a.created_at > b.created_at
        } else {
            a.id >= b.id
        }
    }
}

fn mark_claimed(row: &mut ReviewAction, now: i64)
    requires
        old(row).attempts < MAX_ACTION_ATTEMPTS,
    ensures
        final(row)@ == old(row)@.claimed(now),
{
    row.status = ActionStatus::Running;
    row.attempts = row.attempts + 1;
    row.updated_at = now;
    row.last_error = None;
}

fn mark_retried(row: &mut ReviewAction, now: i64)
    ensures
        final(row)@ == old(row)@.retried(now),
{
    row.status = ActionStatus::Pending;
    row.attempts = 0;
    row.due_at = now;
    row.updated_at = now;
    row.completed_at = None;
    row.last_error = None;
}

// ---------------------------------------------------------------------------
// Operations
// ---------------------------------------------------------------------------

impl Database {
    fn is_busy(&self, host: &str, repository_id: i64) -> (r: bool)
        ensures
            r == self@.busy(host@, repository_id),
    {
        let test = RunsIn { host, repository_id };
        assert((|m: ActionModel| test.holds(m)) =~= runs_in(host@, repository_id));
        any_row(&self.actions, &test)
    }

    /// Queues a review unless it was queued before, and cancels the other reviews
    /// of the same pull request that wait or are parked. One that runs already
    /// is left to finish. A review that still waits takes the new payload.
    pub fn enqueue_action(&mut self, action: &NewReviewAction, now: i64) -> (r: Result<
        EnqueueResult,
        DbError,
    >)
        ensures
            match r {
                Ok(result) => old(self)@.enqueue_action(action@, now) == Ok::<
                    (State, EnqueueResult),
                    DbError,
                >((final(self)@, result)),
                Err(error) => old(self)@.enqueue_action(action@, now) == Err::<
                    (State, EnqueueResult),
                    DbError,
                >(error) && *final(self) == *old(self),
            },
    {
        if action.pull_request_number > MAX_STORED_NUMBER {
            return Err(DbError::NumberTooLarge);
        }
        let same = Same { new: action };
        assert((|m: ActionModel| same.holds(m)) =~= is_same(action@));
        let existing = position(&self.actions, &same);
        if existing.is_none() && self.last_action_id == i64::MAX {
            return Err(DbError::ActionIdsExhausted);
        }
        let existing_id: i64 = match existing {
            Some(k) => self.actions[k].id,
            None => 0,
        };
        let outdate = Outdate { new: action, now };
        assert((|m: ActionModel| outdate.holds(m)) =~= is_outdated(action@));
        assert((|m: ActionModel| outdate.changed(m)) =~= (|m: ActionModel| m.superseded(now)));
        let superseded = update_where(&mut self.actions, &outdate);
        if existing.is_some() {
            let refresh = Refresh { id: existing_id, new: action, now };
            assert((|m: ActionModel| refresh.holds(m)) =~= is_waiting(existing_id));
            assert((|m: ActionModel| refresh.changed(m)) =~= (|m: ActionModel|
                m.refreshed(action@, now)));
            let refreshed = update_where(&mut self.actions, &refresh);
            return Ok(EnqueueResult { action_id: existing_id, inserted: false, superseded });
        }
        let action_id: i64 = self.last_action_id + 1;
        let ghost before = self.actions@;
        self.actions.push(
            ReviewAction {
                id: action_id,
                host: action.host.clone(),
                viewer_id: action.viewer_id,
                repository_id: action.repository_id,
                repository_full_name: action.repository_full_name.clone(),
                pull_request_id: action.pull_request_id,
                pull_request_number: action.pull_request_number,
                head_sha: action.head_sha.clone(),
                base_sha: action.envelope.pull_request.base_sha.clone(),
                trigger_key: action.trigger_key.clone(),
                reason: action.reason.clone(),
                envelope: action.envelope.clone(),
                status: ActionStatus::Pending,
                attempts: 0,
                due_at: action.due_at,
                last_error: None,
                created_at: now,
                updated_at: now,
                completed_at: None,
            },
        );
        self.last_action_id = action_id;
        assert(models(self.actions@) =~= models(before).push(
            ActionModel::created(action_id, action@, now),
        ));
        Ok(EnqueueResult { action_id, inserted: true, superseded })
    }

    pub fn get_action(&self, action_id: i64) -> (r: Option<ReviewAction>)
        ensures
            crate::model::opt_model(r) == lookup(self@.actions, has_id(action_id)),
    {
        let test = HasId { id: action_id };
        assert((|m: ActionModel| test.holds(m)) =~= has_id(action_id));
        find_row(&self.actions, &test)
    }

    /// Claims the action that has been due longest, unless the viewer already
    /// runs `global_limit` actions. A repository runs at most one action at a
    /// time. The attempt counts from here.
    pub fn claim_due_action(
        &mut self,
        host: &str,
        viewer_id: i64,
        global_limit: usize,
        now: i64,
    ) -> (r: Option<ReviewAction>)
        ensures
            old(self)@.claim_due_action(host@, viewer_id, global_limit as nat, now) == (
                final(self)@,
                crate::model::opt_model(r),
            ),
    {
        let running = RunsFor { host, viewer_id };
        assert((|m: ActionModel| running.holds(m)) =~= runs_for(host@, viewer_id));
        if count_rows(&self.actions, &running) >= global_limit {
            return None;
        }
        let found = {
            let rule = Claim { host, viewer_id, now, database: &*self };
            assert((|m: ActionModel| rule.holds(m)) =~= self@.claimable(host@, viewer_id, now));
            assert((|a: ActionModel, b: ActionModel| rule.precedes(a, b)) =~= (|
                a: ActionModel,
                b: ActionModel,
            | a.claimed_before(b)));
            choose_row(&self.actions, &rule)
        };
        match found {
            Some(k) => {
                let ghost before = self.actions@;
                mark_claimed(&mut self.actions[k], now);
                assert(models(self.actions@) =~= models(before).update(
                    k as int,
                    before[k as int]@.claimed(now),
                ));
                Some(self.actions[k].clone())
            },
            None => None,
        }
    }

    pub fn complete_action(&mut self, action_id: i64, now: i64) -> (r: bool)
        ensures
            final(self)@ == old(self)@.complete_action(action_id, now),
            r == any(old(self)@.actions, is_running(action_id)),
    {
        let rule = Complete { id: action_id, now };
        assert((|m: ActionModel| rule.holds(m)) =~= is_running(action_id));
        assert((|m: ActionModel| rule.changed(m)) =~= (|m: ActionModel| m.completed(now)));
        proof {
            count_is_zero(self@.actions, is_running(action_id));
        }
        update_where(&mut self.actions, &rule) != 0
    }

    /// Cancels work that is no longer valid. A finished action stays as it is.
    pub fn cancel_action(&mut self, action_id: i64, reason: &str, now: i64) -> (r: bool)
        ensures
            final(self)@ == old(self)@.cancel_action(action_id, reason@, now),
            r == any(old(self)@.actions, is_open(action_id)),
    {
        let rule = Cancel { id: action_id, reason, now };
        assert((|m: ActionModel| rule.holds(m)) =~= is_open(action_id));
        assert((|m: ActionModel| rule.changed(m)) =~= (|m: ActionModel| m.cancelled(reason@, now)));
        proof {
            count_is_zero(self@.actions, is_open(action_id));
        }
        update_where(&mut self.actions, &rule) != 0
    }

    /// Records a launch that failed. The third one parks the action; before
    /// that it becomes due again at `retry_at`.
    pub fn fail_action(&mut self, action_id: i64, error: &str, retry_at: i64, now: i64) -> (r:
        Option<ActionStatus>)
        ensures
            old(self)@.fail_action(action_id, error@, retry_at, now) == (final(self)@, r),
    {
        let test = IsRunning { id: action_id };
        assert((|m: ActionModel| test.holds(m)) =~= is_running(action_id));
        match position(&self.actions, &test) {
            Some(k) => {
                let status = status_after_failure(&self.actions[k]);
                let rule = Fail { id: action_id, status, error, retry_at, now };
                assert((|m: ActionModel| rule.holds(m)) =~= has_id(action_id));
                assert((|m: ActionModel| rule.changed(m)) =~= (|m: ActionModel|
                    m.failed(status, error@, retry_at, now)));
                let n = update_where(&mut self.actions, &rule);
                Some(status)
            },
            None => None,
        }
    }

    /// Puts a claimed action back after something other than its command
    /// failed. The attempt that the claim counted is given back.
    pub fn defer_action(&mut self, action_id: i64, error: &str, retry_at: i64, now: i64) -> (r:
        bool)
        ensures
            final(self)@ == old(self)@.defer_action(action_id, error@, retry_at, now),
            r == any(old(self)@.actions, is_running(action_id)),
    {
        let rule = Defer { id: action_id, error, retry_at, now };
        assert((|m: ActionModel| rule.holds(m)) =~= is_running(action_id));
        assert((|m: ActionModel| rule.changed(m)) =~= (|m: ActionModel|
            m.deferred(error@, retry_at, now)));
        proof {
            count_is_zero(self@.actions, is_running(action_id));
        }
        update_where(&mut self.actions, &rule) != 0
    }

    /// Puts back the actions that a daemon left running when it stopped, or
    /// parks them where that was their third attempt.
    pub fn recover_running_actions(
        &mut self,
        host: &str,
        viewer_id: i64,
        retry_at: i64,
        now: i64,
    ) -> (n: usize)
        ensures
            final(self)@ == old(self)@.recover_running_actions(host@, viewer_id, retry_at, now),
            n == count(old(self)@.actions, runs_for(host@, viewer_id)),
    {
        let rule = Recover { host, viewer_id, retry_at, now };
        assert((|m: ActionModel| rule.holds(m)) =~= runs_for(host@, viewer_id));
        assert((|m: ActionModel| rule.changed(m)) =~= (|m: ActionModel|
            m.failed(
                m.after_failure(),
                "daemon stopped while review command was running"@,
                retry_at,
                now,
            )));
        update_where(&mut self.actions, &rule)
    }

    /// Starts the newest parked action of the pull request afresh.
    pub fn retry_newest_parked(
        &mut self,
        host: &str,
        viewer_id: i64,
        repository_full_name: &str,
        pull_request_number: u64,
        now: i64,
    ) -> (r: Result<Option<i64>, DbError>)
        ensures
            match r {
                Ok(id) => old(self)@.retry_newest_parked(
                    host@,
                    viewer_id,
                    repository_full_name@,
                    pull_request_number,
                    now,
                ) == Ok::<(State, Option<i64>), DbError>((final(self)@, id)),
                Err(error) => old(self)@.retry_newest_parked(
                    host@,
                    viewer_id,
                    repository_full_name@,
                    pull_request_number,
                    now,
                ) == Err::<(State, Option<i64>), DbError>(error) && *final(self) == *old(self),
            },
    {
        if pull_request_number > MAX_STORED_NUMBER {
            return Err(DbError::NumberTooLarge);
        }
        let rule = Parked {
            host,
            viewer_id,
            full_name: repository_full_name,
            number: pull_request_number,
        };
        assert((|m: ActionModel| rule.holds(m)) =~= is_parked(
            host@,
            viewer_id,
            repository_full_name@,
            pull_request_number,
        ));
        assert((|a: ActionModel, b: ActionModel| rule.precedes(a, b)) =~= (|
            a: ActionModel,
            b: ActionModel,
        | a.newer(b)));
        match choose_row(&self.actions, &rule) {
            Some(k) => {
                let ghost before = self.actions@;
                let id: i64 = self.actions[k].id;
                mark_retried(&mut self.actions[k], now);
                assert(models(self.actions@) =~= models(before).update(
                    k as int,
                    before[k as int]@.retried(now),
                ));
                Ok(Some(id))
            },
            None => Ok(None),
        }
    }
}

} // verus!
