//! What the status command shows, and what time makes superfluous.

use vstd::prelude::*;
use crate::db::rows::{
    ActionCounts, ActionModel, ActionStatus, DaemonLease, DiscoveryModel, DiscoveryRecord,
    DiscoveryStatus, LeaseModel, PollModel, PollState, PruneResult, RegisteredRepositoryRecord,
    ReviewAction, StoredModel, StoredNotification, TrackedModel, TrackedPullRequest,
};
use crate::db::{Database, State};
use crate::order::{models, sort, sorted, Ranked};
use crate::table::{any, any_row, copy_rows, count, count_rows, remove_where, removed, select, Test};
use crate::text::{
    str_eq, str_le, text_le, text_le_antisymmetric, text_le_total, text_le_transitive,
};
use crate::time::has_date;

verus! {

/// Ninety days in milliseconds.
pub const NINETY_DAYS: i64 = 7_776_000_000;

/// Everything that the status command shows.
pub struct StatusSnapshot {
    pub repositories: Vec<RegisteredRepositoryRecord>,
    pub leases: Vec<DaemonLease>,
    pub poll_states: Vec<PollState>,
    pub action_counts: ActionCounts,
    pub pending_and_failed_actions: Vec<ReviewAction>,
}

pub open spec fn with_status(status: ActionStatus) -> spec_fn(ActionModel) -> bool {
    |m: ActionModel| m.status == status
}

pub open spec fn unfinished() -> spec_fn(ActionModel) -> bool {
    |m: ActionModel| !m.status.is_final()
}

pub open spec fn old_action(cutoff: i64) -> spec_fn(ActionModel) -> bool {
    |m: ActionModel| m.status.is_final() && m.updated_at < cutoff
}

pub open spec fn old_discovery(cutoff: i64) -> spec_fn(DiscoveryModel) -> bool {
    |m: DiscoveryModel| m.status == DiscoveryStatus::Completed && m.updated_at < cutoff
}

pub open spec fn old_pull(cutoff: i64) -> spec_fn(TrackedModel) -> bool {
    |m: TrackedModel| !m.active && m.updated_at < cutoff
}

/// The pull request was found through the notification.
pub open spec fn pull_uses(n: StoredModel) -> spec_fn(TrackedModel) -> bool {
    |m: TrackedModel|
        m.host == n.host && m.viewer_id == n.viewer_id && m.notification_id == n.notification.id
}

/// The discovery is for the notification.
pub open spec fn discovery_uses(n: StoredModel) -> spec_fn(DiscoveryModel) -> bool {
    |m: DiscoveryModel|
        m.host == n.host && m.viewer_id == n.viewer_id && m.notification_id == n.notification.id
}

impl State {
    /// The notification is old and nothing refers to it.
    pub open spec fn stale(self, cutoff: i64) -> spec_fn(StoredModel) -> bool {
        |n: StoredModel|
            n.last_seen_at < cutoff && !any(self.tracked_pulls, pull_uses(n)) && !any(
                self.discoveries,
                discovery_uses(n),
            )
    }

    /// The state without what was finished before `cutoff`, notifications
    /// aside.
    pub open spec fn without_finished(self, cutoff: i64) -> State {
        State {
            actions: removed(self.actions, old_action(cutoff)),
            discoveries: removed(self.discoveries, old_discovery(cutoff)),
            tracked_pulls: removed(self.tracked_pulls, old_pull(cutoff)),
            ..self
        }
    }

    pub open spec fn prune_older_than(self, cutoff: i64) -> State {
        let rest = self.without_finished(cutoff);
        State { notifications: removed(self.notifications, rest.stale(cutoff)), ..rest }
    }
}

impl Ranked for DaemonLease {
    /// By host and login.
    open spec fn at_most(a: LeaseModel, b: LeaseModel) -> bool {
        if a.host != b.host {
            text_le(a.host, b.host)
        } else {
            text_le(a.viewer_login, b.viewer_login)
        }
    }

    proof fn total(a: LeaseModel, b: LeaseModel) {
        text_le_total(a.host, b.host);
        text_le_total(a.viewer_login, b.viewer_login);
    }

    proof fn transitive(a: LeaseModel, b: LeaseModel, c: LeaseModel) {
        if a.host == b.host && b.host == c.host {
            text_le_transitive(a.viewer_login, b.viewer_login, c.viewer_login);
        } else if a.host != b.host && b.host != c.host {
            text_le_transitive(a.host, b.host, c.host);
            if a.host == c.host {
                text_le_antisymmetric(a.host, b.host);
            }
        }
    }

    fn is_at_most(&self, other: &Self) -> (r: bool) {
        if !str_eq(self.host.as_str(), other.host.as_str()) {
            str_le(self.host.as_str(), other.host.as_str())
        } else {
            str_le(self.viewer_login.as_str(), other.viewer_login.as_str())
        }
    }
}

impl Ranked for PollState {
    /// By host and viewer.
    open spec fn at_most(a: PollModel, b: PollModel) -> bool {
        if a.host != b.host {
            text_le(a.host, b.host)
        } else {
            a.viewer_id <= b.viewer_id
        }
    }

    proof fn total(a: PollModel, b: PollModel) {
        text_le_total(a.host, b.host);
    }

    proof fn transitive(a: PollModel, b: PollModel, c: PollModel) {
        if a.host != b.host && b.host != c.host {
            text_le_transitive(a.host, b.host, c.host);
            if a.host == c.host {
                text_le_antisymmetric(a.host, b.host);
            }
        }
    }

    fn is_at_most(&self, other: &Self) -> (r: bool) {
        if !str_eq(self.host.as_str(), other.host.as_str()) {
            str_le(self.host.as_str(), other.host.as_str())
        } else {
            self.viewer_id <= other.viewer_id
        }
    }
}

impl Ranked for ReviewAction {
    /// By due time and number.
    open spec fn at_most(a: ActionModel, b: ActionModel) -> bool {
        if a.due_at != b.due_at {
            a.due_at < b.due_at
        } else {
            a.id <= b.id
        }
    }

    proof fn total(a: ActionModel, b: ActionModel) {
    }

    proof fn transitive(a: ActionModel, b: ActionModel, c: ActionModel) {
    }

    fn is_at_most(&self, other: &Self) -> (r: bool) {
        if self.due_at != other.due_at {
            self.due_at < other.due_at
        } else {
            self.id <= other.id
        }
    }
}

struct WithStatus {
    status: ActionStatus,
}

impl Test<ReviewAction> for WithStatus {
    closed spec fn holds(&self, m: ActionModel) -> bool {
        with_status(self.status)(m)
    }

    fn check(&self, row: &ReviewAction) -> (r: bool) {
        row.status == self.status
    }
}

struct Unfinished {}

impl Test<ReviewAction> for Unfinished {
    closed spec fn holds(&self, m: ActionModel) -> bool {
        unfinished()(m)
    }

    fn check(&self, row: &ReviewAction) -> (r: bool) {
        !row.status.finished()
    }
}

struct OldAction {
    cutoff: i64,
}

impl Test<ReviewAction> for OldAction {
    closed spec fn holds(&self, m: ActionModel) -> bool {
        old_action(self.cutoff)(m)
    }

    fn check(&self, row: &ReviewAction) -> (r: bool) {
        row.status.finished() && row.updated_at < self.cutoff
    }
}

struct OldDiscovery {
    cutoff: i64,
}

impl Test<DiscoveryRecord> for OldDiscovery {
    closed spec fn holds(&self, m: DiscoveryModel) -> bool {
        old_discovery(self.cutoff)(m)
    }

    fn check(&self, row: &DiscoveryRecord) -> (r: bool) {
        row.status == DiscoveryStatus::Completed && row.updated_at < self.cutoff
    }
}

struct OldPull {
    cutoff: i64,
}

impl Test<TrackedPullRequest> for OldPull {
    closed spec fn holds(&self, m: TrackedModel) -> bool {
        old_pull(self.cutoff)(m)
    }

    fn check(&self, row: &TrackedPullRequest) -> (r: bool) {
        !row.active && row.updated_at < self.cutoff
    }
}

struct PullUses<'a> {
    notification: &'a StoredNotification,
}

impl<'a> Test<TrackedPullRequest> for PullUses<'a> {
    closed spec fn holds(&self, m: TrackedModel) -> bool {
        pull_uses(self.notification@)(m)
    }

    fn check(&self, row: &TrackedPullRequest) -> (r: bool) {
        str_eq(row.host.as_str(), self.notification.host.as_str()) && row.viewer_id
            == self.notification.viewer_id && str_eq(
            row.notification_id.as_str(),
            self.notification.notification.id.as_str(),
        )
    }
}

struct DiscoveryUses<'a> {
    notification: &'a StoredNotification,
}

impl<'a> Test<DiscoveryRecord> for DiscoveryUses<'a> {
    closed spec fn holds(&self, m: DiscoveryModel) -> bool {
        discovery_uses(self.notification@)(m)
    }

    fn check(&self, row: &DiscoveryRecord) -> (r: bool) {
        str_eq(row.host.as_str(), self.notification.host.as_str()) && row.viewer_id
            == self.notification.viewer_id && str_eq(
            row.notification_id.as_str(),
            self.notification.notification.id.as_str(),
        )
    }
}

struct Stale<'a> {
    cutoff: i64,
    pulls: &'a Vec<TrackedPullRequest>,
    discoveries: &'a Vec<DiscoveryRecord>,
}

impl<'a> Test<StoredNotification> for Stale<'a> {
    closed spec fn holds(&self, n: StoredModel) -> bool {
        n.last_seen_at < self.cutoff && !any(models(self.pulls@), pull_uses(n)) && !any(
            models(self.discoveries@),
            discovery_uses(n),
        )
    }

    fn check(&self, row: &StoredNotification) -> (r: bool) {
        let pull = PullUses { notification: row };
        let discovery = DiscoveryUses { notification: row };
        assert((|m: TrackedModel| pull.holds(m)) =~= pull_uses(row@));
        assert((|m: DiscoveryModel| discovery.holds(m)) =~= discovery_uses(row@));
        row.last_seen_at < self.cutoff && !any_row(self.pulls, &pull) && !any_row(
            self.discoveries,
            &discovery,
        )
    }
}

impl Database {
    fn count_status(&self, status: ActionStatus) -> (n: u64)
        ensures
            n == count(self@.actions, with_status(status)),
    {
        let test = WithStatus { status };
        assert((|m: ActionModel| test.holds(m)) =~= with_status(status));
        count_rows(&self.actions, &test) as u64
    }

    /// The registrations, leases and polls in order, the number of actions in
    /// each status, and the actions that are not finished.
    pub fn status_snapshot(&self) -> (r: StatusSnapshot)
        ensures
            models(r.repositories@) == sorted::<RegisteredRepositoryRecord>(self@.registrations),
            models(r.leases@) == sorted::<DaemonLease>(self@.leases),
            models(r.poll_states@) == sorted::<PollState>(self@.poll_states),
            r.action_counts.pending == count(self@.actions, with_status(ActionStatus::Pending)),
            r.action_counts.running == count(self@.actions, with_status(ActionStatus::Running)),
            r.action_counts.succeeded == count(self@.actions, with_status(ActionStatus::Succeeded)),
            r.action_counts.parked == count(self@.actions, with_status(ActionStatus::Parked)),
            r.action_counts.cancelled == count(self@.actions, with_status(ActionStatus::Cancelled)),
            models(r.pending_and_failed_actions@) == sorted::<ReviewAction>(
                self@.actions.filter(unfinished()),
            ),
    {
        let test = Unfinished {  };
        assert((|m: ActionModel| test.holds(m)) =~= unfinished());
        StatusSnapshot {
            repositories: self.list_registrations(),
            leases: sort(copy_rows(&self.leases)),
            poll_states: sort(copy_rows(&self.poll_states)),
            action_counts: ActionCounts {
                pending: self.count_status(ActionStatus::Pending),
                running: self.count_status(ActionStatus::Running),
                succeeded: self.count_status(ActionStatus::Succeeded),
                parked: self.count_status(ActionStatus::Parked),
                cancelled: self.count_status(ActionStatus::Cancelled),
            },
            pending_and_failed_actions: sort(select(&self.actions, &test)),
        }
    }

    /// Deletes finished actions and discoveries, pull requests that are no
    /// longer watched, and notifications that nothing refers to, as far as
    /// they are older than `cutoff`. Work that is not finished stays.
    pub fn prune_older_than(&mut self, cutoff: i64) -> (r: PruneResult)
        ensures
            final(self)@ == old(self)@.prune_older_than(cutoff),
            r.actions == count(old(self)@.actions, old_action(cutoff)),
            r.tracked_pull_requests == count(old(self)@.tracked_pulls, old_pull(cutoff)),
            r.notifications == count(
                old(self)@.notifications,
                old(self)@.without_finished(cutoff).stale(cutoff),
            ),
    {
        let action = OldAction { cutoff };
        let discovery = OldDiscovery { cutoff };
        let pull = OldPull { cutoff };
        assert((|m: ActionModel| action.holds(m)) =~= old_action(cutoff));
        assert((|m: DiscoveryModel| discovery.holds(m)) =~= old_discovery(cutoff));
        assert((|m: TrackedModel| pull.holds(m)) =~= old_pull(cutoff));
        let actions = remove_where(&mut self.actions, &action);
        let discoveries = remove_where(&mut self.discoveries, &discovery);
        let tracked_pull_requests = remove_where(&mut self.tracked_pulls, &pull);
        assert(self@ == old(self)@.without_finished(cutoff));
        let stale = Stale { cutoff, pulls: &self.tracked_pulls, discoveries: &self.discoveries };
        assert((|m: StoredModel| stale.holds(m)) =~= old(self)@.without_finished(cutoff).stale(
            cutoff,
        ));
        let notifications = remove_where(&mut self.notifications, &stale);
        PruneResult { notifications, tracked_pull_requests, actions }
    }

    /// Deletes what has been finished for ninety days.
    pub fn prune_90_days(&mut self, now: i64) -> (r: PruneResult)
        requires
            has_date(now - NINETY_DAYS),
        ensures
            final(self)@ == old(self)@.prune_older_than((now - NINETY_DAYS) as i64),
            r.actions == count(old(self)@.actions, old_action((now - NINETY_DAYS) as i64)),
            r.tracked_pull_requests == count(
                old(self)@.tracked_pulls,
                old_pull((now - NINETY_DAYS) as i64),
            ),
            r.notifications == count(
                old(self)@.notifications,
                old(self)@.without_finished((now - NINETY_DAYS) as i64).stale(
                    (now - NINETY_DAYS) as i64,
                ),
            ),
    {
        self.prune_older_than(now - NINETY_DAYS)
    }
}

} // verus!
