//! Stored notifications and the discoveries that they lead to.

use vstd::prelude::*;
use crate::db::registry::{of_repository, opt_str};
use crate::db::rows::{
    DbError, DiscoveryModel, DiscoveryRecord, DiscoveryStatus, FoundModel, NotificationDiscovery,
    StoredModel, StoredNotification,
};
use crate::db::{Database, State};
use crate::model::{opt_model, Notification, NotificationModel};
use crate::order::{models, sort, sorted, Ranked};
use crate::table::{
    any, any_row, best, choose_row, count, count_is_zero, count_rows, find_row, limited, lookup,
    update_where, updated, Change, Choice, Test,
};
use crate::text::{opt_clone, str_eq, str_le, text_le, text_le_total, text_le_transitive};

verus! {

// ---------------------------------------------------------------------------
// What happens to one row
// ---------------------------------------------------------------------------

pub open spec fn stored_as(host: Seq<char>, viewer_id: i64, id: Seq<char>) -> spec_fn(
    StoredModel,
) -> bool {
    |m: StoredModel| m.host == host && m.viewer_id == viewer_id && m.notification.id == id
}

pub open spec fn discovery_of(host: Seq<char>, viewer_id: i64, id: Seq<char>) -> spec_fn(
    DiscoveryModel,
) -> bool {
    |m: DiscoveryModel| m.host == host && m.viewer_id == viewer_id && m.notification_id == id
}

pub open spec fn running_discovery(host: Seq<char>, viewer_id: i64, id: Seq<char>) -> spec_fn(
    DiscoveryModel,
) -> bool {
    |m: DiscoveryModel|
        m.host == host && m.viewer_id == viewer_id && m.notification_id == id && m.status
            == DiscoveryStatus::Running
}

pub open spec fn running_discoveries(host: Seq<char>, viewer_id: i64) -> spec_fn(
    DiscoveryModel,
) -> bool {
    |m: DiscoveryModel|
        m.host == host && m.viewer_id == viewer_id && m.status == DiscoveryStatus::Running
}

pub open spec fn due_discovery(host: Seq<char>, viewer_id: i64, now: i64) -> spec_fn(
    DiscoveryModel,
) -> bool {
    |m: DiscoveryModel|
        m.host == host && m.viewer_id == viewer_id && m.status == DiscoveryStatus::Pending
            && m.due_at <= now
}

impl NotificationModel {
    /// The time of the revision, in milliseconds.
    pub open spec fn revision(self) -> int {
        self.updated_at.in_millis()
    }

    /// The notification asks for a review.
    pub open spec fn asks_for_review(self) -> bool {
        self.reason == "review_requested"@ && self.subject_kind == "PullRequest"@
    }
}

impl StoredModel {
    /// The notification was seen again. An older revision than the stored one
    /// does not replace it.
    pub open spec fn seen(
        self,
        notification: NotificationModel,
        raw: Seq<char>,
        now: i64,
    ) -> StoredModel {
        if notification.revision() >= self.notification.revision() {
            StoredModel { notification, raw, last_seen_at: now, ..self }
        } else {
            StoredModel { last_seen_at: now, ..self }
        }
    }
}

impl DiscoveryModel {
    pub open spec fn created(
        host: Seq<char>,
        viewer_id: i64,
        notification: NotificationModel,
        now: i64,
    ) -> DiscoveryModel {
        DiscoveryModel {
            host,
            viewer_id,
            notification_id: notification.id,
            repository_id: notification.repository_id,
            notification_updated_at: notification.revision() as i64,
            status: DiscoveryStatus::Pending,
            attempts: 0,
            due_at: now,
            last_error: None,
            created_at: now,
            updated_at: now,
            completed_at: None,
        }
    }

    /// The notification was seen again. A newer revision starts the discovery
    /// afresh; otherwise it goes on as it was.
    pub open spec fn seen(self, notification: NotificationModel, now: i64) -> DiscoveryModel {
        let same = DiscoveryModel {
            repository_id: notification.repository_id,
            notification_updated_at: notification.revision() as i64,
            updated_at: now,
            ..self
        };
        if notification.revision() > self.notification_updated_at {
            DiscoveryModel {
                status: DiscoveryStatus::Pending,
                attempts: 0,
                due_at: now,
                last_error: None,
                completed_at: None,
                ..same
            }
        } else {
            same
        }
    }

    pub open spec fn claimed(self, now: i64) -> DiscoveryModel {
        DiscoveryModel {
            status: DiscoveryStatus::Running,
            attempts: (self.attempts + 1) as u32,
            updated_at: now,
            last_error: None,
            ..self
        }
    }

    pub open spec fn completed(self, now: i64) -> DiscoveryModel {
        DiscoveryModel {
            status: DiscoveryStatus::Completed,
            updated_at: now,
            completed_at: Some(now),
            last_error: None,
            ..self
        }
    }

    pub open spec fn deferred(self, error: Seq<char>, retry_at: i64, now: i64) -> DiscoveryModel {
        DiscoveryModel {
            status: DiscoveryStatus::Pending,
            due_at: retry_at,
            updated_at: now,
            completed_at: None,
            last_error: Some(error),
            ..self
        }
    }

    pub open spec fn recovered(self, retry_at: i64, now: i64) -> DiscoveryModel {
        DiscoveryModel {
            status: DiscoveryStatus::Pending,
            due_at: retry_at,
            updated_at: now,
            last_error: Some("daemon stopped while notification discovery was running"@),
            ..self
        }
    }

    /// `self` is claimed before `other`.
    pub open spec fn claimed_before(self, other: DiscoveryModel) -> bool {
        if self.due_at != other.due_at {
            self.due_at < other.due_at
        } else if self.created_at != other.created_at {
            self.created_at < other.created_at
        } else {
            text_le(self.notification_id, other.notification_id)
        }
    }

    /// The discovery together with a stored notification.
    pub open spec fn joined(self, stored: StoredModel) -> FoundModel {
        FoundModel {
            host: self.host,
            viewer_id: self.viewer_id,
            notification_id: self.notification_id,
            repository_id: self.repository_id,
            notification_updated_at: self.notification_updated_at,
            notification: stored.notification,
            raw: stored.raw,
            status: self.status,
            attempts: self.attempts,
            due_at: self.due_at,
            last_error: self.last_error,
            created_at: self.created_at,
            updated_at: self.updated_at,
        }
    }
}

// ---------------------------------------------------------------------------
// What happens to the tables
// ---------------------------------------------------------------------------

impl State {
    /// The stored notification of a discovery.
    pub open spec fn notification_of(self, d: DiscoveryModel) -> Option<StoredModel> {
        lookup(self.notifications, stored_as(d.host, d.viewer_id, d.notification_id))
    }

    pub open spec fn upsert_notification(
        self,
        host: Seq<char>,
        viewer_id: i64,
        notification: NotificationModel,
        raw: Seq<char>,
        now: i64,
    ) -> State {
        let stored = stored_as(host, viewer_id, notification.id);
        let queued = discovery_of(host, viewer_id, notification.id);
        State {
            notifications: if any(self.notifications, stored) {
                updated(
                    self.notifications,
                    stored,
                    |m: StoredModel| m.seen(notification, raw, now),
                )
            } else {
                self.notifications.push(
                    StoredModel {
                        host,
                        viewer_id,
                        notification,
                        raw,
                        first_seen_at: now,
                        last_seen_at: now,
                    },
                )
            },
            discoveries: if !notification.asks_for_review() || !any(
                self.registrations,
                of_repository(host, notification.repository_id),
            ) {
                self.discoveries
            } else if any(self.discoveries, queued) {
                updated(self.discoveries, queued, |m: DiscoveryModel| m.seen(notification, now))
            } else {
                self.discoveries.push(DiscoveryModel::created(host, viewer_id, notification, now))
            },
            ..self
        }
    }

    /// Stores the notifications one after another.
    pub open spec fn store_all(
        self,
        host: Seq<char>,
        viewer_id: i64,
        page: Seq<(NotificationModel, Seq<char>)>,
        now: i64,
    ) -> State
        decreases page.len(),
    {
        if page.len() == 0 {
            self
        } else {
            self.store_all(host, viewer_id, page.drop_last(), now).upsert_notification(
                host,
                viewer_id,
                page.last().0,
                page.last().1,
                now,
            )
        }
    }

    pub open spec fn commit_poll(
        self,
        host: Seq<char>,
        viewer_id: i64,
        page: Seq<(NotificationModel, Seq<char>)>,
        last_modified: Option<Seq<char>>,
        high_water: Option<Seq<char>>,
        now: i64,
    ) -> State {
        self.store_all(host, viewer_id, page, now).set_poll_state(
            host,
            viewer_id,
            last_modified,
            high_water,
            now,
        )
    }

    pub open spec fn commit_bootstrap(
        self,
        host: Seq<char>,
        viewer_id: i64,
        repository_id: i64,
        page: Seq<(NotificationModel, Seq<char>)>,
        now: i64,
    ) -> State {
        self.store_all(host, viewer_id, page, now).mark_bootstrap_complete(
            host,
            viewer_id,
            repository_id,
            now,
        )
    }

    /// The due discoveries whose notification is stored, in the order in which
    /// they are claimed.
    pub open spec fn due_discoveries(
        self,
        host: Seq<char>,
        viewer_id: i64,
        now: i64,
    ) -> Seq<FoundModel> {
        sorted::<NotificationDiscovery>(
            self.discoveries.filter(
                |d: DiscoveryModel|
                    due_discovery(host, viewer_id, now)(d) && self.notification_of(d) is Some,
            ).map_values(|d: DiscoveryModel| d.joined(self.notification_of(d)->0)),
        )
    }

    pub open spec fn claim_pending_discovery(
        self,
        host: Seq<char>,
        viewer_id: i64,
        now: i64,
    ) -> Result<(State, Option<FoundModel>), DbError> {
        match best(
            self.discoveries,
            due_discovery(host, viewer_id, now),
            |a: DiscoveryModel, b: DiscoveryModel| a.claimed_before(b),
        ) {
            None => Ok((self, None)),
            Some(k) => {
                let d = self.discoveries[k];
                match self.notification_of(d) {
                    None => Err(DbError::NotificationMissing),
                    Some(stored) => if d.attempts == u32::MAX {
                        Err(DbError::AttemptsExhausted)
                    } else {
                        Ok(
                            (
                                State {
                                    discoveries: self.discoveries.update(k, d.claimed(now)),
                                    ..self
                                },
                                Some(d.claimed(now).joined(stored)),
                            ),
                        )
                    },
                }
            },
        }
    }

    pub open spec fn complete_discovery(
        self,
        host: Seq<char>,
        viewer_id: i64,
        id: Seq<char>,
        now: i64,
    ) -> State {
        State {
            discoveries: updated(
                self.discoveries,
                running_discovery(host, viewer_id, id),
                |m: DiscoveryModel| m.completed(now),
            ),
            ..self
        }
    }

    pub open spec fn defer_discovery(
        self,
        host: Seq<char>,
        viewer_id: i64,
        id: Seq<char>,
        error: Seq<char>,
        retry_at: i64,
        now: i64,
    ) -> State {
        State {
            discoveries: updated(
                self.discoveries,
                running_discovery(host, viewer_id, id),
                |m: DiscoveryModel| m.deferred(error, retry_at, now),
            ),
            ..self
        }
    }

    pub open spec fn recover_running_discoveries(
        self,
        host: Seq<char>,
        viewer_id: i64,
        retry_at: i64,
        now: i64,
    ) -> State {
        State {
            discoveries: updated(
                self.discoveries,
                running_discoveries(host, viewer_id),
                |m: DiscoveryModel| m.recovered(retry_at, now),
            ),
            ..self
        }
    }
}

impl Ranked for NotificationDiscovery {
    /// By due time, time of creation, and id.
    open spec fn at_most(a: FoundModel, b: FoundModel) -> bool {
        if a.due_at != b.due_at {
            a.due_at < b.due_at
        } else if a.created_at != b.created_at {
            a.created_at < b.created_at
        } else {
            text_le(a.notification_id, b.notification_id)
        }
    }

    proof fn total(a: FoundModel, b: FoundModel) {
        text_le_total(a.notification_id, b.notification_id);
    }

    proof fn transitive(a: FoundModel, b: FoundModel, c: FoundModel) {
        if a.due_at == b.due_at && b.due_at == c.due_at && a.created_at == b.created_at
            && b.created_at == c.created_at {
            text_le_transitive(a.notification_id, b.notification_id, c.notification_id);
        }
    }

    fn is_at_most(&self, other: &Self) -> (r: bool) {
        if self.due_at != other.due_at {
            self.due_at < other.due_at
        } else if self.created_at != other.created_at {
            self.created_at < other.created_at
        } else {
            str_le(self.notification_id.as_str(), other.notification_id.as_str())
        }
    }
}

// ---------------------------------------------------------------------------
// Rules
// ---------------------------------------------------------------------------

struct StoredAs<'a> {
    host: &'a str,
    viewer_id: i64,
    id: &'a str,
}

impl<'a> Test<StoredNotification> for StoredAs<'a> {
    closed spec fn holds(&self, m: StoredModel) -> bool {
        stored_as(self.host@, self.viewer_id, self.id@)(m)
    }

    fn check(&self, row: &StoredNotification) -> (r: bool) {
        str_eq(row.host.as_str(), self.host) && row.viewer_id == self.viewer_id && str_eq(
            row.notification.id.as_str(),
            self.id,
        )
    }
}

struct SeenAgain<'a> {
    host: &'a str,
    viewer_id: i64,
    notification: &'a Notification,
    raw: &'a str,
    now: i64,
}

impl<'a> Test<StoredNotification> for SeenAgain<'a> {
    closed spec fn holds(&self, m: StoredModel) -> bool {
        stored_as(self.host@, self.viewer_id, self.notification@.id)(m)
    }

    fn check(&self, row: &StoredNotification) -> (r: bool) {
        str_eq(row.host.as_str(), self.host) && row.viewer_id == self.viewer_id && str_eq(
            row.notification.id.as_str(),
            self.notification.id.as_str(),
        )
    }
}

impl<'a> Change<StoredNotification> for SeenAgain<'a> {
    closed spec fn changed(&self, m: StoredModel) -> StoredModel {
        m.seen(self.notification@, self.raw@, self.now)
    }

    fn apply(&self, row: &mut StoredNotification) {
        if self.notification.updated_at.wide_millis() >= row.notification.updated_at.wide_millis() {
            row.notification = self.notification.clone();
            row.raw = self.raw.to_owned();
        }
        row.last_seen_at = self.now;
    }
}

struct Requeue<'a> {
    host: &'a str,
    viewer_id: i64,
    notification: &'a Notification,
    now: i64,
}

impl<'a> Test<DiscoveryRecord> for Requeue<'a> {
    closed spec fn holds(&self, m: DiscoveryModel) -> bool {
        discovery_of(self.host@, self.viewer_id, self.notification@.id)(m)
    }

    fn check(&self, row: &DiscoveryRecord) -> (r: bool) {
        str_eq(row.host.as_str(), self.host) && row.viewer_id == self.viewer_id && str_eq(
            row.notification_id.as_str(),
            self.notification.id.as_str(),
        )
    }
}

impl<'a> Change<DiscoveryRecord> for Requeue<'a> {
    closed spec fn changed(&self, m: DiscoveryModel) -> DiscoveryModel {
        m.seen(self.notification@, self.now)
    }

    fn apply(&self, row: &mut DiscoveryRecord) {
        let revision: i128 = self.notification.updated_at.wide_millis();
        if revision > row.notification_updated_at as i128 {
            row.status = DiscoveryStatus::Pending;
            row.attempts = 0;
            row.due_at = self.now;
            row.last_error = None;
            row.completed_at = None;
        }
        row.repository_id = self.notification.repository.id;
        row.notification_updated_at = revision as i64;
        row.updated_at = self.now;
    }
}

struct DueDiscovery<'a> {
    host: &'a str,
    viewer_id: i64,
    now: i64,
}

impl<'a> Test<DiscoveryRecord> for DueDiscovery<'a> {
    closed spec fn holds(&self, m: DiscoveryModel) -> bool {
        due_discovery(self.host@, self.viewer_id, self.now)(m)
    }

    fn check(&self, row: &DiscoveryRecord) -> (r: bool) {
        str_eq(row.host.as_str(), self.host) && row.viewer_id == self.viewer_id && row.status
            == DiscoveryStatus::Pending && row.due_at <= self.now
    }
}

impl<'a> Choice<DiscoveryRecord> for DueDiscovery<'a> {
    closed spec fn precedes(&self, a: DiscoveryModel, b: DiscoveryModel) -> bool {
        a.claimed_before(b)
    }

    fn is_before(&self, a: &DiscoveryRecord, b: &DiscoveryRecord) -> (r: bool) {
        if a.due_at != b.due_at {
            a.due_at < b.due_at
        } else if a.created_at != b.created_at {
            a.created_at < b.created_at
        } else {
            str_le(a.notification_id.as_str(), b.notification_id.as_str())
        }
    }
}

struct CompleteDiscovery<'a> {
    host: &'a str,
    viewer_id: i64,
    id: &'a str,
    now: i64,
}

fn runs_discovery(row: &DiscoveryRecord, host: &str, viewer_id: i64, id: &str) -> (r: bool)
    ensures
        r == running_discovery(host@, viewer_id, id@)(row@),
{
    str_eq(row.host.as_str(), host) && row.viewer_id == viewer_id && str_eq(
        row.notification_id.as_str(),
        id,
    ) && row.status == DiscoveryStatus::Running
}

impl<'a> Test<DiscoveryRecord> for CompleteDiscovery<'a> {
    closed spec fn holds(&self, m: DiscoveryModel) -> bool {
        running_discovery(self.host@, self.viewer_id, self.id@)(m)
    }

    fn check(&self, row: &DiscoveryRecord) -> (r: bool) {
        runs_discovery(row, self.host, self.viewer_id, self.id)
    }
}

impl<'a> Change<DiscoveryRecord> for CompleteDiscovery<'a> {
    closed spec fn changed(&self, m: DiscoveryModel) -> DiscoveryModel {
        m.completed(self.now)
    }

    fn apply(&self, row: &mut DiscoveryRecord) {
        row.status = DiscoveryStatus::Completed;
        row.updated_at = self.now;
        row.completed_at = Some(self.now);
        row.last_error = None;
    }
}

struct DeferDiscovery<'a> {
    host: &'a str,
    viewer_id: i64,
    id: &'a str,
    error: &'a str,
    retry_at: i64,
    now: i64,
}

impl<'a> Test<DiscoveryRecord> for DeferDiscovery<'a> {
    closed spec fn holds(&self, m: DiscoveryModel) -> bool {
        running_discovery(self.host@, self.viewer_id, self.id@)(m)
    }

    fn check(&self, row: &DiscoveryRecord) -> (r: bool) {
        runs_discovery(row, self.host, self.viewer_id, self.id)
    }
}

impl<'a> Change<DiscoveryRecord> for DeferDiscovery<'a> {
    closed spec fn changed(&self, m: DiscoveryModel) -> DiscoveryModel {
        m.deferred(self.error@, self.retry_at, self.now)
    }

    fn apply(&self, row: &mut DiscoveryRecord) {
        row.status = DiscoveryStatus::Pending;
        row.due_at = self.retry_at;
        row.updated_at = self.now;
        row.completed_at = None;
        row.last_error = Some(self.error.to_owned());
    }
}

struct RecoverDiscoveries<'a> {
    host: &'a str,
    viewer_id: i64,
    retry_at: i64,
    now: i64,
}

impl<'a> Test<DiscoveryRecord> for RecoverDiscoveries<'a> {
    closed spec fn holds(&self, m: DiscoveryModel) -> bool {
        running_discoveries(self.host@, self.viewer_id)(m)
    }

    fn check(&self, row: &DiscoveryRecord) -> (r: bool) {
        str_eq(row.host.as_str(), self.host) && row.viewer_id == self.viewer_id && row.status
            == DiscoveryStatus::Running
    }
}

impl<'a> Change<DiscoveryRecord> for RecoverDiscoveries<'a> {
    closed spec fn changed(&self, m: DiscoveryModel) -> DiscoveryModel {
        m.recovered(self.retry_at, self.now)
    }

    fn apply(&self, row: &mut DiscoveryRecord) {
        row.status = DiscoveryStatus::Pending;
        row.due_at = self.retry_at;
        row.updated_at = self.now;
        row.last_error = Some("daemon stopped while notification discovery was running".to_owned());
    }
}

fn mark_claimed(row: &mut DiscoveryRecord, now: i64)
    requires
        old(row).attempts < u32::MAX,
    ensures
        final(row)@ == old(row)@.claimed(now),
{
    row.status = DiscoveryStatus::Running;
    row.attempts = row.attempts + 1;
    row.updated_at = now;
    row.last_error = None;
}

fn join(row: &DiscoveryRecord, stored: &StoredNotification) -> (r: NotificationDiscovery)
    ensures
        r@ == row@.joined(stored@),
{
    NotificationDiscovery {
        host: row.host.clone(),
        viewer_id: row.viewer_id,
        notification_id: row.notification_id.clone(),
        repository_id: row.repository_id,
        notification_updated_at: row.notification_updated_at,
        notification: stored.notification.clone(),
        raw: stored.raw.clone(),
        status: row.status,
        attempts: row.attempts,
        due_at: row.due_at,
        last_error: opt_clone(&row.last_error),
        created_at: row.created_at,
        updated_at: row.updated_at,
    }
}

// ---------------------------------------------------------------------------
// Operations
// ---------------------------------------------------------------------------

/// The models of a page of notifications and their raw texts.
pub open spec fn page_model(page: Seq<(Notification, String)>) -> Seq<
    (NotificationModel, Seq<char>),
> {
    page.map_values(|entry: (Notification, String)| (entry.0@, entry.1@))
}

/// Every notification of the page has a date.
pub open spec fn page_dated(page: Seq<(Notification, String)>) -> bool {
    forall|i: int| 0 <= i < page.len() ==> (#[trigger] page[i]).0.updated_at.wf()
}

impl Database {
    /// Stores a notification, and queues its discovery where it asks for the
    /// review of a pull request of a registered repository.
    pub fn upsert_notification(
        &mut self,
        host: &str,
        viewer_id: i64,
        notification: &Notification,
        raw: &str,
        now: i64,
    )
        requires
            notification.updated_at.wf(),
        ensures
            final(self)@ == old(self)@.upsert_notification(
                host@,
                viewer_id,
                notification@,
                raw@,
                now,
            ),
    {
        let ghost model = notification@;
        let seen = SeenAgain { host, viewer_id, notification, raw, now };
        assert((|m: StoredModel| seen.holds(m)) =~= stored_as(host@, viewer_id, model.id));
        assert((|m: StoredModel| seen.changed(m)) =~= (|m: StoredModel| m.seen(model, raw@, now)));
        if any_row(&self.notifications, &seen) {
            let n = update_where(&mut self.notifications, &seen);
        } else {
            let ghost before = self.notifications@;
            self.notifications.push(
                StoredNotification {
                    host: host.to_owned(),
                    viewer_id,
                    notification: notification.clone(),
                    raw: raw.to_owned(),
                    first_seen_at: now,
                    last_seen_at: now,
                },
            );
            assert(models(self.notifications@) =~= models(before).push(
                StoredModel {
                    host: host@,
                    viewer_id,
                    notification: model,
                    raw: raw@,
                    first_seen_at: now,
                    last_seen_at: now,
                },
            ));
        }
        if !str_eq(notification.reason.as_str(), "review_requested") || !str_eq(
            notification.subject.kind.as_str(),
            "PullRequest",
        ) || !self.is_registered(host, notification.repository.id) {
            return;
        }
        let requeue = Requeue { host, viewer_id, notification, now };
        assert((|m: DiscoveryModel| requeue.holds(m)) =~= discovery_of(host@, viewer_id, model.id));
        assert((|m: DiscoveryModel| requeue.changed(m)) =~= (|m: DiscoveryModel|
            m.seen(model, now)));
        if any_row(&self.discoveries, &requeue) {
            let n = update_where(&mut self.discoveries, &requeue);
        } else {
            let ghost before = self.discoveries@;
            let revision: i64 = notification.updated_at.millis();
            self.discoveries.push(
                DiscoveryRecord {
                    host: host.to_owned(),
                    viewer_id,
                    notification_id: notification.id.clone(),
                    repository_id: notification.repository.id,
                    notification_updated_at: revision,
                    status: DiscoveryStatus::Pending,
                    attempts: 0,
                    due_at: now,
                    last_error: None,
                    created_at: now,
                    updated_at: now,
                    completed_at: None,
                },
            );
            assert(models(self.discoveries@) =~= models(before).push(
                DiscoveryModel::created(host@, viewer_id, model, now),
            ));
        }
    }

    fn store_page(
        &mut self,
        host: &str,
        viewer_id: i64,
        page: &Vec<(Notification, String)>,
        now: i64,
    )
        requires
            page_dated(page@),
        ensures
            final(self)@ == old(self)@.store_all(host@, viewer_id, page_model(page@), now),
    {
        let ghost start = self@;
        let ghost all = page_model(page@);
        let mut i: usize = 0;
        while i < page.len()
            invariant
                i <= page@.len(),
                all == page_model(page@),
                page_dated(page@),
                self@ == start.store_all(host@, viewer_id, all.take(i as int), now),
            decreases page@.len() - i,
        {
            assert(page@[i as int].0.updated_at.wf());
            self.upsert_notification(host, viewer_id, &page[i].0, page[i].1.as_str(), now);
            i += 1;
            assert(all.take(i as int).drop_last() =~= all.take(i as int - 1));
            assert(all.take(i as int).last() == all[i as int - 1]);
        }
        assert(all.take(i as int) =~= all);
    }

    /// Stores a complete poll and what the next one starts from.
    pub fn commit_poll(
        &mut self,
        host: &str,
        viewer_id: i64,
        notifications: &Vec<(Notification, String)>,
        last_modified: Option<&str>,
        high_water: Option<&str>,
        now: i64,
    )
        requires
            page_dated(notifications@),
        ensures
            final(self)@ == old(self)@.commit_poll(
                host@,
                viewer_id,
                page_model(notifications@),
                opt_str(last_modified),
                opt_str(high_water),
                now,
            ),
    {
        self.store_page(host, viewer_id, notifications, now);
        self.set_poll_state(host, viewer_id, last_modified, high_water, now);
    }

    /// Stores the notifications of a repository and records that the viewer
    /// bootstrapped it. The answer is whether the repository is registered.
    pub fn commit_bootstrap(
        &mut self,
        host: &str,
        viewer_id: i64,
        repository_id: i64,
        notifications: &Vec<(Notification, String)>,
        now: i64,
    ) -> (r: bool)
        requires
            page_dated(notifications@),
        ensures
            final(self)@ == old(self)@.commit_bootstrap(
                host@,
                viewer_id,
                repository_id,
                page_model(notifications@),
                now,
            ),
            r == any(old(self)@.registrations, of_repository(host@, repository_id)),
    {
        self.store_page(host, viewer_id, notifications, now);
        proof {
            store_all_keeps_registrations(
                old(self)@,
                host@,
                viewer_id,
                page_model(notifications@),
                now,
            );
        }
        self.mark_bootstrap_complete(host, viewer_id, repository_id, now)
    }

    pub fn get_notification(&self, host: &str, viewer_id: i64, notification_id: &str) -> (r: Option<
        StoredNotification,
    >)
        ensures
            opt_model(r) == lookup(
                self@.notifications,
                stored_as(host@, viewer_id, notification_id@),
            ),
    {
        let test = StoredAs { host, viewer_id, id: notification_id };
        assert((|m: StoredModel| test.holds(m)) =~= stored_as(host@, viewer_id, notification_id@));
        find_row(&self.notifications, &test)
    }

    fn stored_for(&self, row: &DiscoveryRecord) -> (r: Option<StoredNotification>)
        ensures
            opt_model(r) == self@.notification_of(row@),
    {
        self.get_notification(row.host.as_str(), row.viewer_id, row.notification_id.as_str())
    }

    /// The due discoveries, at most `limit` of them, without claiming any.
    pub fn list_pending_discoveries(&self, host: &str, viewer_id: i64, now: i64, limit: usize) -> (r:
        Vec<NotificationDiscovery>)
        ensures
            models(r@) == if limit < self@.due_discoveries(host@, viewer_id, now).len() {
                self@.due_discoveries(host@, viewer_id, now).take(limit as int)
            } else {
                self@.due_discoveries(host@, viewer_id, now)
            },
    {
        let test = DueDiscovery { host, viewer_id, now };
        let ghost s = self@.discoveries;
        let ghost p = |d: DiscoveryModel|
            due_discovery(host@, viewer_id, now)(d) && self@.notification_of(d) is Some;
        let ghost f = |d: DiscoveryModel| d.joined(self@.notification_of(d)->0);
        let mut found: Vec<NotificationDiscovery> = Vec::new();
        let mut i: usize = 0;
        assert(s.take(0).filter(p).len() == 0) by {
            reveal(Seq::filter);
        }
        assert(models(found@) =~= s.take(0).filter(p).map_values(f));
        while i < self.discoveries.len()
            invariant
                i <= self.discoveries@.len(),
                s == self@.discoveries,
                test == (DueDiscovery { host, viewer_id, now }),
                p == (|d: DiscoveryModel|
                    due_discovery(host@, viewer_id, now)(d) && self@.notification_of(d) is Some),
                f == (|d: DiscoveryModel| d.joined(self@.notification_of(d)->0)),
                models(found@) == s.take(i as int).filter(p).map_values(f),
            decreases self.discoveries@.len() - i,
        {
            let ghost before = found@;
            let ghost d = s[i as int];
            assert(s.take(i as int + 1).drop_last() =~= s.take(i as int));
            assert(s.take(i as int + 1).last() == d);
            assert(s.take(i as int + 1).filter(p) == if p(d) {
                s.take(i as int).filter(p).push(d)
            } else {
                s.take(i as int).filter(p)
            }) by {
                reveal(Seq::filter);
            }
            let row = &self.discoveries[i];
            if test.check(row) {
                if let Some(stored) = self.stored_for(row) {
                    found.push(join(row, &stored));
                    assert(p(d));
                    assert(models(found@) =~= models(before).push(f(d)));
                    assert(s.take(i as int).filter(p).push(d).map_values(f) =~= s.take(
                        i as int,
                    ).filter(p).map_values(f).push(f(d)));
                }
            }
            i += 1;
        }
        assert(s.take(i as int) =~= s);
        let ordered = sort(found);
        assert(models(ordered@).len() == ordered@.len());
        limited(ordered, limit)
    }

    pub fn due_discovery_count(&self, host: &str, viewer_id: i64, now: i64) -> (n: usize)
        ensures
            n == count(self@.discoveries, due_discovery(host@, viewer_id, now)),
    {
        let test = DueDiscovery { host, viewer_id, now };
        assert((|m: DiscoveryModel| test.holds(m)) =~= due_discovery(host@, viewer_id, now));
        count_rows(&self.discoveries, &test)
    }

    /// Claims the discovery that has been due longest.
    pub fn claim_pending_discovery(&mut self, host: &str, viewer_id: i64, now: i64) -> (r: Result<
        Option<NotificationDiscovery>,
        DbError,
    >)
        ensures
            match r {
                Ok(found) => old(self)@.claim_pending_discovery(host@, viewer_id, now) == Ok::<
                    (State, Option<FoundModel>),
                    DbError,
                >((final(self)@, opt_model(found))),
                Err(error) => old(self)@.claim_pending_discovery(host@, viewer_id, now) == Err::<
                    (State, Option<FoundModel>),
                    DbError,
                >(error) && *final(self) == *old(self),
            },
    {
        let rule = DueDiscovery { host, viewer_id, now };
        assert((|m: DiscoveryModel| rule.holds(m)) =~= due_discovery(host@, viewer_id, now));
        assert((|a: DiscoveryModel, b: DiscoveryModel| rule.precedes(a, b)) =~= (|
            a: DiscoveryModel,
            b: DiscoveryModel,
        | a.claimed_before(b)));
        match choose_row(&self.discoveries, &rule) {
            None => Ok(None),
            Some(k) => match self.stored_for(&self.discoveries[k]) {
                None => Err(DbError::NotificationMissing),
                Some(stored) => {
                    if self.discoveries[k].attempts == u32::MAX {
                        return Err(DbError::AttemptsExhausted);
                    }
                    let ghost before = self.discoveries@;
                    mark_claimed(&mut self.discoveries[k], now);
                    assert(models(self.discoveries@) =~= models(before).update(
                        k as int,
                        before[k as int]@.claimed(now),
                    ));
                    Ok(Some(join(&self.discoveries[k], &stored)))
                },
            },
        }
    }

    pub fn complete_discovery(
        &mut self,
        host: &str,
        viewer_id: i64,
        notification_id: &str,
        now: i64,
    ) -> (r: bool)
        ensures
            final(self)@ == old(self)@.complete_discovery(host@, viewer_id, notification_id@, now),
            r == any(
                old(self)@.discoveries,
                running_discovery(host@, viewer_id, notification_id@),
            ),
    {
        let rule = CompleteDiscovery { host, viewer_id, id: notification_id, now };
        let ghost key = running_discovery(host@, viewer_id, notification_id@);
        assert((|m: DiscoveryModel| rule.holds(m)) =~= key);
        assert((|m: DiscoveryModel| rule.changed(m)) =~= (|m: DiscoveryModel| m.completed(now)));
        proof {
            count_is_zero(self@.discoveries, key);
        }
        update_where(&mut self.discoveries, &rule) != 0
    }

    pub fn defer_discovery(
        &mut self,
        host: &str,
        viewer_id: i64,
        notification_id: &str,
        error: &str,
        retry_at: i64,
        now: i64,
    ) -> (r: bool)
        ensures
            final(self)@ == old(self)@.defer_discovery(
                host@,
                viewer_id,
                notification_id@,
                error@,
                retry_at,
                now,
            ),
            r == any(
                old(self)@.discoveries,
                running_discovery(host@, viewer_id, notification_id@),
            ),
    {
        let rule = DeferDiscovery { host, viewer_id, id: notification_id, error, retry_at, now };
        let ghost key = running_discovery(host@, viewer_id, notification_id@);
        assert((|m: DiscoveryModel| rule.holds(m)) =~= key);
        assert((|m: DiscoveryModel| rule.changed(m)) =~= (|m: DiscoveryModel|
            m.deferred(error@, retry_at, now)));
        proof {
            count_is_zero(self@.discoveries, key);
        }
        update_where(&mut self.discoveries, &rule) != 0
    }

    /// Puts back the discoveries that a daemon left running when it stopped.
    pub fn recover_running_discoveries(
        &mut self,
        host: &str,
        viewer_id: i64,
        retry_at: i64,
        now: i64,
    ) -> (n: usize)
        ensures
            final(self)@ == old(self)@.recover_running_discoveries(
                host@,
                viewer_id,
                retry_at,
                now,
            ),
            n == count(old(self)@.discoveries, running_discoveries(host@, viewer_id)),
    {
        let rule = RecoverDiscoveries { host, viewer_id, retry_at, now };
        assert((|m: DiscoveryModel| rule.holds(m)) =~= running_discoveries(host@, viewer_id));
        assert((|m: DiscoveryModel| rule.changed(m)) =~= (|m: DiscoveryModel|
            m.recovered(retry_at, now)));
        update_where(&mut self.discoveries, &rule)
    }
}

/// Storing notifications registers nothing.
pub proof fn store_all_keeps_registrations(
    state: State,
    host: Seq<char>,
    viewer_id: i64,
    page: Seq<(NotificationModel, Seq<char>)>,
    now: i64,
)
    ensures
        state.store_all(host, viewer_id, page, now).registrations == state.registrations,
        state.store_all(host, viewer_id, page, now).bootstraps == state.bootstraps,
        state.store_all(host, viewer_id, page, now).poll_states == state.poll_states,
        state.store_all(host, viewer_id, page, now).actions == state.actions,
        state.store_all(host, viewer_id, page, now).tracked_pulls == state.tracked_pulls,
    decreases page.len(),
{
    if page.len() > 0 {
        store_all_keeps_registrations(state, host, viewer_id, page.drop_last(), now);
    }
}

} // verus!
