//! The rows of the tables, and their models.
//!
//! Times are milliseconds since the Unix epoch.

use vstd::prelude::*;
use crate::model::{
    EnvelopeModel, Notification, NotificationModel, PullModel, PullRequestState, RegisteredModel,
    RegisteredRepository, ReviewEnvelope,
};
use crate::number::{i64_text, int_text};
use crate::table::Row;
use crate::text::{opt_clone, opt_text, str_eq};

verus! {

/// Why an operation on the state was refused. A refused operation changes
/// nothing.
#[derive(Debug, PartialEq, Eq)]
pub enum DbError {
    /// Another repository of the host is registered under the same name.
    NameTaken,
    /// A number from GitHub does not fit in the store.
    NumberTooLarge,
    LeaseDurationNotPositive,
    LeaseExpiryOverflow,
    /// The notification of a queued discovery is not stored.
    NotificationMissing,
    /// The attempts of a discovery no longer fit in their column.
    AttemptsExhausted,
    /// No number is left for another action.
    ActionIdsExhausted,
    InvalidDiscoveryStatus(String),
    InvalidActionStatus(String),
    SchemaTooNew { version: i64 },
}

impl DbError {
    /// What the user reads.
    pub open spec fn text(self) -> Seq<char> {
        match self {
            DbError::NameTaken => "another repository is registered under the same name"@,
            DbError::NumberTooLarge => "GitHub number exceeds SQLite integer range"@,
            DbError::LeaseDurationNotPositive => "lease duration must be positive"@,
            DbError::LeaseExpiryOverflow => "lease expiry overflow"@,
            DbError::NotificationMissing => "the notification of a discovery is not stored"@,
            DbError::AttemptsExhausted => "too many attempts at a discovery"@,
            DbError::ActionIdsExhausted => "no number is left for another review action"@,
            DbError::InvalidDiscoveryStatus(other) =>
                "invalid notification discovery status in database: "@ + other@,
            DbError::InvalidActionStatus(other) => "invalid review action status in database: "@
                + other@,
            DbError::SchemaTooNew { version } => "database schema version "@ + int_text(
                version as int,
            ) + " is newer than supported version 5"@,
        }
    }

    pub fn message(&self) -> (r: String)
        ensures
            r@ == self.text(),
    {
        match self {
            DbError::NameTaken => "another repository is registered under the same name".to_owned(),
            DbError::NumberTooLarge => "GitHub number exceeds SQLite integer range".to_owned(),
            DbError::LeaseDurationNotPositive => "lease duration must be positive".to_owned(),
            DbError::LeaseExpiryOverflow => "lease expiry overflow".to_owned(),
            DbError::NotificationMissing => {
                "the notification of a discovery is not stored".to_owned()
            },
            DbError::AttemptsExhausted => "too many attempts at a discovery".to_owned(),
            DbError::ActionIdsExhausted => "no number is left for another review action".to_owned(),
            DbError::InvalidDiscoveryStatus(other) => {
                let mut r = "invalid notification discovery status in database: ".to_owned();
                r.append(other.as_str());
                r
            },
            DbError::InvalidActionStatus(other) => {
                let mut r = "invalid review action status in database: ".to_owned();
                r.append(other.as_str());
                r
            },
            DbError::SchemaTooNew { version } => {
                let mut r = "database schema version ".to_owned();
                r.append(i64_text(*version).as_str());
                r.append(" is newer than supported version 5");
                r
            },
        }
    }
}

#[derive(Clone, Copy, Debug, PartialEq, Eq, Structural)]
pub enum DiscoveryStatus {
    Pending,
    Running,
    Completed,
}

impl DiscoveryStatus {
    pub open spec fn text(self) -> Seq<char> {
        match self {
            DiscoveryStatus::Pending => "pending"@,
            DiscoveryStatus::Running => "running"@,
            DiscoveryStatus::Completed => "completed"@,
        }
    }

    pub fn as_str(self) -> (r: &'static str)
        ensures
            r@ == self.text(),
    {
        match self {
            DiscoveryStatus::Pending => "pending",
            DiscoveryStatus::Running => "running",
            DiscoveryStatus::Completed => "completed",
        }
    }

    /// The status with this name.
    pub fn parse(value: &str) -> (r: Result<DiscoveryStatus, DbError>)
        ensures
            match r {
                Ok(status) => value@ == status.text(),
                Err(e) => (forall|status: DiscoveryStatus| value@ != #[trigger] status.text()) && (e
                    matches DbError::InvalidDiscoveryStatus(other) && other@ == value@),
            },
    {
        if str_eq(value, "pending") {
            Ok(DiscoveryStatus::Pending)
        } else if str_eq(value, "running") {
            Ok(DiscoveryStatus::Running)
        } else if str_eq(value, "completed") {
            Ok(DiscoveryStatus::Completed)
        } else {
            Err(DbError::InvalidDiscoveryStatus(value.to_owned()))
        }
    }
}

#[derive(Clone, Copy, Debug, PartialEq, Eq, Structural)]
pub enum ActionStatus {
    Pending,
    Running,
    Succeeded,
    Parked,
    Cancelled,
}

impl ActionStatus {
    pub open spec fn text(self) -> Seq<char> {
        match self {
            ActionStatus::Pending => "pending"@,
            ActionStatus::Running => "running"@,
            ActionStatus::Succeeded => "succeeded"@,
            ActionStatus::Parked => "parked"@,
            ActionStatus::Cancelled => "cancelled"@,
        }
    }

    /// Queued, though it may be at rest: neither running nor finished.
    pub open spec fn is_undispatched(self) -> bool {
        self == ActionStatus::Pending || self == ActionStatus::Parked
    }

    /// Finished for good.
    pub open spec fn is_final(self) -> bool {
        self == ActionStatus::Succeeded || self == ActionStatus::Cancelled
    }

    pub fn undispatched(self) -> (r: bool)
        ensures
            r == self.is_undispatched(),
    {
        self == ActionStatus::Pending || self == ActionStatus::Parked
    }

    pub fn finished(self) -> (r: bool)
        ensures
            r == self.is_final(),
    {
        self == ActionStatus::Succeeded || self == ActionStatus::Cancelled
    }

    pub fn as_str(self) -> (r: &'static str)
        ensures
            r@ == self.text(),
    {
        match self {
            ActionStatus::Pending => "pending",
            ActionStatus::Running => "running",
            ActionStatus::Succeeded => "succeeded",
            ActionStatus::Parked => "parked",
            ActionStatus::Cancelled => "cancelled",
        }
    }

    /// The status with this name.
    pub fn parse(value: &str) -> (r: Result<ActionStatus, DbError>)
        ensures
            match r {
                Ok(status) => value@ == status.text(),
                Err(e) => (forall|status: ActionStatus| value@ != #[trigger] status.text()) && (e
                    matches DbError::InvalidActionStatus(other) && other@ == value@),
            },
    {
        if str_eq(value, "pending") {
            Ok(ActionStatus::Pending)
        } else if str_eq(value, "running") {
            Ok(ActionStatus::Running)
        } else if str_eq(value, "succeeded") {
            Ok(ActionStatus::Succeeded)
        } else if str_eq(value, "parked") {
            Ok(ActionStatus::Parked)
        } else if str_eq(value, "cancelled") {
            Ok(ActionStatus::Cancelled)
        } else {
            Err(DbError::InvalidActionStatus(value.to_owned()))
        }
    }
}

/// A registered repository.
#[derive(Debug, PartialEq, Eq)]
pub struct RegisteredRepositoryRecord {
    pub host: String,
    pub repository: RegisteredRepository,
    pub registered_at: i64,
    pub updated_at: i64,
}

#[verifier::ext_equal]
pub struct RegistrationModel {
    pub host: Seq<char>,
    pub repository: RegisteredModel,
    pub registered_at: i64,
    pub updated_at: i64,
}

impl View for RegisteredRepositoryRecord {
    type V = RegistrationModel;

    open spec fn view(&self) -> RegistrationModel {
        RegistrationModel {
            host: self.host@,
            repository: self.repository@,
            registered_at: self.registered_at,
            updated_at: self.updated_at,
        }
    }
}

impl Clone for RegisteredRepositoryRecord {
    fn clone(&self) -> (r: Self)
        ensures
            r@ == self@,
    {
        RegisteredRepositoryRecord {
            host: self.host.clone(),
            repository: self.repository.clone(),
            registered_at: self.registered_at,
            updated_at: self.updated_at,
        }
    }
}

impl Row for RegisteredRepositoryRecord {
    fn duplicate(&self) -> (r: Self) {
        self.clone()
    }
}

/// A named value of the application.
#[derive(Debug, PartialEq, Eq)]
pub struct MetadataEntry {
    pub key: String,
    pub value: String,
    pub updated_at: i64,
}

#[verifier::ext_equal]
pub struct MetadataModel {
    pub key: Seq<char>,
    pub value: Seq<char>,
    pub updated_at: i64,
}

impl View for MetadataEntry {
    type V = MetadataModel;

    open spec fn view(&self) -> MetadataModel {
        MetadataModel {
            key: self.key@,
            value: self.value@,
            updated_at: self.updated_at,
        }
    }
}

impl Clone for MetadataEntry {
    fn clone(&self) -> (r: Self)
        ensures
            r@ == self@,
    {
        MetadataEntry {
            key: self.key.clone(),
            value: self.value.clone(),
            updated_at: self.updated_at,
        }
    }
}

impl Row for MetadataEntry {
    fn duplicate(&self) -> (r: Self) {
        self.clone()
    }
}

/// What the next conditional poll of a viewer starts from.
#[derive(Debug, PartialEq, Eq)]
pub struct PollState {
    pub host: String,
    pub viewer_id: i64,
    pub last_modified: Option<String>,
    pub high_water: Option<String>,
    pub updated_at: i64,
}

#[verifier::ext_equal]
pub struct PollModel {
    pub host: Seq<char>,
    pub viewer_id: i64,
    pub last_modified: Option<Seq<char>>,
    pub high_water: Option<Seq<char>>,
    pub updated_at: i64,
}

impl View for PollState {
    type V = PollModel;

    open spec fn view(&self) -> PollModel {
        PollModel {
            host: self.host@,
            viewer_id: self.viewer_id,
            last_modified: opt_text(self.last_modified),
            high_water: opt_text(self.high_water),
            updated_at: self.updated_at,
        }
    }
}

impl Clone for PollState {
    fn clone(&self) -> (r: Self)
        ensures
            r@ == self@,
    {
        PollState {
            host: self.host.clone(),
            viewer_id: self.viewer_id,
            last_modified: opt_clone(&self.last_modified),
            high_water: opt_clone(&self.high_water),
            updated_at: self.updated_at,
        }
    }
}

impl Row for PollState {
    fn duplicate(&self) -> (r: Self) {
        self.clone()
    }
}

/// Whether a viewer still has to read a repository's old notifications.
#[derive(Debug, PartialEq, Eq)]
pub struct BootstrapRecord {
    pub host: String,
    pub viewer_id: i64,
    pub repository_id: i64,
    pub pending: bool,
    pub updated_at: i64,
}

#[verifier::ext_equal]
pub struct BootstrapModel {
    pub host: Seq<char>,
    pub viewer_id: i64,
    pub repository_id: i64,
    pub pending: bool,
    pub updated_at: i64,
}

impl View for BootstrapRecord {
    type V = BootstrapModel;

    open spec fn view(&self) -> BootstrapModel {
        BootstrapModel {
            host: self.host@,
            viewer_id: self.viewer_id,
            repository_id: self.repository_id,
            pending: self.pending,
            updated_at: self.updated_at,
        }
    }
}

impl Clone for BootstrapRecord {
    fn clone(&self) -> (r: Self)
        ensures
            r@ == self@,
    {
        BootstrapRecord {
            host: self.host.clone(),
            viewer_id: self.viewer_id,
            repository_id: self.repository_id,
            pending: self.pending,
            updated_at: self.updated_at,
        }
    }
}

impl Row for BootstrapRecord {
    fn duplicate(&self) -> (r: Self) {
        self.clone()
    }
}

/// The right of one daemon to act for a viewer.
#[derive(Debug, PartialEq, Eq)]
pub struct DaemonLease {
    pub host: String,
    pub viewer_id: i64,
    pub viewer_login: String,
    pub owner: String,
    pub expires_at: i64,
    pub updated_at: i64,
}

#[verifier::ext_equal]
pub struct LeaseModel {
    pub host: Seq<char>,
    pub viewer_id: i64,
    pub viewer_login: Seq<char>,
    pub owner: Seq<char>,
    pub expires_at: i64,
    pub updated_at: i64,
}

impl View for DaemonLease {
    type V = LeaseModel;

    open spec fn view(&self) -> LeaseModel {
        LeaseModel {
            host: self.host@,
            viewer_id: self.viewer_id,
            viewer_login: self.viewer_login@,
            owner: self.owner@,
            expires_at: self.expires_at,
            updated_at: self.updated_at,
        }
    }
}

impl Clone for DaemonLease {
    fn clone(&self) -> (r: Self)
        ensures
            r@ == self@,
    {
        DaemonLease {
            host: self.host.clone(),
            viewer_id: self.viewer_id,
            viewer_login: self.viewer_login.clone(),
            owner: self.owner.clone(),
            expires_at: self.expires_at,
            updated_at: self.updated_at,
        }
    }
}

impl Row for DaemonLease {
    fn duplicate(&self) -> (r: Self) {
        self.clone()
    }
}

/// A notification as it was last seen.
#[derive(Debug, PartialEq, Eq)]
pub struct StoredNotification {
    pub host: String,
    pub viewer_id: i64,
    pub notification: Notification,
    /// The unmodified API representation, as JSON text.
    pub raw: String,
    pub first_seen_at: i64,
    pub last_seen_at: i64,
}

#[verifier::ext_equal]
pub struct StoredModel {
    pub host: Seq<char>,
    pub viewer_id: i64,
    pub notification: NotificationModel,
    pub raw: Seq<char>,
    pub first_seen_at: i64,
    pub last_seen_at: i64,
}

impl View for StoredNotification {
    type V = StoredModel;

    open spec fn view(&self) -> StoredModel {
        StoredModel {
            host: self.host@,
            viewer_id: self.viewer_id,
            notification: self.notification@,
            raw: self.raw@,
            first_seen_at: self.first_seen_at,
            last_seen_at: self.last_seen_at,
        }
    }
}

impl Clone for StoredNotification {
    fn clone(&self) -> (r: Self)
        ensures
            r@ == self@,
    {
        StoredNotification {
            host: self.host.clone(),
            viewer_id: self.viewer_id,
            notification: self.notification.clone(),
            raw: self.raw.clone(),
            first_seen_at: self.first_seen_at,
            last_seen_at: self.last_seen_at,
        }
    }
}

impl Row for StoredNotification {
    fn duplicate(&self) -> (r: Self) {
        self.clone()
    }
}

/// A notification that waits to become a tracked pull request. The notification
/// itself stands in the table of notifications.
#[derive(Debug, PartialEq, Eq)]
pub struct DiscoveryRecord {
    pub host: String,
    pub viewer_id: i64,
    pub notification_id: String,
    pub repository_id: i64,
    pub notification_updated_at: i64,
    pub status: DiscoveryStatus,
    pub attempts: u32,
    pub due_at: i64,
    pub last_error: Option<String>,
    pub created_at: i64,
    pub updated_at: i64,
    pub completed_at: Option<i64>,
}

#[verifier::ext_equal]
pub struct DiscoveryModel {
    pub host: Seq<char>,
    pub viewer_id: i64,
    pub notification_id: Seq<char>,
    pub repository_id: i64,
    pub notification_updated_at: i64,
    pub status: DiscoveryStatus,
    pub attempts: u32,
    pub due_at: i64,
    pub last_error: Option<Seq<char>>,
    pub created_at: i64,
    pub updated_at: i64,
    pub completed_at: Option<i64>,
}

impl View for DiscoveryRecord {
    type V = DiscoveryModel;

    open spec fn view(&self) -> DiscoveryModel {
        DiscoveryModel {
            host: self.host@,
            viewer_id: self.viewer_id,
            notification_id: self.notification_id@,
            repository_id: self.repository_id,
            notification_updated_at: self.notification_updated_at,
            status: self.status,
            attempts: self.attempts,
            due_at: self.due_at,
            last_error: opt_text(self.last_error),
            created_at: self.created_at,
            updated_at: self.updated_at,
            completed_at: self.completed_at,
        }
    }
}

impl Clone for DiscoveryRecord {
    fn clone(&self) -> (r: Self)
        ensures
            r@ == self@,
    {
        DiscoveryRecord {
            host: self.host.clone(),
            viewer_id: self.viewer_id,
            notification_id: self.notification_id.clone(),
            repository_id: self.repository_id,
            notification_updated_at: self.notification_updated_at,
            status: self.status,
            attempts: self.attempts,
            due_at: self.due_at,
            last_error: opt_clone(&self.last_error),
            created_at: self.created_at,
            updated_at: self.updated_at,
            completed_at: self.completed_at,
        }
    }
}

impl Row for DiscoveryRecord {
    fn duplicate(&self) -> (r: Self) {
        self.clone()
    }
}

/// A queued discovery together with its notification.
#[derive(Debug, PartialEq, Eq)]
pub struct NotificationDiscovery {
    pub host: String,
    pub viewer_id: i64,
    pub notification_id: String,
    pub repository_id: i64,
    pub notification_updated_at: i64,
    pub notification: Notification,
    pub raw: String,
    pub status: DiscoveryStatus,
    pub attempts: u32,
    pub due_at: i64,
    pub last_error: Option<String>,
    pub created_at: i64,
    pub updated_at: i64,
}

#[verifier::ext_equal]
pub struct FoundModel {
    pub host: Seq<char>,
    pub viewer_id: i64,
    pub notification_id: Seq<char>,
    pub repository_id: i64,
    pub notification_updated_at: i64,
    pub notification: NotificationModel,
    pub raw: Seq<char>,
    pub status: DiscoveryStatus,
    pub attempts: u32,
    pub due_at: i64,
    pub last_error: Option<Seq<char>>,
    pub created_at: i64,
    pub updated_at: i64,
}

impl View for NotificationDiscovery {
    type V = FoundModel;

    open spec fn view(&self) -> FoundModel {
        FoundModel {
            host: self.host@,
            viewer_id: self.viewer_id,
            notification_id: self.notification_id@,
            repository_id: self.repository_id,
            notification_updated_at: self.notification_updated_at,
            notification: self.notification@,
            raw: self.raw@,
            status: self.status,
            attempts: self.attempts,
            due_at: self.due_at,
            last_error: opt_text(self.last_error),
            created_at: self.created_at,
            updated_at: self.updated_at,
        }
    }
}

impl Clone for NotificationDiscovery {
    fn clone(&self) -> (r: Self)
        ensures
            r@ == self@,
    {
        NotificationDiscovery {
            host: self.host.clone(),
            viewer_id: self.viewer_id,
            notification_id: self.notification_id.clone(),
            repository_id: self.repository_id,
            notification_updated_at: self.notification_updated_at,
            notification: self.notification.clone(),
            raw: self.raw.clone(),
            status: self.status,
            attempts: self.attempts,
            due_at: self.due_at,
            last_error: opt_clone(&self.last_error),
            created_at: self.created_at,
            updated_at: self.updated_at,
        }
    }
}

impl Row for NotificationDiscovery {
    fn duplicate(&self) -> (r: Self) {
        self.clone()
    }
}

/// A pull request that is watched for a viewer.
#[derive(Debug, PartialEq, Eq)]
pub struct TrackedPullRequest {
    pub host: String,
    pub viewer_id: i64,
    pub repository_id: i64,
    pub repository_full_name: String,
    pub pull_request: PullRequestState,
    pub notification_id: String,
    pub notification_updated_at: i64,
    /// The notification that led here, as JSON text.
    pub notification: String,
    pub active: bool,
    pub next_check_at: i64,
    pub updated_at: i64,
}

#[verifier::ext_equal]
pub struct TrackedModel {
    pub host: Seq<char>,
    pub viewer_id: i64,
    pub repository_id: i64,
    pub repository_full_name: Seq<char>,
    pub pull_request: PullModel,
    pub notification_id: Seq<char>,
    pub notification_updated_at: i64,
    pub notification: Seq<char>,
    pub active: bool,
    pub next_check_at: i64,
    pub updated_at: i64,
}

impl View for TrackedPullRequest {
    type V = TrackedModel;

    open spec fn view(&self) -> TrackedModel {
        TrackedModel {
            host: self.host@,
            viewer_id: self.viewer_id,
            repository_id: self.repository_id,
            repository_full_name: self.repository_full_name@,
            pull_request: self.pull_request@,
            notification_id: self.notification_id@,
            notification_updated_at: self.notification_updated_at,
            notification: self.notification@,
            active: self.active,
            next_check_at: self.next_check_at,
            updated_at: self.updated_at,
        }
    }
}

impl Clone for TrackedPullRequest {
    fn clone(&self) -> (r: Self)
        ensures
            r@ == self@,
    {
        TrackedPullRequest {
            host: self.host.clone(),
            viewer_id: self.viewer_id,
            repository_id: self.repository_id,
            repository_full_name: self.repository_full_name.clone(),
            pull_request: self.pull_request.clone(),
            notification_id: self.notification_id.clone(),
            notification_updated_at: self.notification_updated_at,
            notification: self.notification.clone(),
            active: self.active,
            next_check_at: self.next_check_at,
            updated_at: self.updated_at,
        }
    }
}

impl Row for TrackedPullRequest {
    fn duplicate(&self) -> (r: Self) {
        self.clone()
    }
}

/// Identity and payload of a review that is now wanted.
#[derive(Debug, PartialEq, Eq)]
pub struct NewReviewAction {
    pub host: String,
    pub viewer_id: i64,
    pub repository_id: i64,
    pub repository_full_name: String,
    pub pull_request_id: i64,
    pub pull_request_number: u64,
    pub head_sha: String,
    /// What GitHub calls the request or review that led here. With the head it
    /// keeps a review that succeeded from being run twice.
    pub trigger_key: String,
    pub reason: String,
    pub envelope: ReviewEnvelope,
    pub due_at: i64,
}

#[verifier::ext_equal]
pub struct NewActionModel {
    pub host: Seq<char>,
    pub viewer_id: i64,
    pub repository_id: i64,
    pub repository_full_name: Seq<char>,
    pub pull_request_id: i64,
    pub pull_request_number: u64,
    pub head_sha: Seq<char>,
    pub trigger_key: Seq<char>,
    pub reason: Seq<char>,
    pub envelope: EnvelopeModel,
    pub due_at: i64,
}

impl View for NewReviewAction {
    type V = NewActionModel;

    open spec fn view(&self) -> NewActionModel {
        NewActionModel {
            host: self.host@,
            viewer_id: self.viewer_id,
            repository_id: self.repository_id,
            repository_full_name: self.repository_full_name@,
            pull_request_id: self.pull_request_id,
            pull_request_number: self.pull_request_number,
            head_sha: self.head_sha@,
            trigger_key: self.trigger_key@,
            reason: self.reason@,
            envelope: self.envelope@,
            due_at: self.due_at,
        }
    }
}

impl Clone for NewReviewAction {
    fn clone(&self) -> (r: Self)
        ensures
            r@ == self@,
    {
        NewReviewAction {
            host: self.host.clone(),
            viewer_id: self.viewer_id,
            repository_id: self.repository_id,
            repository_full_name: self.repository_full_name.clone(),
            pull_request_id: self.pull_request_id,
            pull_request_number: self.pull_request_number,
            head_sha: self.head_sha.clone(),
            trigger_key: self.trigger_key.clone(),
            reason: self.reason.clone(),
            envelope: self.envelope.clone(),
            due_at: self.due_at,
        }
    }
}

/// A review to run, running or done.
#[derive(Debug, PartialEq, Eq)]
pub struct ReviewAction {
    pub id: i64,
    pub host: String,
    pub viewer_id: i64,
    pub repository_id: i64,
    pub repository_full_name: String,
    pub pull_request_id: i64,
    pub pull_request_number: u64,
    pub head_sha: String,
    pub base_sha: String,
    pub trigger_key: String,
    pub reason: String,
    pub envelope: ReviewEnvelope,
    pub status: ActionStatus,
    pub attempts: u32,
    pub due_at: i64,
    pub last_error: Option<String>,
    pub created_at: i64,
    pub updated_at: i64,
    pub completed_at: Option<i64>,
}

#[verifier::ext_equal]
pub struct ActionModel {
    pub id: i64,
    pub host: Seq<char>,
    pub viewer_id: i64,
    pub repository_id: i64,
    pub repository_full_name: Seq<char>,
    pub pull_request_id: i64,
    pub pull_request_number: u64,
    pub head_sha: Seq<char>,
    pub base_sha: Seq<char>,
    pub trigger_key: Seq<char>,
    pub reason: Seq<char>,
    pub envelope: EnvelopeModel,
    pub status: ActionStatus,
    pub attempts: u32,
    pub due_at: i64,
    pub last_error: Option<Seq<char>>,
    pub created_at: i64,
    pub updated_at: i64,
    pub completed_at: Option<i64>,
}

impl View for ReviewAction {
    type V = ActionModel;

    open spec fn view(&self) -> ActionModel {
        ActionModel {
            id: self.id,
            host: self.host@,
            viewer_id: self.viewer_id,
            repository_id: self.repository_id,
            repository_full_name: self.repository_full_name@,
            pull_request_id: self.pull_request_id,
            pull_request_number: self.pull_request_number,
            head_sha: self.head_sha@,
            base_sha: self.base_sha@,
            trigger_key: self.trigger_key@,
            reason: self.reason@,
            envelope: self.envelope@,
            status: self.status,
            attempts: self.attempts,
            due_at: self.due_at,
            last_error: opt_text(self.last_error),
            created_at: self.created_at,
            updated_at: self.updated_at,
            completed_at: self.completed_at,
        }
    }
}

impl Clone for ReviewAction {
    fn clone(&self) -> (r: Self)
        ensures
            r@ == self@,
    {
        ReviewAction {
            id: self.id,
            host: self.host.clone(),
            viewer_id: self.viewer_id,
            repository_id: self.repository_id,
            repository_full_name: self.repository_full_name.clone(),
            pull_request_id: self.pull_request_id,
            pull_request_number: self.pull_request_number,
            head_sha: self.head_sha.clone(),
            base_sha: self.base_sha.clone(),
            trigger_key: self.trigger_key.clone(),
            reason: self.reason.clone(),
            envelope: self.envelope.clone(),
            status: self.status,
            attempts: self.attempts,
            due_at: self.due_at,
            last_error: opt_clone(&self.last_error),
            created_at: self.created_at,
            updated_at: self.updated_at,
            completed_at: self.completed_at,
        }
    }
}

impl Row for ReviewAction {
    fn duplicate(&self) -> (r: Self) {
        self.clone()
    }
}

#[derive(Clone, Copy, Debug, PartialEq, Eq, Structural)]
pub struct EnqueueResult {
    pub action_id: i64,
    pub inserted: bool,
    pub superseded: usize,
}

#[derive(Clone, Copy, Debug, Default, PartialEq, Eq, Structural)]
pub struct ActionCounts {
    pub pending: u64,
    pub running: u64,
    pub succeeded: u64,
    pub parked: u64,
    pub cancelled: u64,
}

#[derive(Clone, Copy, Debug, Default, PartialEq, Eq, Structural)]
pub struct PruneResult {
    pub notifications: usize,
    pub tracked_pull_requests: usize,
    pub actions: usize,
}

/// The statuses have words of their own, by which they are found again in the store.
pub proof fn statuses_are_told_apart(
    a: ActionStatus,
    b: ActionStatus,
    c: DiscoveryStatus,
    d: DiscoveryStatus,
)
    ensures
        a.text() == b.text() ==> a == b,
        c.text() == d.text() ==> c == d,
        a.text() == "pending"@ <==> a == ActionStatus::Pending,
        a.text() == "running"@ <==> a == ActionStatus::Running,
        a.text() == "succeeded"@ <==> a == ActionStatus::Succeeded,
        a.text() == "parked"@ <==> a == ActionStatus::Parked,
        a.text() == "cancelled"@ <==> a == ActionStatus::Cancelled,
        c.text() == "pending"@ <==> c == DiscoveryStatus::Pending,
        c.text() == "running"@ <==> c == DiscoveryStatus::Running,
        c.text() == "completed"@ <==> c == DiscoveryStatus::Completed,
{
    reveal_strlit("pending");
    reveal_strlit("running");
    reveal_strlit("succeeded");
    reveal_strlit("parked");
    reveal_strlit("cancelled");
    reveal_strlit("completed");
    assert("pending"@[0] == 'p' && "running"@[0] == 'r' && "succeeded"@[0] == 's');
    assert("pending"@.len() == 7 && "parked"@.len() == 6);
    assert("cancelled"@[0] == 'c' && "completed"@[0] == 'c');
}

} // verus!
