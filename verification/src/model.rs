//! Pull requests, notifications and what they ask of the viewer.

use vstd::prelude::*;
use crate::text::{opt_clone, opt_text, str_eq};
use crate::time::Timestamp;

verus! {

/// The model of an optional value.
pub open spec fn opt_model<T: View>(o: Option<T>) -> Option<T::V> {
    match o {
        Some(x) => Some(x@),
        None => None,
    }
}

/// A GitHub account.
#[derive(Debug, PartialEq, Eq)]
pub struct Viewer {
    pub id: i64,
    pub login: String,
}

#[verifier::ext_equal]
pub struct ViewerModel {
    pub id: i64,
    pub login: Seq<char>,
}

impl View for Viewer {
    type V = ViewerModel;

    open spec fn view(&self) -> ViewerModel {
        ViewerModel { id: self.id, login: self.login@ }
    }
}

impl Clone for Viewer {
    fn clone(&self) -> (r: Self)
        ensures
            r@ == self@,
    {
        Viewer { id: self.id, login: self.login.clone() }
    }
}

/// A repository as GitHub names it. The id never changes.
#[derive(Debug, PartialEq, Eq)]
pub struct RepositoryIdentity {
    pub id: i64,
    pub full_name: String,
    pub html_url: String,
}

#[verifier::ext_equal]
pub struct RepositoryModel {
    pub id: i64,
    pub full_name: Seq<char>,
    pub html_url: Seq<char>,
}

impl View for RepositoryIdentity {
    type V = RepositoryModel;

    open spec fn view(&self) -> RepositoryModel {
        RepositoryModel { id: self.id, full_name: self.full_name@, html_url: self.html_url@ }
    }
}

impl Clone for RepositoryIdentity {
    fn clone(&self) -> (r: Self)
        ensures
            r@ == self@,
    {
        RepositoryIdentity {
            id: self.id,
            full_name: self.full_name.clone(),
            html_url: self.html_url.clone(),
        }
    }
}

/// A repository and its local clone.
#[derive(Debug, PartialEq, Eq)]
pub struct RegisteredRepository {
    pub repository: RepositoryIdentity,
    pub origin_url: String,
    pub local_path: String,
    pub bootstrap_pending: bool,
}

#[verifier::ext_equal]
pub struct RegisteredModel {
    pub repository: RepositoryModel,
    pub origin_url: Seq<char>,
    pub local_path: Seq<char>,
    pub bootstrap_pending: bool,
}

impl View for RegisteredRepository {
    type V = RegisteredModel;

    open spec fn view(&self) -> RegisteredModel {
        RegisteredModel {
            repository: self.repository@,
            origin_url: self.origin_url@,
            local_path: self.local_path@,
            bootstrap_pending: self.bootstrap_pending,
        }
    }
}

impl Clone for RegisteredRepository {
    fn clone(&self) -> (r: Self)
        ensures
            r@ == self@,
    {
        RegisteredRepository {
            repository: self.repository.clone(),
            origin_url: self.origin_url.clone(),
            local_path: self.local_path.clone(),
            bootstrap_pending: self.bootstrap_pending,
        }
    }
}

/// A notification thread. `extra` holds the fields that no rule reads, as the
/// text of a JSON object.
#[derive(Debug, PartialEq, Eq)]
pub struct Notification {
    pub id: String,
    pub reason: String,
    pub unread: bool,
    pub updated_at: Timestamp,
    pub repository: NotificationRepository,
    pub subject: NotificationSubject,
    pub extra: String,
}

#[derive(Debug, PartialEq, Eq)]
pub struct NotificationRepository {
    pub id: i64,
    pub full_name: String,
    pub extra: String,
}

#[derive(Debug, PartialEq, Eq)]
pub struct NotificationSubject {
    pub title: String,
    pub kind: String,
    pub url: Option<String>,
    pub extra: String,
}

#[verifier::ext_equal]
pub struct NotificationModel {
    pub id: Seq<char>,
    pub reason: Seq<char>,
    pub unread: bool,
    pub updated_at: Timestamp,
    pub repository_id: i64,
    pub repository_full_name: Seq<char>,
    pub repository_extra: Seq<char>,
    pub subject_title: Seq<char>,
    pub subject_kind: Seq<char>,
    pub subject_url: Option<Seq<char>>,
    pub subject_extra: Seq<char>,
    pub extra: Seq<char>,
}

impl View for Notification {
    type V = NotificationModel;

    open spec fn view(&self) -> NotificationModel {
        NotificationModel {
            id: self.id@,
            reason: self.reason@,
            unread: self.unread,
            updated_at: self.updated_at,
            repository_id: self.repository.id,
            repository_full_name: self.repository.full_name@,
            repository_extra: self.repository.extra@,
            subject_title: self.subject.title@,
            subject_kind: self.subject.kind@,
            subject_url: opt_text(self.subject.url),
            subject_extra: self.subject.extra@,
            extra: self.extra@,
        }
    }
}

impl Clone for Notification {
    fn clone(&self) -> (r: Self)
        ensures
            r@ == self@,
            r.updated_at == self.updated_at,
    {
        Notification {
            id: self.id.clone(),
            reason: self.reason.clone(),
            unread: self.unread,
            updated_at: self.updated_at,
            repository: NotificationRepository {
                id: self.repository.id,
                full_name: self.repository.full_name.clone(),
                extra: self.repository.extra.clone(),
            },
            subject: NotificationSubject {
                title: self.subject.title.clone(),
                kind: self.subject.kind.clone(),
                url: opt_clone(&self.subject.url),
                extra: self.subject.extra.clone(),
            },
            extra: self.extra.clone(),
        }
    }
}

/// The two opinions that a review can hold.
#[derive(Clone, Copy, Debug, PartialEq, Eq, Structural)]
pub enum ReviewState {
    Approved,
    ChangesRequested,
}

/// A review that holds an opinion.
#[derive(Debug, PartialEq, Eq)]
pub struct OpinionatedReview {
    pub id: i64,
    pub state: ReviewState,
    pub commit_sha: Option<String>,
    pub submitted_at: Option<Timestamp>,
}

#[verifier::ext_equal]
pub struct ReviewModel {
    pub id: i64,
    pub state: ReviewState,
    pub commit_sha: Option<Seq<char>>,
    pub submitted_at: Option<Timestamp>,
}

impl View for OpinionatedReview {
    type V = ReviewModel;

    open spec fn view(&self) -> ReviewModel {
        ReviewModel {
            id: self.id,
            state: self.state,
            commit_sha: opt_text(self.commit_sha),
            submitted_at: self.submitted_at,
        }
    }
}

impl Clone for OpinionatedReview {
    fn clone(&self) -> (r: Self)
        ensures
            r@ == self@,
    {
        OpinionatedReview {
            id: self.id,
            state: self.state,
            commit_sha: opt_clone(&self.commit_sha),
            submitted_at: self.submitted_at,
        }
    }
}

pub fn opt_review_clone(o: &Option<OpinionatedReview>) -> (r: Option<OpinionatedReview>)
    ensures
        opt_model(r) == opt_model(*o),
{
    match o {
        Some(x) => Some(x.clone()),
        None => None,
    }
}

#[derive(Clone, Copy, Debug, PartialEq, Eq, Structural)]
pub enum ReviewRequestKind {
    User,
    Team,
}

/// The latest event of the pull request's timeline that asked this viewer, or
/// one of their teams, for a review.
#[derive(Debug, PartialEq, Eq)]
pub struct ReviewRequestEvent {
    /// The node id of the event, or its number where it has no node id.
    pub event_id: String,
    pub created_at: Timestamp,
    pub kind: ReviewRequestKind,
    pub requested_id: i64,
}

#[verifier::ext_equal]
pub struct RequestModel {
    pub event_id: Seq<char>,
    pub created_at: Timestamp,
    pub kind: ReviewRequestKind,
    pub requested_id: i64,
}

impl View for ReviewRequestEvent {
    type V = RequestModel;

    open spec fn view(&self) -> RequestModel {
        RequestModel {
            event_id: self.event_id@,
            created_at: self.created_at,
            kind: self.kind,
            requested_id: self.requested_id,
        }
    }
}

impl Clone for ReviewRequestEvent {
    fn clone(&self) -> (r: Self)
        ensures
            r@ == self@,
    {
        ReviewRequestEvent {
            event_id: self.event_id.clone(),
            created_at: self.created_at,
            kind: self.kind,
            requested_id: self.requested_id,
        }
    }
}

pub fn opt_request_clone(o: &Option<ReviewRequestEvent>) -> (r: Option<ReviewRequestEvent>)
    ensures
        opt_model(r) == opt_model(*o),
{
    match o {
        Some(x) => Some(x.clone()),
        None => None,
    }
}

/// What is known of a pull request.
#[derive(Debug, PartialEq, Eq)]
pub struct PullRequestState {
    pub id: i64,
    pub number: u64,
    pub url: String,
    pub title: String,
    pub author: Viewer,
    pub state: String,
    pub draft: bool,
    pub merged: bool,
    pub head_sha: String,
    pub head_ref: String,
    pub base_sha: String,
    pub base_ref: String,
    pub directly_requested: bool,
    pub requested_team_ids: Vec<i64>,
    pub latest_review: Option<OpinionatedReview>,
    pub latest_request: Option<ReviewRequestEvent>,
    /// The viewer submitted a review without an opinion after the latest
    /// request, which is why GitHub no longer lists them as requested.
    pub non_opinionated_review_after_request: bool,
}

#[verifier::ext_equal]
pub struct PullModel {
    pub id: i64,
    pub number: u64,
    pub url: Seq<char>,
    pub title: Seq<char>,
    pub author: ViewerModel,
    pub state: Seq<char>,
    pub draft: bool,
    pub merged: bool,
    pub head_sha: Seq<char>,
    pub head_ref: Seq<char>,
    pub base_sha: Seq<char>,
    pub base_ref: Seq<char>,
    pub directly_requested: bool,
    pub requested_team_ids: Seq<i64>,
    pub latest_review: Option<ReviewModel>,
    pub latest_request: Option<RequestModel>,
    pub non_opinionated_review_after_request: bool,
}

impl View for PullRequestState {
    type V = PullModel;

    open spec fn view(&self) -> PullModel {
        PullModel {
            id: self.id,
            number: self.number,
            url: self.url@,
            title: self.title@,
            author: self.author@,
            state: self.state@,
            draft: self.draft,
            merged: self.merged,
            head_sha: self.head_sha@,
            head_ref: self.head_ref@,
            base_sha: self.base_sha@,
            base_ref: self.base_ref@,
            directly_requested: self.directly_requested,
            requested_team_ids: self.requested_team_ids@,
            latest_review: opt_model(self.latest_review),
            latest_request: opt_model(self.latest_request),
            non_opinionated_review_after_request: self.non_opinionated_review_after_request,
        }
    }
}

/// A list with the same numbers.
pub fn ids_clone(ids: &Vec<i64>) -> (r: Vec<i64>)
    ensures
        r@ == ids@,
{
    let mut r: Vec<i64> = Vec::new();
    let mut i: usize = 0;
    while i < ids.len()
        invariant
            i <= ids@.len(),
            r@ == ids@.take(i as int),
        decreases ids@.len() - i,
    {
        r.push(ids[i]);
        i += 1;
        assert(r@ =~= ids@.take(i as int));
    }
    assert(ids@.take(i as int) =~= ids@);
    r
}

impl Clone for PullRequestState {
    fn clone(&self) -> (r: Self)
        ensures
            r@ == self@,
    {
        PullRequestState {
            id: self.id,
            number: self.number,
            url: self.url.clone(),
            title: self.title.clone(),
            author: self.author.clone(),
            state: self.state.clone(),
            draft: self.draft,
            merged: self.merged,
            head_sha: self.head_sha.clone(),
            head_ref: self.head_ref.clone(),
            base_sha: self.base_sha.clone(),
            base_ref: self.base_ref.clone(),
            directly_requested: self.directly_requested,
            requested_team_ids: ids_clone(&self.requested_team_ids),
            latest_review: opt_review_clone(&self.latest_review),
            latest_request: opt_request_clone(&self.latest_request),
            non_opinionated_review_after_request: self.non_opinionated_review_after_request,
        }
    }
}

/// Why a review is wanted.
#[derive(Clone, Copy, Debug, PartialEq, Eq, Structural)]
pub enum ActionReason {
    ReviewRequested,
    HeadChangedAfterChangesRequested,
    RerequestedAfterApproval,
}

impl ActionReason {
    pub open spec fn text(self) -> Seq<char> {
        match self {
            ActionReason::ReviewRequested => "review_requested"@,
            ActionReason::HeadChangedAfterChangesRequested => {
                "head_changed_after_changes_requested"@
            },
            ActionReason::RerequestedAfterApproval => "rerequested_after_approval"@,
        }
    }

    pub fn as_str(self) -> (r: &'static str)
        ensures
            r@ == self.text(),
    {
        match self {
            ActionReason::ReviewRequested => "review_requested",
            ActionReason::HeadChangedAfterChangesRequested => "head_changed_after_changes_requested",
            ActionReason::RerequestedAfterApproval => "rerequested_after_approval",
        }
    }
}

/// What the review command reads on its standard input.
#[derive(Debug, PartialEq, Eq)]
pub struct ReviewEnvelope {
    pub schema_version: u8,
    pub reason: ActionReason,
    pub viewer: Viewer,
    pub repository: EnvelopeRepository,
    pub request: EnvelopeRequest,
    pub pull_request: EnvelopePullRequest,
    pub review: Option<OpinionatedReview>,
    /// The notification as GitHub sent it, as JSON text.
    pub notification: String,
}

#[derive(Debug, PartialEq, Eq)]
pub struct EnvelopeRepository {
    pub id: i64,
    pub full_name: String,
    pub local_path: String,
}

#[derive(Debug, PartialEq, Eq)]
pub struct EnvelopeRequest {
    pub kind: String,
    pub event_id: String,
}

#[derive(Debug, PartialEq, Eq)]
pub struct EnvelopePullRequest {
    pub id: i64,
    pub number: u64,
    pub url: String,
    pub title: String,
    pub author: Viewer,
    pub head_sha: String,
    pub base_sha: String,
    pub base_ref: String,
    pub head_ref: String,
}

#[verifier::ext_equal]
pub struct EnvelopePullModel {
    pub id: i64,
    pub number: u64,
    pub url: Seq<char>,
    pub title: Seq<char>,
    pub author: ViewerModel,
    pub head_sha: Seq<char>,
    pub base_sha: Seq<char>,
    pub base_ref: Seq<char>,
    pub head_ref: Seq<char>,
}

#[verifier::ext_equal]
pub struct EnvelopeModel {
    pub schema_version: u8,
    pub reason: ActionReason,
    pub viewer: ViewerModel,
    pub repository_id: i64,
    pub repository_full_name: Seq<char>,
    pub local_path: Seq<char>,
    pub request_kind: Seq<char>,
    pub request_event_id: Seq<char>,
    pub pull_request: EnvelopePullModel,
    pub review: Option<ReviewModel>,
    pub notification: Seq<char>,
}

impl View for EnvelopePullRequest {
    type V = EnvelopePullModel;

    open spec fn view(&self) -> EnvelopePullModel {
        EnvelopePullModel {
            id: self.id,
            number: self.number,
            url: self.url@,
            title: self.title@,
            author: self.author@,
            head_sha: self.head_sha@,
            base_sha: self.base_sha@,
            base_ref: self.base_ref@,
            head_ref: self.head_ref@,
        }
    }
}

impl View for ReviewEnvelope {
    type V = EnvelopeModel;

    open spec fn view(&self) -> EnvelopeModel {
        EnvelopeModel {
            schema_version: self.schema_version,
            reason: self.reason,
            viewer: self.viewer@,
            repository_id: self.repository.id,
            repository_full_name: self.repository.full_name@,
            local_path: self.repository.local_path@,
            request_kind: self.request.kind@,
            request_event_id: self.request.event_id@,
            pull_request: self.pull_request@,
            review: opt_model(self.review),
            notification: self.notification@,
        }
    }
}

impl Clone for EnvelopePullRequest {
    fn clone(&self) -> (r: Self)
        ensures
            r@ == self@,
    {
        EnvelopePullRequest {
            id: self.id,
            number: self.number,
            url: self.url.clone(),
            title: self.title.clone(),
            author: self.author.clone(),
            head_sha: self.head_sha.clone(),
            base_sha: self.base_sha.clone(),
            base_ref: self.base_ref.clone(),
            head_ref: self.head_ref.clone(),
        }
    }
}

impl Clone for ReviewEnvelope {
    fn clone(&self) -> (r: Self)
        ensures
            r@ == self@,
    {
        ReviewEnvelope {
            schema_version: self.schema_version,
            reason: self.reason,
            viewer: self.viewer.clone(),
            repository: EnvelopeRepository {
                id: self.repository.id,
                full_name: self.repository.full_name.clone(),
                local_path: self.repository.local_path.clone(),
            },
            request: EnvelopeRequest {
                kind: self.request.kind.clone(),
                event_id: self.request.event_id.clone(),
            },
            pull_request: self.pull_request.clone(),
            review: opt_review_clone(&self.review),
            notification: self.notification.clone(),
        }
    }
}

/// What a pull request asks of the viewer. Dormant: nothing now, but it may
/// again. Inactive: nothing while it stays as it is.
#[derive(Clone, Copy, Debug, PartialEq, Eq)]
pub enum Actionability {
    Actionable(ActionReason),
    Dormant(&'static str),
    Inactive(&'static str),
}

pub enum ActionabilityModel {
    Actionable(ActionReason),
    Dormant(Seq<char>),
    Inactive(Seq<char>),
}

impl View for Actionability {
    type V = ActionabilityModel;

    open spec fn view(&self) -> ActionabilityModel {
        match self {
            Actionability::Actionable(reason) => ActionabilityModel::Actionable(*reason),
            Actionability::Dormant(why) => ActionabilityModel::Dormant(why@),
            Actionability::Inactive(why) => ActionabilityModel::Inactive(why@),
        }
    }
}

impl PullModel {
    /// Open, neither merged nor a draft.
    pub open spec fn ready(self) -> bool {
        self.state == "open"@ && !self.merged && !self.draft
    }

    /// A team of the viewer is among those that are asked for a review.
    pub open spec fn team_requested(self, viewer_team_ids: Seq<i64>) -> bool {
        exists|i: int|
            0 <= i < self.requested_team_ids.len() && viewer_team_ids.contains(
                #[trigger] self.requested_team_ids[i],
            )
    }

    /// GitHub lists the viewer, or a team of theirs, as asked for a review.
    pub open spec fn requested(self, viewer_team_ids: Seq<i64>) -> bool {
        self.directly_requested || self.team_requested(viewer_team_ids)
    }

    /// The latest request came after the review, as far as the time of the
    /// review is known.
    pub open spec fn requested_after(self, review: ReviewModel) -> bool {
        match self.latest_request {
            Some(request) => match review.submitted_at {
                Some(submitted) => !request.created_at.no_later_than(submitted),
                None => true,
            },
            None => false,
        }
    }
}

/// What the pull request asks of the viewer with the id `viewer_id`, who
/// belongs to the teams `viewer_team_ids`.
pub open spec fn classify(
    viewer_id: i64,
    viewer_team_ids: Seq<i64>,
    pull: PullModel,
) -> ActionabilityModel {
    if !pull.ready() {
        ActionabilityModel::Inactive("pull request is not open and ready for review"@)
    } else if pull.author.id == viewer_id {
        ActionabilityModel::Inactive("current user authored the pull request"@)
    } else {
        match pull.latest_review {
            None => if pull.requested(viewer_team_ids)
                || pull.non_opinionated_review_after_request {
                ActionabilityModel::Actionable(ActionReason::ReviewRequested)
            } else {
                ActionabilityModel::Dormant("review request was withdrawn"@)
            },
            Some(review) => if review.state == ReviewState::ChangesRequested {
                if review.commit_sha != Some(pull.head_sha) {
                    ActionabilityModel::Actionable(ActionReason::HeadChangedAfterChangesRequested)
                } else {
                    ActionabilityModel::Dormant("head has not changed since changes were requested"@)
                }
            } else if !pull.requested(viewer_team_ids) {
                ActionabilityModel::Dormant("pull request is approved"@)
            } else if pull.requested_after(review) {
                ActionabilityModel::Actionable(ActionReason::RerequestedAfterApproval)
            } else {
                ActionabilityModel::Dormant("approval is newer than the request"@)
            },
        }
    }
}

pub fn contains_id(ids: &[i64], id: i64) -> (r: bool)
    ensures
        r == ids@.contains(id),
{
    let mut i: usize = 0;
    while i < ids.len()
        invariant
            i <= ids@.len(),
            forall|j: int| 0 <= j < i ==> ids@[j] != id,
        decreases ids@.len() - i,
    {
        if ids[i] == id {
            return true;
        }
        i += 1;
    }
    false
}

fn is_requested(viewer_team_ids: &[i64], pull: &PullRequestState) -> (r: bool)
    ensures
        r == pull@.requested(viewer_team_ids@),
{
    if pull.directly_requested {
        return true;
    }
    let mut i: usize = 0;
    while i < pull.requested_team_ids.len()
        invariant
            i <= pull.requested_team_ids@.len(),
            forall|j: int|
                0 <= j < i ==> !viewer_team_ids@.contains(#[trigger] pull.requested_team_ids@[j]),
        decreases pull.requested_team_ids@.len() - i,
    {
        if contains_id(viewer_team_ids, pull.requested_team_ids[i]) {
            assert(viewer_team_ids@.contains(pull@.requested_team_ids[i as int]));
            return true;
        }
        i += 1;
    }
    false
}

pub fn classify_actionability(
    viewer: &Viewer,
    viewer_team_ids: &[i64],
    pull: &PullRequestState,
) -> (r: Actionability)
    ensures
        r@ == classify(viewer.id, viewer_team_ids@, pull@),
{
    if !str_eq(pull.state.as_str(), "open") || pull.merged || pull.draft {
        return Actionability::Inactive("pull request is not open and ready for review");
    }
    if pull.author.id == viewer.id {
        return Actionability::Inactive("current user authored the pull request");
    }
    let requested = is_requested(viewer_team_ids, pull);
    match &pull.latest_review {
        None => if requested || pull.non_opinionated_review_after_request {
            Actionability::Actionable(ActionReason::ReviewRequested)
        } else {
            Actionability::Dormant("review request was withdrawn")
        },
        Some(review) => if review.state == ReviewState::ChangesRequested {
            let reviewed_head = match &review.commit_sha {
                Some(sha) => str_eq(sha.as_str(), pull.head_sha.as_str()),
                None => false,
            };
            if !reviewed_head {
                Actionability::Actionable(ActionReason::HeadChangedAfterChangesRequested)
            } else {
                Actionability::Dormant("head has not changed since changes were requested")
            }
        } else if !requested {
            Actionability::Dormant("pull request is approved")
        } else {
            let asked_again = match &pull.latest_request {
                Some(request) => match review.submitted_at {
                    Some(submitted) => !request.created_at.at_most(&submitted),
                    None => true,
                },
                None => false,
            };
            if asked_again {
                Actionability::Actionable(ActionReason::RerequestedAfterApproval)
            } else {
                Actionability::Dormant("approval is newer than the request")
            }
        },
    }
}

// ---------------------------------------------------------------------------
// Laws
// ---------------------------------------------------------------------------

/// A pull request of the viewer's own never asks anything of them.
pub proof fn own_pull_request_is_inactive(viewer_id: i64, teams: Seq<i64>, pull: PullModel)
    requires
        pull.author.id == viewer_id,
    ensures
        classify(viewer_id, teams, pull) is Inactive,
{
}

/// A pull request that is closed, merged or a draft never asks anything, and
/// those are, with the viewer's own, the inactive ones.
pub proof fn inactive_exactly_when_not_reviewable(viewer_id: i64, teams: Seq<i64>, pull: PullModel)
    ensures
        classify(viewer_id, teams, pull) is Inactive <==> !pull.ready() || pull.author.id
            == viewer_id,
        classify(viewer_id, teams, pull) is Inactive <==> pull.state != "open"@ || pull.merged
            || pull.draft || pull.author.id == viewer_id,
        classify(viewer_id, teams, pull) matches ActionabilityModel::Inactive(why) ==> if pull.state
            == "open"@ && !pull.merged && !pull.draft {
            why == "current user authored the pull request"@
        } else {
            why == "pull request is not open and ready for review"@
        },
{
}

/// A pull request that the viewer was asked to review, and that they have no
/// effective opinion on, asks for a review; comments do not answer the request.
pub proof fn request_without_opinion_asks_for_review(
    viewer_id: i64,
    teams: Seq<i64>,
    pull: PullModel,
)
    requires
        pull.ready(),
        pull.author.id != viewer_id,
        pull.latest_review is None,
    ensures
        classify(viewer_id, teams, pull) == ActionabilityModel::Actionable(
            ActionReason::ReviewRequested,
        ) <==> pull.requested(teams) || pull.non_opinionated_review_after_request,
{
}

/// Without an opinion, the request decides alone: it stands where the viewer is
/// listed, where a team that is listed is one of theirs, or where they only
/// commented on it. Otherwise it was withdrawn.
pub proof fn listed_viewers_are_asked(viewer_id: i64, teams: Seq<i64>, pull: PullModel)
    requires
        pull.state == "open"@,
        !pull.merged,
        !pull.draft,
        pull.author.id != viewer_id,
        pull.latest_review is None,
    ensures
        classify(viewer_id, teams, pull) == ActionabilityModel::Actionable(
            ActionReason::ReviewRequested,
        ) || classify(viewer_id, teams, pull) == ActionabilityModel::Dormant(
            "review request was withdrawn"@,
        ),
        pull.directly_requested ==> classify(viewer_id, teams, pull) is Actionable,
        pull.non_opinionated_review_after_request ==> classify(
            viewer_id,
            teams,
            pull,
        ) is Actionable,
        forall|i: int, j: int|
            0 <= i < pull.requested_team_ids.len() && 0 <= j < teams.len()
                && #[trigger] pull.requested_team_ids[i] == #[trigger] teams[j] ==> classify(
                viewer_id,
                teams,
                pull,
            ) is Actionable,
        !pull.directly_requested && !pull.non_opinionated_review_after_request && (forall|
            i: int,
            j: int,
        |
            0 <= i < pull.requested_team_ids.len() && 0 <= j < teams.len()
                ==> #[trigger] pull.requested_team_ids[i] != #[trigger] teams[j]) ==> classify(
            viewer_id,
            teams,
            pull,
        ) is Dormant,
{
    assert forall|i: int, j: int|
        0 <= i < pull.requested_team_ids.len() && 0 <= j < teams.len()
            && #[trigger] pull.requested_team_ids[i] == #[trigger] teams[j] implies classify(
        viewer_id,
        teams,
        pull,
    ) is Actionable by {
        assert(teams.contains(pull.requested_team_ids[i]));
    }
}

/// After an approval, a pull request is actionable only by a request that is
/// still listed and that came after the approval.
pub proof fn approval_needs_newer_request(viewer_id: i64, teams: Seq<i64>, pull: PullModel)
    requires
        pull.latest_review matches Some(review) && review.state == ReviewState::Approved,
    ensures
        classify(viewer_id, teams, pull) is Actionable ==> pull.requested(teams)
            && pull.requested_after(pull.latest_review->0) && classify(viewer_id, teams, pull)
            == ActionabilityModel::Actionable(ActionReason::RerequestedAfterApproval),
{
}

/// A request that was made after an approval and is still listed asks for a
/// review, and no other does. Neither the commit that was approved nor anything
/// else of the pull request matters. An approval without a time is taken to
/// precede the request.
pub proof fn later_request_reopens_an_approval(
    viewer_id: i64,
    teams: Seq<i64>,
    pull: PullModel,
    approval: ReviewModel,
)
    requires
        pull.state == "open"@,
        !pull.merged,
        !pull.draft,
        pull.author.id != viewer_id,
        pull.latest_review == Some(approval),
        approval.state == ReviewState::Approved,
    ensures
        classify(viewer_id, teams, pull) == ActionabilityModel::Actionable(
            ActionReason::RerequestedAfterApproval,
        ) <==> {
            &&& pull.directly_requested || exists|i: int, j: int|
                0 <= i < pull.requested_team_ids.len() && 0 <= j < teams.len()
                    && #[trigger] pull.requested_team_ids[i] == #[trigger] teams[j]
            &&& pull.latest_request matches Some(request) && (
            approval.submitted_at matches Some(approved) ==> approved.seconds
                < request.created_at.seconds || (approved.seconds == request.created_at.seconds
                && approved.nanos < request.created_at.nanos))
        },
        classify(viewer_id, teams, pull) is Actionable || classify(
            viewer_id,
            teams,
            pull,
        ) is Dormant,
        classify(viewer_id, teams, pull) matches ActionabilityModel::Actionable(reason) ==> reason
            == ActionReason::RerequestedAfterApproval,
        classify(viewer_id, teams, pull) matches ActionabilityModel::Dormant(why) ==> if exists|
            i: int,
            j: int,
        |
            0 <= i < pull.requested_team_ids.len() && 0 <= j < teams.len()
                && #[trigger] pull.requested_team_ids[i] == #[trigger] teams[j] {
            why == "approval is newer than the request"@
        } else if pull.directly_requested {
            why == "approval is newer than the request"@
        } else {
            why == "pull request is approved"@
        },
{
    if pull.team_requested(teams) {
        let i = choose|i: int|
            0 <= i < pull.requested_team_ids.len() && teams.contains(
                #[trigger] pull.requested_team_ids[i],
            );
        let j = choose|j: int| 0 <= j < teams.len() && teams[j] == pull.requested_team_ids[i];
        assert(pull.requested_team_ids[i] == teams[j]);
    }
    if exists|i: int, j: int|
        0 <= i < pull.requested_team_ids.len() && 0 <= j < teams.len()
            && #[trigger] pull.requested_team_ids[i] == #[trigger] teams[j] {
        let (i, j) = choose|i: int, j: int|
            0 <= i < pull.requested_team_ids.len() && 0 <= j < teams.len()
                && #[trigger] pull.requested_team_ids[i] == #[trigger] teams[j];
        assert(teams.contains(pull.requested_team_ids[i]));
    }
}

/// After a request for changes, nothing but the head decides.
pub proof fn changes_requested_follows_the_head(viewer_id: i64, teams: Seq<i64>, pull: PullModel)
    requires
        pull.ready(),
        pull.author.id != viewer_id,
        pull.latest_review matches Some(review) && review.state == ReviewState::ChangesRequested,
    ensures
        classify(viewer_id, teams, pull) is Actionable <==> pull.latest_review->0.commit_sha
            != Some(pull.head_sha),
{
}

/// A request for changes is answered by a new head, whoever is listed as asked:
/// the pull request waits while the head is the commit that was reviewed, and
/// asks for a review when it is another one or the commit is not known.
pub proof fn new_head_answers_a_request_for_changes(
    viewer_id: i64,
    teams: Seq<i64>,
    pull: PullModel,
    review: ReviewModel,
)
    requires
        pull.state == "open"@,
        !pull.merged,
        !pull.draft,
        pull.author.id != viewer_id,
        pull.latest_review == Some(review),
        review.state == ReviewState::ChangesRequested,
    ensures
        review.commit_sha == Some(pull.head_sha) ==> classify(viewer_id, teams, pull)
            == ActionabilityModel::Dormant("head has not changed since changes were requested"@),
        review.commit_sha != Some(pull.head_sha) ==> classify(viewer_id, teams, pull)
            == ActionabilityModel::Actionable(ActionReason::HeadChangedAfterChangesRequested),
{
}

/// The reasons have words of their own.
pub proof fn reasons_are_told_apart(a: ActionReason, b: ActionReason)
    ensures
        a.text() == b.text() ==> a == b,
        a.text() == "review_requested"@ <==> a == ActionReason::ReviewRequested,
        a.text() == "head_changed_after_changes_requested"@ <==> a
            == ActionReason::HeadChangedAfterChangesRequested,
        a.text() == "rerequested_after_approval"@ <==> a == ActionReason::RerequestedAfterApproval,
{
    reveal_strlit("review_requested");
    reveal_strlit("head_changed_after_changes_requested");
    reveal_strlit("rerequested_after_approval");
    assert("review_requested"@.len() == 16);
    assert("head_changed_after_changes_requested"@.len() == 36);
    assert("rerequested_after_approval"@.len() == 26);
}

} // verus!
