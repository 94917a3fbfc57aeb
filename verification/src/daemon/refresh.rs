//! Watching pull requests: how much of one is read, and what its state leads to.

use vstd::prelude::*;
use crate::daemon::retry::{is_rate_limited, rate_limited};
use crate::daemon::{effective_teams, find_registration, registration_in, teams_for, HOST};
use crate::db::rows::{
    DbError, EnqueueResult, NewActionModel, NewReviewAction, RegisteredRepositoryRecord,
    RegistrationModel, TrackedModel, TrackedPullRequest,
};
use crate::db::{Database, State};
use crate::github::pulls::{PullResponse, PullResponseModel};
use crate::github::GhError;
use crate::model::{
    classify, classify_actionability, ids_clone, opt_model, opt_request_clone, opt_review_clone,
    ActionReason, Actionability, ActionabilityModel, EnvelopeModel, EnvelopePullModel,
    EnvelopePullRequest, EnvelopeRepository, EnvelopeRequest, PullModel, PullRequestState,
    ReviewEnvelope, ReviewRequestKind, ReviewState, Viewer, ViewerModel,
};
use crate::number::{i64_text, int_text};
use crate::order::models;
use crate::time::{after, has_date, millis_after, Duration, Timestamp, NANOS_PER_SECOND};

verus! {

/// The milliseconds between two full reads of a pull request.
pub const FULL_READ_MILLIS: i64 = 900_000;

/// The most pull requests that one cycle reads.
pub const REFRESH_LIMIT: usize = 1000;

// ---------------------------------------------------------------------------
// How much to read
// ---------------------------------------------------------------------------

/// What is read of a pull request.
#[derive(Clone, Copy, Debug, PartialEq, Eq, Structural)]
pub enum Depth {
    /// Its own fields: what is known of its reviews and requests stays.
    Core,
    /// Everything.
    Full,
}

/// The quarter of an hour that an instant lies in.
pub open spec fn quarter(millis: i64) -> int {
    millis as int / FULL_READ_MILLIS as int
}

/// The viewer's latest opinion asks for changes.
pub open spec fn awaits_changes(pull: PullModel) -> bool {
    pull.latest_review matches Some(review) && review.state == ReviewState::ChangesRequested
}

/// What to read of a pull request that is watched. One that waits for changes
/// needs no more than its revisions, except once in each quarter of an hour.
pub open spec fn depth_of(pull: TrackedModel, now: i64) -> Depth {
    if quarter(pull.updated_at) == quarter(now) && awaits_changes(pull.pull_request) {
        Depth::Core
    } else {
        Depth::Full
    }
}

fn waits_for_changes(pull: &PullRequestState) -> (r: bool)
    ensures
        r == awaits_changes(pull@),
{
    match &pull.latest_review {
        Some(review) => review.state == ReviewState::ChangesRequested,
        None => false,
    }
}

fn same_quarter(a: i64, b: i64) -> (r: bool)
    ensures
        r == (quarter(a) == quarter(b)),
{
    // The shift keeps the dividends positive and is a multiple of the divisor.
    let shift: i128 = 9_223_372_036_855_800_000;
    let x: i128 = a as i128 + shift;
    let y: i128 = b as i128 + shift;
    let p: u128 = x as u128 / 900_000;
    let q: u128 = y as u128 / 900_000;
    p == q
}

pub fn refresh_depth(pull: &TrackedPullRequest, now: i64) -> (r: Depth)
    ensures
        r == depth_of(pull@, now),
{
    if same_quarter(pull.updated_at, now) && waits_for_changes(&pull.pull_request) {
        Depth::Core
    } else {
        Depth::Full
    }
}

/// What is known of a pull request, with its own fields read again.
pub open spec fn with_core(known: PullModel, core: PullResponseModel) -> PullModel {
    PullModel {
        id: core.id,
        number: core.number,
        url: core.html_url,
        title: core.title,
        author: core.user,
        state: core.state,
        draft: core.draft,
        merged: core.merged,
        head_sha: core.head_sha,
        head_ref: core.head_ref,
        base_sha: core.base_sha,
        base_ref: core.base_ref,
        ..known
    }
}

/// The author as GitHub names them, or else as they are known.
pub open spec fn author_of(known: PullModel, user: Option<ViewerModel>) -> ViewerModel {
    match user {
        Some(user) => user,
        None => known.author,
    }
}

/// The author of a pull request whose own fields were read again. Where GitHub
/// names none, the one that is known stays.
pub fn core_author(known: &PullRequestState, user: Option<Viewer>) -> (r: Viewer)
    ensures
        r@ == author_of(known@, opt_model(user)),
        r@ == match user {
            Some(user) => user@,
            None => known@.author,
        },
{
    match user {
        Some(user) => user,
        None => known.author.clone(),
    }
}

pub fn refresh_core(known: &PullRequestState, core: PullResponse) -> (r: PullRequestState)
    ensures
        r@ == with_core(known@, core@),
{
    PullRequestState {
        id: core.id,
        number: core.number,
        url: core.html_url,
        title: core.title,
        author: core.user,
        state: core.state,
        draft: core.draft,
        merged: core.merged,
        head_sha: core.head.sha,
        head_ref: core.head.reference,
        base_sha: core.base.sha,
        base_ref: core.base.reference,
        directly_requested: known.directly_requested,
        requested_team_ids: ids_clone(&known.requested_team_ids),
        latest_review: opt_review_clone(&known.latest_review),
        latest_request: opt_request_clone(&known.latest_request),
        non_opinionated_review_after_request: known.non_opinionated_review_after_request,
    }
}

// ---------------------------------------------------------------------------
// What a state leads to
// ---------------------------------------------------------------------------

/// Whether a pull request is watched further.
pub open spec fn still_watched(asked: ActionabilityModel, pull: PullModel) -> bool {
    match asked {
        ActionabilityModel::Inactive(_) => false,
        ActionabilityModel::Dormant(_) => awaits_changes(pull),
        ActionabilityModel::Actionable(_) => true,
    }
}

/// The pull request as it is watched from now on.
pub open spec fn rewatched(
    watched: TrackedModel,
    full_name: Seq<char>,
    pull: PullModel,
    asked: ActionabilityModel,
    next_check_at: i64,
    now: i64,
) -> TrackedModel {
    TrackedModel {
        repository_full_name: full_name,
        pull_request: pull,
        active: still_watched(asked, pull),
        next_check_at,
        updated_at: now,
        ..watched
    }
}

/// The word for who was asked.
pub open spec fn kind_text(kind: ReviewRequestKind) -> Seq<char> {
    match kind {
        ReviewRequestKind::User => "user"@,
        ReviewRequestKind::Team => "team"@,
    }
}

pub fn request_kind(kind: ReviewRequestKind) -> (r: &'static str)
    ensures
        r@ == kind_text(kind),
{
    match kind {
        ReviewRequestKind::User => "user",
        ReviewRequestKind::Team => "team",
    }
}

/// Who was asked, and by which event. Where no event is known, the revision of
/// the notification stands for it.
pub open spec fn request_of(watched: TrackedModel, pull: PullModel) -> (Seq<char>, Seq<char>) {
    match pull.latest_request {
        Some(request) => (kind_text(request.kind), request.event_id),
        None => (
            if pull.directly_requested {
                "user"@
            } else {
                "team"@
            },
            watched.notification_id + "@"@ + int_text(watched.notification_updated_at as int),
        ),
    }
}

/// The review or event that makes the action one of its own.
pub open spec fn trigger_of(reason: ActionReason, pull: PullModel, event_id: Seq<char>) -> Seq<
    char,
> {
    if reason == ActionReason::HeadChangedAfterChangesRequested {
        review_key(
            match pull.latest_review {
                Some(review) => review.id,
                None => 0,
            },
        )
    } else {
        event_id
    }
}

/// The key of a review.
pub open spec fn review_key(id: i64) -> Seq<char> {
    "review:"@ + int_text(id as int)
}

pub fn key_review(id: i64) -> (r: String)
    ensures
        r@ == review_key(id),
{
    let mut r = "review:".to_owned();
    r.append(i64_text(id).as_str());
    r
}

/// What the review command is told.
pub open spec fn envelope_of(
    viewer: ViewerModel,
    registration: RegistrationModel,
    watched: TrackedModel,
    pull: PullModel,
    reason: ActionReason,
) -> EnvelopeModel {
    EnvelopeModel {
        schema_version: 1,
        reason,
        viewer,
        repository_id: watched.repository_id,
        repository_full_name: registration.repository.repository.full_name,
        local_path: registration.repository.local_path,
        request_kind: request_of(watched, pull).0,
        request_event_id: request_of(watched, pull).1,
        pull_request: EnvelopePullModel {
            id: pull.id,
            number: pull.number,
            url: pull.url,
            title: pull.title,
            author: pull.author,
            head_sha: pull.head_sha,
            base_sha: pull.base_sha,
            base_ref: pull.base_ref,
            head_ref: pull.head_ref,
        },
        review: pull.latest_review,
        notification: watched.notification,
    }
}

/// The action that a pull request asks for.
pub open spec fn action_of(
    viewer: ViewerModel,
    registration: RegistrationModel,
    watched: TrackedModel,
    pull: PullModel,
    reason: ActionReason,
    now: i64,
) -> NewActionModel {
    NewActionModel {
        host: "github.com"@,
        viewer_id: viewer.id,
        repository_id: watched.repository_id,
        repository_full_name: registration.repository.repository.full_name,
        pull_request_id: pull.id,
        pull_request_number: pull.number,
        head_sha: pull.head_sha,
        trigger_key: trigger_of(reason, pull, request_of(watched, pull).1),
        reason: reason.text(),
        envelope: envelope_of(viewer, registration, watched, pull, reason),
        due_at: now,
    }
}

fn make_request(watched: &TrackedPullRequest, pull: &PullRequestState) -> (r: (String, String))
    ensures
        (r.0@, r.1@) == request_of(watched@, pull@),
{
    match &pull.latest_request {
        Some(request) => (request_kind(request.kind).to_owned(), request.event_id.clone()),
        None => {
            let kind = if pull.directly_requested {
                "user".to_owned()
            } else {
                "team".to_owned()
            };
            let mut event_id = watched.notification_id.clone();
            event_id.append("@");
            event_id.append(i64_text(watched.notification_updated_at).as_str());
            (kind, event_id)
        },
    }
}

/// Makes the action that a pull request asks for.
pub fn make_action(
    viewer: &Viewer,
    registration: &RegisteredRepositoryRecord,
    watched: &TrackedPullRequest,
    pull: &PullRequestState,
    reason: ActionReason,
    now: i64,
) -> (r: NewReviewAction)
    ensures
        r@ == action_of(viewer@, registration@, watched@, pull@, reason, now),
{
    let (kind, event_id) = make_request(watched, pull);
    let trigger_key = if reason == ActionReason::HeadChangedAfterChangesRequested {
        let id: i64 = match &pull.latest_review {
            Some(review) => review.id,
            None => 0,
        };
        key_review(id)
    } else {
        event_id.clone()
    };
    let envelope = ReviewEnvelope {
        schema_version: 1,
        reason,
        viewer: viewer.clone(),
        repository: EnvelopeRepository {
            id: watched.repository_id,
            full_name: registration.repository.repository.full_name.clone(),
            local_path: registration.repository.local_path.clone(),
        },
        request: EnvelopeRequest { kind, event_id },
        pull_request: EnvelopePullRequest {
            id: pull.id,
            number: pull.number,
            url: pull.url.clone(),
            title: pull.title.clone(),
            author: pull.author.clone(),
            head_sha: pull.head_sha.clone(),
            base_sha: pull.base_sha.clone(),
            base_ref: pull.base_ref.clone(),
            head_ref: pull.head_ref.clone(),
        },
        review: opt_review_clone(&pull.latest_review),
        notification: watched.notification.clone(),
    };
    NewReviewAction {
        host: HOST.to_owned(),
        viewer_id: viewer.id,
        repository_id: watched.repository_id,
        repository_full_name: registration.repository.repository.full_name.clone(),
        pull_request_id: pull.id,
        pull_request_number: pull.number,
        head_sha: pull.head_sha.clone(),
        trigger_key,
        reason: reason.as_str().to_owned(),
        envelope,
        due_at: now,
    }
}

// ---------------------------------------------------------------------------
// Refreshing
// ---------------------------------------------------------------------------

/// What to read of a pull request that is due.
pub enum RefreshStep {
    /// Nothing: its repository is no longer registered.
    Dropped,
    /// This much, under the name that the repository is registered under.
    Read { full_name: String, depth: Depth },
}

pub enum RefreshStepModel {
    Dropped,
    Read { full_name: Seq<char>, depth: Depth },
}

impl View for RefreshStep {
    type V = RefreshStepModel;

    open spec fn view(&self) -> RefreshStepModel {
        match self {
            RefreshStep::Dropped => RefreshStepModel::Dropped,
            RefreshStep::Read { full_name, depth } => RefreshStepModel::Read {
                full_name: full_name@,
                depth: *depth,
            },
        }
    }
}

/// The state without a watched pull request.
pub open spec fn dropped(state: State, viewer_id: i64, watched: TrackedModel, now: i64) -> State {
    state.deactivate_tracked_pull_request(
        "github.com"@,
        viewer_id,
        watched.repository_id,
        watched.pull_request.id,
        now,
    )
}

/// The state after the refresh of a watched pull request began, and what is read.
pub open spec fn refresh_begun(
    state: State,
    viewer_id: i64,
    registrations: Seq<RegistrationModel>,
    watched: TrackedModel,
    now: i64,
) -> (State, RefreshStepModel) {
    match registration_in(registrations, watched.repository_id) {
        None => (dropped(state, viewer_id, watched, now), RefreshStepModel::Dropped),
        Some(registration) => (
            state,
            RefreshStepModel::Read {
                full_name: registration.repository.repository.full_name,
                depth: depth_of(watched, now),
            },
        ),
    }
}

/// Begins to refresh a watched pull request.
pub fn begin_refresh(
    db: &mut Database,
    viewer_id: i64,
    registrations: &Vec<RegisteredRepositoryRecord>,
    watched: &TrackedPullRequest,
    now: i64,
) -> (r: RefreshStep)
    ensures
        (final(db)@, r@) == refresh_begun(
            old(db)@,
            viewer_id,
            models(registrations@),
            watched@,
            now,
        ),
        match registration_in(models(registrations@), watched.repository_id) {
            None => r@ == RefreshStepModel::Dropped && final(db)@ == dropped(
                old(db)@,
                viewer_id,
                watched@,
                now,
            ),
            Some(registration) => final(db)@ == old(db)@ && r@ == (RefreshStepModel::Read {
                full_name: registration.repository.repository.full_name,
                depth: depth_of(watched@, now),
            }),
        },
{
    match find_registration(registrations, watched.repository_id) {
        None => {
            let _ = db.deactivate_tracked_pull_request(
                HOST,
                viewer_id,
                watched.repository_id,
                watched.pull_request.id,
                now,
            );
            RefreshStep::Dropped
        },
        Some(registration) => RefreshStep::Read {
            full_name: registration.repository.repository.full_name.clone(),
            depth: refresh_depth(watched, now),
        },
    }
}

/// How the refresh of a pull request ended.
#[derive(Debug, PartialEq, Eq)]
pub enum Refreshed {
    /// It is gone, and no longer watched.
    Gone,
    /// GitHub gave no answer. It stays as it was.
    Failed { rate_limited: bool },
    /// The daemon stops. It stays as it was.
    Stopped,
    /// Its state was taken in, and this became of the action that it asks for.
    Updated { queued: Option<EnqueueResult> },
}

/// The state after a pull request was read, and what became of the action that
/// it asks for.
pub open spec fn taken_in(
    state: State,
    viewer: ViewerModel,
    viewer_team_ids: Seq<i64>,
    trust: bool,
    registration: RegistrationModel,
    watched: TrackedModel,
    pull: PullModel,
    next_check_at: i64,
    now: i64,
) -> (State, Result<Option<EnqueueResult>, DbError>) {
    let asked = classify(viewer.id, teams_for(trust, viewer_team_ids, pull), pull);
    let again = rewatched(
        watched,
        registration.repository.repository.full_name,
        pull,
        asked,
        next_check_at,
        now,
    );
    match state.upsert_tracked_pull_request(again) {
        Err(error) => (state, Err(error)),
        Ok(stored) => match asked {
            ActionabilityModel::Actionable(reason) => match stored.enqueue_action(
                action_of(viewer, registration, again, pull, reason, now),
                now,
            ) {
                Err(error) => (stored, Err(error)),
                Ok((queued, result)) => (queued, Ok(Some(result))),
            },
            _ => (stored, Ok(None)),
        },
    }
}

/// Takes in the state of a pull request: it is watched further where it may ask
/// for a review again, and its action is queued where it asks for one now.
pub fn take_in(
    db: &mut Database,
    viewer: &Viewer,
    viewer_team_ids: &Vec<i64>,
    trust: bool,
    registration: &RegisteredRepositoryRecord,
    watched: &TrackedPullRequest,
    pull: PullRequestState,
    next_check_at: i64,
    now: i64,
) -> (r: Result<Option<EnqueueResult>, DbError>)
    ensures
        (final(db)@, r) == taken_in(
            old(db)@,
            viewer@,
            viewer_team_ids@,
            trust,
            registration@,
            watched@,
            pull@,
            next_check_at,
            now,
        ),
{
    let asked = classify_actionability(
        viewer,
        effective_teams(trust, viewer_team_ids, &pull).as_slice(),
        &pull,
    );
    let active = match asked {
        Actionability::Inactive(_) => false,
        Actionability::Dormant(_) => waits_for_changes(&pull),
        Actionability::Actionable(_) => true,
    };
    let again = TrackedPullRequest {
        host: watched.host.clone(),
        viewer_id: watched.viewer_id,
        repository_id: watched.repository_id,
        repository_full_name: registration.repository.repository.full_name.clone(),
        pull_request: pull.clone(),
        notification_id: watched.notification_id.clone(),
        notification_updated_at: watched.notification_updated_at,
        notification: watched.notification.clone(),
        active,
        next_check_at,
        updated_at: now,
    };
    if let Err(error) = db.upsert_tracked_pull_request(&again) {
        return Err(error);
    }
    match asked {
        Actionability::Actionable(reason) => {
            let action = make_action(viewer, registration, &again, &pull, reason, now);
            match db.enqueue_action(&action, now) {
                Ok(result) => Ok(Some(result)),
                Err(error) => Err(error),
            }
        },
        _ => Ok(None),
    }
}

/// The refresh of a watched pull request ended with `r`, and left the state
/// `after`. A pull request for which GitHub answered with status 404 is no longer
/// watched. Any other that could not be read stays as it was.
pub open spec fn ended_refresh(
    state: State,
    viewer: ViewerModel,
    viewer_team_ids: Seq<i64>,
    trust: bool,
    registration: RegistrationModel,
    watched: TrackedModel,
    answer: Result<PullRequestState, GhError>,
    interval: Duration,
    now: Timestamp,
    after: State,
    r: Result<Refreshed, DbError>,
) -> bool {
    match answer {
        Ok(pull) => ({
            let result = taken_in(
                state,
                viewer,
                viewer_team_ids,
                trust,
                registration,
                watched,
                pull@,
                millis_after(now, interval) as i64,
                now.in_millis() as i64,
            );
            after == result.0 && r == match result.1 {
                Ok(queued) => Ok::<Refreshed, DbError>(Refreshed::Updated { queued }),
                Err(error) => Err::<Refreshed, DbError>(error),
            }
        }),
        Err(error) => if error@.has_status(404) {
            r == Ok::<Refreshed, DbError>(Refreshed::Gone) && after == dropped(
                state,
                viewer.id,
                watched,
                now.in_millis() as i64,
            )
        } else if error@ is Cancelled {
            r == Ok::<Refreshed, DbError>(Refreshed::Stopped) && after == state
        } else {
            r == Ok::<Refreshed, DbError>(
                Refreshed::Failed { rate_limited: rate_limited(error@) },
            ) && after == state
        },
    }
}

/// Ends the refresh of a watched pull request with what GitHub answered. It is
/// read again after `interval`.
pub fn finish_refresh(
    db: &mut Database,
    viewer: &Viewer,
    viewer_team_ids: &Vec<i64>,
    trust: bool,
    registration: &RegisteredRepositoryRecord,
    watched: &TrackedPullRequest,
    answer: Result<PullRequestState, GhError>,
    interval: Duration,
    now: Timestamp,
) -> (r: Result<Refreshed, DbError>)
    requires
        now.wf(),
        now.nanos < NANOS_PER_SECOND,
        interval.wf(),
        answer is Ok ==> has_date(millis_after(now, interval)),
    ensures
        ended_refresh(
            old(db)@,
            viewer@,
            viewer_team_ids@,
            trust,
            registration@,
            watched@,
            answer,
            interval,
            now,
            final(db)@,
            r,
        ),
{
    let millis = now.millis();
    match answer {
        Ok(pull) => {
            let next_check_at: i64 = match after(now, interval) {
                Some(next) => next,
                None => millis,
            };
            match take_in(
                db,
                viewer,
                viewer_team_ids,
                trust,
                registration,
                watched,
                pull,
                next_check_at,
                millis,
            ) {
                Ok(queued) => Ok(Refreshed::Updated { queued }),
                Err(error) => Err(error),
            }
        },
        Err(error) => {
            if error.has_status(404) {
                let _ = db.deactivate_tracked_pull_request(
                    HOST,
                    viewer.id,
                    watched.repository_id,
                    watched.pull_request.id,
                    millis,
                );
                return Ok(Refreshed::Gone);
            }
            if let GhError::Cancelled { endpoint: _ } = &error {
                return Ok(Refreshed::Stopped);
            }
            Ok(Refreshed::Failed { rate_limited: is_rate_limited(&error) })
        },
    }
}

// ---------------------------------------------------------------------------
// The refreshes of a cycle
// ---------------------------------------------------------------------------

/// The pull requests that one cycle refreshes.
pub struct Refreshes {
    /// When they began.
    pub now: Timestamp,
    /// Those that were due, in order.
    pub due: Vec<TrackedPullRequest>,
    /// How many of them were begun.
    pub begun: usize,
    /// The registration of the one that is being read.
    pub reading: Option<RegisteredRepositoryRecord>,
    /// No further one is read.
    pub over: bool,
    /// GitHub answers.
    pub available: bool,
}

/// The pull requests that are due in a cycle.
pub open spec fn due_in_cycle(state: State, viewer_id: i64, now: i64) -> Seq<TrackedModel> {
    let due = state.due_pulls("github.com"@, viewer_id, now);
    if REFRESH_LIMIT < due.len() {
        due.take(REFRESH_LIMIT as int)
    } else {
        due
    }
}

/// What to read next.
pub enum RefreshRequest {
    /// Nothing more.
    Done,
    /// Nothing of this one: it is no longer watched.
    Dropped,
    /// This much of a pull request.
    Read { full_name: String, depth: Depth },
}

pub enum RefreshRequestModel {
    Done,
    Dropped,
    Read { full_name: Seq<char>, depth: Depth },
}

impl View for RefreshRequest {
    type V = RefreshRequestModel;

    open spec fn view(&self) -> RefreshRequestModel {
        match self {
            RefreshRequest::Done => RefreshRequestModel::Done,
            RefreshRequest::Dropped => RefreshRequestModel::Dropped,
            RefreshRequest::Read { full_name, depth } => RefreshRequestModel::Read {
                full_name: full_name@,
                depth: *depth,
            },
        }
    }
}

/// After a refresh that ended so, no further one is made in the cycle.
pub open spec fn stops(ended: Refreshed) -> bool {
    ended == Refreshed::Stopped || (ended == Refreshed::Failed { rate_limited: true })
}

impl Refreshes {
    pub open spec fn wf(self) -> bool {
        &&& self.now.wf() && self.now.nanos < NANOS_PER_SECOND
        &&& self.begun <= self.due@.len()
        &&& self.reading is Some ==> self.begun > 0
        &&& self.available || self.over
    }

    /// A further pull request is read, where one is due.
    pub open spec fn goes_on(self) -> bool {
        !self.over && self.begun < self.due@.len()
    }

    /// The pull request that was begun last.
    pub open spec fn last_begun(self) -> TrackedModel {
        self.due@[self.begun - 1]@
    }

    /// Begins the refreshes of a cycle.
    pub fn begin(db: &Database, viewer_id: i64, now: Timestamp) -> (r: Refreshes)
        requires
            now.wf(),
            now.nanos < NANOS_PER_SECOND,
        ensures
            r.wf(),
            models(r.due@) == due_in_cycle(db@, viewer_id, now.in_millis() as i64),
            r.now == now,
            r.begun == 0,
            r.reading is None,
            !r.over,
            r.available,
    {
        let due = db.due_tracked_pull_requests(HOST, viewer_id, now.millis(), REFRESH_LIMIT);
        Refreshes { now, due, begun: 0, reading: None, over: false, available: true }
    }

    /// The pull request that was begun last.
    pub fn current(&self) -> (r: Option<&TrackedPullRequest>)
        requires
            self.wf(),
        ensures
            r is Some <==> self.begun > 0,
            r matches Some(pull) ==> pull@ == self.last_begun(),
    {
        if self.begun == 0 {
            return None;
        }
        Some(&self.due[self.begun - 1])
    }

    /// Begins the next refresh, and says what to read. The pull request of a
    /// repository that is no longer registered is dropped.
    pub fn step(
        &mut self,
        db: &mut Database,
        viewer_id: i64,
        registrations: &Vec<RegisteredRepositoryRecord>,
    ) -> (r: RefreshRequest)
        requires
            old(self).wf(),
        ensures
            final(self).wf(),
            final(self).now == old(self).now,
            final(self).due == old(self).due,
            final(self).over == old(self).over,
            final(self).available == old(self).available,
            !old(self).goes_on() ==> r@ is Done && *final(self) == *old(self) && *final(db) == *old(
                db,
            ),
            old(self).goes_on() ==> final(self).begun == old(self).begun + 1 && ({
                let watched = final(self).last_begun();
                let now = old(self).now.in_millis() as i64;
                match registration_in(models(registrations@), watched.repository_id) {
                    None => r@ is Dropped && final(self).reading is None && final(db)@ == dropped(
                        old(db)@,
                        viewer_id,
                        watched,
                        now,
                    ),
                    Some(registration) => opt_model(final(self).reading) == Some(registration)
                        && final(db)@ == old(db)@ && r@ == (RefreshRequestModel::Read {
                        full_name: registration.repository.repository.full_name,
                        depth: depth_of(watched, now),
                    }),
                }
            }),
    {
        if self.over || self.begun >= self.due.len() {
            return RefreshRequest::Done;
        }
        let at: usize = self.begun;
        self.begun = at + 1;
        let millis = self.now.millis();
        match begin_refresh(db, viewer_id, registrations, &self.due[at], millis) {
            RefreshStep::Dropped => {
                self.reading = None;
                RefreshRequest::Dropped
            },
            RefreshStep::Read { full_name, depth } => {
                self.reading = match find_registration(registrations, self.due[at].repository_id) {
                    Some(registration) => Some(registration.clone()),
                    None => None,
                };
                RefreshRequest::Read { full_name, depth }
            },
        }
    }

    /// Ends the refresh that was begun last with what GitHub answered. The pull
    /// request is read again after `interval`. Where GitHub refuses requests, or
    /// the daemon stops, the refreshes of the cycle are over.
    pub fn finish(
        &mut self,
        db: &mut Database,
        viewer: &Viewer,
        viewer_team_ids: &Vec<i64>,
        trust: bool,
        answer: Result<PullRequestState, GhError>,
        interval: Duration,
    ) -> (r: Result<Refreshed, DbError>)
        requires
            old(self).wf(),
            old(self).reading is Some,
            interval.wf(),
            answer is Ok ==> has_date(millis_after(old(self).now, interval)),
        ensures
            final(self).wf(),
            final(self).now == old(self).now,
            final(self).due == old(self).due,
            final(self).begun == old(self).begun,
            final(self).reading is None,
            match r {
                Ok(ended) => final(self).over == (old(self).over || stops(ended))
                    && final(self).available == (old(self).available && !stops(ended)),
                Err(_) => final(self).over == old(self).over && final(self).available == old(
                    self,
                ).available,
            },
            ended_refresh(
                old(db)@,
                viewer@,
                viewer_team_ids@,
                trust,
                old(self).reading->0@,
                old(self).last_begun(),
                answer,
                interval,
                old(self).now,
                final(db)@,
                r,
            ),
    {
        let mut reading: Option<RegisteredRepositoryRecord> = None;
        std::mem::swap(&mut reading, &mut self.reading);
        match reading {
            None => Ok(Refreshed::Stopped),
            Some(registration) => {
                let at: usize = self.begun - 1;
                let r = finish_refresh(
                    db,
                    viewer,
                    viewer_team_ids,
                    trust,
                    &registration,
                    &self.due[at],
                    answer,
                    interval,
                    self.now,
                );
                let refused = match &r {
                    Ok(Refreshed::Stopped) => true,
                    Ok(Refreshed::Failed { rate_limited }) => *rate_limited,
                    _ => false,
                };
                if refused {
                    self.over = true;
                    self.available = false;
                }
                r
            },
        }
    }
}

// ---------------------------------------------------------------------------
// Laws
// ---------------------------------------------------------------------------

/// A pull request whose changes the viewer awaits is watched until it is closed,
/// merged or made a draft, and one that asks for a review is watched.
pub proof fn awaited_changes_are_watched(viewer_id: i64, teams: Seq<i64>, pull: PullModel)
    ensures
        awaits_changes(pull) && pull.ready() && pull.author.id != viewer_id ==> still_watched(
            classify(viewer_id, teams, pull),
            pull,
        ),
        classify(viewer_id, teams, pull) is Actionable ==> still_watched(
            classify(viewer_id, teams, pull),
            pull,
        ),
        !pull.ready() ==> !still_watched(classify(viewer_id, teams, pull), pull),
{
}

/// A head that changes while changes are awaited is seen by a read of the core
/// alone, and asks for a review.
pub proof fn core_read_sees_new_heads(
    viewer_id: i64,
    teams: Seq<i64>,
    known: PullModel,
    core: PullResponseModel,
)
    requires
        awaits_changes(known),
        core.state == "open"@,
        !core.merged,
        !core.draft,
        core.user.id != viewer_id,
    ensures
        classify(viewer_id, teams, with_core(known, core)) == ActionabilityModel::Actionable(
            ActionReason::HeadChangedAfterChangesRequested,
        ) <==> known.latest_review->0.commit_sha != Some(core.head_sha),
{
}

/// An action is made one of its own by the review that awaits changes, or else
/// by the event that asked; the head makes the rest.
pub proof fn same_trigger_is_the_same_work(
    viewer: ViewerModel,
    registration: RegistrationModel,
    watched: TrackedModel,
    pull: PullModel,
    later: PullModel,
    reason: ActionReason,
    now: i64,
    next: i64,
)
    requires
        later.id == pull.id,
        later.head_sha == pull.head_sha,
        later.latest_review == pull.latest_review,
        later.latest_request == pull.latest_request,
        pull.latest_request is Some,
    ensures
        ({
            let one = action_of(viewer, registration, watched, pull, reason, now);
            let other = action_of(viewer, registration, watched, later, reason, next);
            &&& one.host == other.host
            &&& one.viewer_id == other.viewer_id
            &&& one.repository_id == other.repository_id
            &&& one.pull_request_id == other.pull_request_id
            &&& one.head_sha == other.head_sha
            &&& one.trigger_key == other.trigger_key
            &&& one.reason == other.reason
        }),
{
}

} // verus!
