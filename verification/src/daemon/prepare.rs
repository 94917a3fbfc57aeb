//! From a claimed action to its review command.
//!
//! The pull request is read, the clone is found and compared with the
//! registration, both revisions are fetched and verified, and the pull request
//! is read again. Only then does the command run.

use vstd::prelude::*;
use crate::daemon::refresh::{key_review, kind_text, request_kind, review_key};
use crate::daemon::retry::{
    failure_delay, failure_spread, record_command_failure,
};
use crate::daemon::{effective_teams, teams_for};
use crate::db::rows::{
    ActionModel, ActionStatus, RegisteredRepositoryRecord, RegistrationModel, ReviewAction,
};
use crate::db::{Database, State};
use crate::git::steps::LocalModel;
use crate::git::{FetchSpec, GitError, GitErrorModel, LocalRepository};
use crate::github::{GhError, GhErrorModel};
use crate::model::{
    classify, classify_actionability, opt_model, opt_review_clone, ActionReason, Actionability,
    ActionabilityModel, EnvelopeModel, EnvelopePullModel, EnvelopePullRequest, EnvelopeRepository,
    EnvelopeRequest, PullModel, PullRequestState, RepositoryIdentity, RepositoryModel,
    ReviewEnvelope, Viewer, ViewerModel,
};
use crate::paths::{path_eq, paths_equal};
use crate::runner::{OutcomeModel, RunOutcome, RunnerError, RunnerErrorModel};
use crate::text::str_eq;
use crate::time::{after, has_date, millis_after, Duration, Timestamp, NANOS_PER_SECOND};

verus! {

/// The seconds until an action is tried again whose clone is not as registered.
pub const CLONE_DELAY: u64 = 300;

/// The seconds until an action is tried again after another failure.
pub const FAILURE_DELAY: u64 = 60;

/// The seconds until an action is tried again whose revisions moved.
pub const MOVED_DELAY: u64 = 5;

// ---------------------------------------------------------------------------
// Vocabulary
// ---------------------------------------------------------------------------

/// For whom the daemon acts.
pub struct Viewpoint {
    pub viewer: Viewer,
    pub team_ids: Vec<i64>,
    pub trust: bool,
}

pub struct ViewpointModel {
    pub viewer: ViewerModel,
    pub team_ids: Seq<i64>,
    pub trust: bool,
}

impl View for Viewpoint {
    type V = ViewpointModel;

    open spec fn view(&self) -> ViewpointModel {
        ViewpointModel {
            viewer: self.viewer@,
            team_ids: self.team_ids@,
            trust: self.trust,
        }
    }
}

/// What becomes of an action.
#[derive(Debug, PartialEq, Eq)]
pub enum Verdict {
    /// It is no longer wanted.
    Cancel(String),
    /// It is tried again after a delay. The attempt does not count.
    Defer { error: String, delay: Duration },
    /// Its command succeeded.
    Complete,
    /// Its command failed. The attempt counts.
    Fail(String),
}

pub enum VerdictModel {
    Cancel(Seq<char>),
    Defer { error: Seq<char>, delay: Duration },
    Complete,
    Fail(Seq<char>),
}

impl View for Verdict {
    type V = VerdictModel;

    open spec fn view(&self) -> VerdictModel {
        match self {
            Verdict::Cancel(reason) => VerdictModel::Cancel(reason@),
            Verdict::Defer { error, delay } => VerdictModel::Defer { error: error@, delay: *delay },
            Verdict::Complete => VerdictModel::Complete,
            Verdict::Fail(error) => VerdictModel::Fail(error@),
        }
    }
}

/// What was fetched, or is to be.
#[verifier::ext_equal]
pub struct FetchModel {
    pub pull_number: u64,
    pub base_ref: Seq<char>,
    pub base_oid: Seq<char>,
    pub head_oid: Seq<char>,
}

pub open spec fn fetch_model(spec: FetchSpec) -> FetchModel {
    FetchModel {
        pull_number: spec.pull_number,
        base_ref: spec.base_ref@,
        base_oid: spec.expected_base_oid@,
        head_oid: spec.expected_head_oid@,
    }
}

/// How far the preparation of an action has come.
pub enum Stage {
    /// The pull request is being read.
    Reading,
    /// The clone is being looked for.
    Locating { pull: PullRequestState },
    /// The paths of the clone and of the registration are being resolved.
    Comparing { pull: PullRequestState, local: LocalRepository },
    /// GitHub is being asked which repository the clone is of.
    Identifying { pull: PullRequestState, local: LocalRepository },
    /// The revisions are being fetched.
    Fetching { local: LocalRepository, fetch: FetchSpec },
    /// The pull request is being read again.
    Rereading { local: LocalRepository, fetch: FetchSpec },
    /// The command is running.
    Running,
}

pub enum StageModel {
    Reading,
    Locating { pull: PullModel },
    Comparing { pull: PullModel, local: LocalModel },
    Identifying { pull: PullModel, local: LocalModel },
    Fetching { local: LocalModel, fetch: FetchModel },
    Rereading { local: LocalModel, fetch: FetchModel },
    Running,
}

impl View for Stage {
    type V = StageModel;

    open spec fn view(&self) -> StageModel {
        match self {
            Stage::Reading => StageModel::Reading,
            Stage::Locating { pull } => StageModel::Locating { pull: pull@ },
            Stage::Comparing { pull, local } => StageModel::Comparing {
                pull: pull@,
                local: local@,
            },
            Stage::Identifying { pull, local } => StageModel::Identifying {
                pull: pull@,
                local: local@,
            },
            Stage::Fetching { local, fetch } => StageModel::Fetching {
                local: local@,
                fetch: fetch_model(*fetch),
            },
            Stage::Rereading { local, fetch } => StageModel::Rereading {
                local: local@,
                fetch: fetch_model(*fetch),
            },
            Stage::Running => StageModel::Running,
        }
    }
}

/// What the daemon has to do next for an action.
pub enum Request {
    ReadPull { full_name: String, number: u64 },
    Locate { path: String },
    Resolve { expected: String, actual: String },
    Identify { full_name: String },
    Fetch { root: String, fetch: FetchSpec },
    Run { root: String, envelope: ReviewEnvelope },
}

pub enum RequestModel {
    ReadPull { full_name: Seq<char>, number: u64 },
    Locate { path: Seq<char> },
    Resolve { expected: Seq<char>, actual: Seq<char> },
    Identify { full_name: Seq<char> },
    Fetch { root: Seq<char>, fetch: FetchModel },
    Run { root: Seq<char>, envelope: EnvelopeModel },
}

impl View for Request {
    type V = RequestModel;

    open spec fn view(&self) -> RequestModel {
        match self {
            Request::ReadPull { full_name, number } => RequestModel::ReadPull {
                full_name: full_name@,
                number: *number,
            },
            Request::Locate { path } => RequestModel::Locate { path: path@ },
            Request::Resolve { expected, actual } => RequestModel::Resolve {
                expected: expected@,
                actual: actual@,
            },
            Request::Identify { full_name } => RequestModel::Identify { full_name: full_name@ },
            Request::Fetch { root, fetch } => RequestModel::Fetch {
                root: root@,
                fetch: fetch_model(*fetch),
            },
            Request::Run { root, envelope } => RequestModel::Run {
                root: root@,
                envelope: envelope@,
            },
        }
    }
}

/// What came of a request.
pub enum Event {
    Pull(Result<PullRequestState, GhError>),
    Located(Result<LocalRepository, GitError>),
    /// The two paths without symbolic links, or why there are none.
    Resolved(Result<(String, String), String>),
    Identified(Result<RepositoryIdentity, GhError>),
    Fetched(Result<(), GitError>),
    /// The pull request, and the registration as it is now.
    PullAgain(Result<PullRequestState, GhError>, Option<RegisteredRepositoryRecord>),
    Ran(Result<RunOutcome, RunnerError>),
}

pub enum EventModel {
    Pull(Result<PullModel, GhErrorModel>),
    Located(Result<LocalModel, GitErrorModel>),
    Resolved(Result<(Seq<char>, Seq<char>), Seq<char>>),
    Identified(Result<RepositoryModel, GhErrorModel>),
    Fetched(Result<(), GitErrorModel>),
    PullAgain(Result<PullModel, GhErrorModel>, Option<RegistrationModel>),
    Ran(Result<OutcomeModel, RunnerErrorModel>),
}

impl View for Event {
    type V = EventModel;

    open spec fn view(&self) -> EventModel {
        match self {
            Event::Pull(answer) => EventModel::Pull(GhError::result_model(*answer)),
            Event::Located(Ok(local)) => EventModel::Located(Ok(local@)),
            Event::Located(Err(error)) => EventModel::Located(Err(error@)),
            Event::Resolved(Ok((expected, actual))) => EventModel::Resolved(
                Ok((expected@, actual@)),
            ),
            Event::Resolved(Err(error)) => EventModel::Resolved(Err(error@)),
            Event::Identified(answer) => EventModel::Identified(GhError::result_model(*answer)),
            Event::Fetched(Ok(_)) => EventModel::Fetched(Ok(())),
            Event::Fetched(Err(error)) => EventModel::Fetched(Err(error@)),
            Event::PullAgain(answer, registration) => EventModel::PullAgain(
                GhError::result_model(*answer),
                opt_model(*registration),
            ),
            Event::Ran(Ok(outcome)) => EventModel::Ran(Ok(outcome@)),
            Event::Ran(Err(error)) => EventModel::Ran(Err(error@)),
        }
    }
}

/// The event is the answer to what was asked for in the stage.
pub open spec fn expects(stage: StageModel, event: EventModel) -> bool {
    match stage {
        StageModel::Reading => event is Pull,
        StageModel::Locating { .. } => event is Located,
        StageModel::Comparing { .. } => event is Resolved,
        StageModel::Identifying { .. } => event is Identified,
        StageModel::Fetching { .. } => event is Fetched,
        StageModel::Rereading { .. } => event is PullAgain,
        StageModel::Running => event is Ran,
    }
}

/// An action in preparation, with the registration that it started from.
pub struct Preparation {
    pub action: ReviewAction,
    pub registration: RegisteredRepositoryRecord,
    pub stage: Stage,
}

/// What follows an event.
pub enum Step {
    Ask(Preparation, Request),
    End(Verdict),
}

pub enum StepModel {
    Ask(StageModel, RequestModel),
    End(VerdictModel),
}

impl View for Step {
    type V = StepModel;

    open spec fn view(&self) -> StepModel {
        match self {
            Step::Ask(preparation, request) => StepModel::Ask(preparation.stage@, request@),
            Step::End(verdict) => StepModel::End(verdict@),
        }
    }
}

// ---------------------------------------------------------------------------
// Rules
// ---------------------------------------------------------------------------

pub open spec fn deferred(error: Seq<char>, seconds: u64) -> StepModel {
    StepModel::End(VerdictModel::Defer { error, delay: Duration { seconds, nanos: 0 } })
}

pub open spec fn cancelled_for(reason: Seq<char>) -> StepModel {
    StepModel::End(VerdictModel::Cancel(reason))
}

/// The pull request is no longer the one that the action was queued for.
pub open spec fn outdated(action: ActionModel, pull: PullModel, reason: ActionReason) -> bool {
    ||| pull.id != action.pull_request_id
    ||| pull.head_sha != action.head_sha
    ||| reason != action.envelope.reason
    ||| reason == ActionReason::HeadChangedAfterChangesRequested && (
    pull.latest_review matches Some(review) && action.trigger_key != review_key(review.id))
    ||| reason != ActionReason::HeadChangedAfterChangesRequested && (
    pull.latest_request matches Some(request) && request.event_id
        != action.envelope.request_event_id)
}

/// What the pull request asks of the viewer.
pub open spec fn asked_of(view: ViewpointModel, pull: PullModel) -> ActionabilityModel {
    classify(view.viewer.id, teams_for(view.trust, view.team_ids, pull), pull)
}

/// What is fetched for a pull request.
pub open spec fn fetch_of(pull: PullModel) -> FetchModel {
    FetchModel {
        pull_number: pull.number,
        base_ref: pull.base_ref,
        base_oid: pull.base_sha,
        head_oid: pull.head_sha,
    }
}

/// What the command is told, by the second read.
pub open spec fn final_envelope(
    action: ActionModel,
    registration: RegistrationModel,
    local: LocalModel,
    pull: PullModel,
) -> EnvelopeModel {
    let first = action.envelope;
    EnvelopeModel {
        repository_full_name: registration.repository.repository.full_name,
        local_path: local.worktree_root,
        request_kind: match pull.latest_request {
            Some(request) => kind_text(request.kind),
            None => first.request_kind,
        },
        request_event_id: match pull.latest_request {
            Some(request) => request.event_id,
            None => first.request_event_id,
        },
        pull_request: EnvelopePullModel {
            url: pull.url,
            title: pull.title,
            author: pull.author,
            head_sha: pull.head_sha,
            base_sha: pull.base_sha,
            head_ref: pull.head_ref,
            base_ref: pull.base_ref,
            ..first.pull_request
        },
        review: pull.latest_review,
        ..first
    }
}

/// GitHub did not give the pull request. Only an answer with status 404 says that
/// it no longer exists.
pub open spec fn unread(error: GhErrorModel) -> StepModel {
    if error.has_status(404) {
        cancelled_for("pull request no longer exists"@)
    } else {
        deferred(error.text(), FAILURE_DELAY)
    }
}

pub open spec fn after_pull(
    view: ViewpointModel,
    action: ActionModel,
    registration: RegistrationModel,
    answer: Result<PullModel, GhErrorModel>,
    cancelled: bool,
) -> StepModel {
    match answer {
        Err(error) => unread(error),
        Ok(pull) => match asked_of(view, pull) {
            ActionabilityModel::Dormant(why) => cancelled_for(why),
            ActionabilityModel::Inactive(why) => cancelled_for(why),
            ActionabilityModel::Actionable(reason) => if outdated(action, pull, reason) {
                cancelled_for("pull request changed after this action was queued"@)
            } else if cancelled {
                deferred("daemon lease was lost"@, 0)
            } else {
                StepModel::Ask(
                    StageModel::Locating { pull },
                    RequestModel::Locate { path: registration.repository.local_path },
                )
            },
        },
    }
}

pub open spec fn after_located(
    registration: RegistrationModel,
    pull: PullModel,
    answer: Result<LocalModel, GitErrorModel>,
    cancelled: bool,
) -> StepModel {
    match answer {
        Err(error) => deferred(error.text(), CLONE_DELAY),
        Ok(local) => if cancelled {
            deferred("daemon lease was lost"@, 0)
        } else {
            StepModel::Ask(
                StageModel::Comparing { pull, local },
                RequestModel::Resolve {
                    expected: registration.repository.local_path,
                    actual: local.worktree_root,
                },
            )
        },
    }
}

pub open spec fn after_resolved(
    pull: PullModel,
    local: LocalModel,
    answer: Result<(Seq<char>, Seq<char>), Seq<char>>,
) -> StepModel {
    match answer {
        Err(error) => deferred(error, FAILURE_DELAY),
        Ok((expected, actual)) => if !paths_equal(expected, actual) {
            deferred((GitErrorModel::WorktreeMismatch { expected, actual }).text(), CLONE_DELAY)
        } else {
            StepModel::Ask(
                StageModel::Identifying { pull, local },
                RequestModel::Identify { full_name: local.origin.name() },
            )
        },
    }
}

pub open spec fn after_identified(
    action: ActionModel,
    pull: PullModel,
    local: LocalModel,
    answer: Result<RepositoryModel, GhErrorModel>,
    cancelled: bool,
) -> StepModel {
    match answer {
        Err(error) => deferred(error.text(), FAILURE_DELAY),
        Ok(repository) => if cancelled {
            deferred("daemon lease was lost"@, 0)
        } else if repository.id != action.repository_id {
            deferred(
                "registered path now points at a different GitHub repository"@,
                CLONE_DELAY,
            )
        } else {
            StepModel::Ask(
                StageModel::Fetching { local, fetch: fetch_of(pull) },
                RequestModel::Fetch { root: local.worktree_root, fetch: fetch_of(pull) },
            )
        },
    }
}

pub open spec fn after_fetched(
    action: ActionModel,
    registration: RegistrationModel,
    local: LocalModel,
    fetch: FetchModel,
    answer: Result<(), GitErrorModel>,
    cancelled: bool,
) -> StepModel {
    match answer {
        Err(error) => deferred(
            error.text(),
            match error {
                GitErrorModel::Cancelled { .. } => 0,
                GitErrorModel::StaleRevision { .. } => MOVED_DELAY,
                _ => FAILURE_DELAY,
            },
        ),
        Ok(_) => if cancelled {
            deferred("daemon lease was lost while preparing the review command"@, 0)
        } else {
            StepModel::Ask(
                StageModel::Rereading { local, fetch },
                RequestModel::ReadPull {
                    full_name: registration.repository.repository.full_name,
                    number: action.pull_request_number,
                },
            )
        },
    }
}

pub open spec fn after_pull_again(
    view: ViewpointModel,
    action: ActionModel,
    registration: RegistrationModel,
    local: LocalModel,
    fetch: FetchModel,
    answer: Result<PullModel, GhErrorModel>,
    current: Option<RegistrationModel>,
) -> StepModel {
    match answer {
        Err(error) => unread(error),
        Ok(pull) => match asked_of(view, pull) {
            ActionabilityModel::Dormant(why) => cancelled_for(why),
            ActionabilityModel::Inactive(why) => cancelled_for(why),
            ActionabilityModel::Actionable(reason) => if pull.base_sha != fetch.base_oid {
                deferred(
                    "pull request base changed while its revisions were being fetched"@,
                    MOVED_DELAY,
                )
            } else if outdated(action, pull, reason) {
                cancelled_for("pull request changed while its revisions were being fetched"@)
            } else {
                match current {
                    None => cancelled_for("repository was unregistered during preparation"@),
                    Some(now) => if !paths_equal(
                        now.repository.local_path,
                        registration.repository.local_path,
                    ) {
                        deferred("registered repository path changed during preparation"@, 0)
                    } else {
                        StepModel::Ask(
                            StageModel::Running,
                            RequestModel::Run {
                                root: local.worktree_root,
                                envelope: final_envelope(action, registration, local, pull),
                            },
                        )
                    },
                }
            },
        },
    }
}

pub open spec fn after_ran(answer: Result<OutcomeModel, RunnerErrorModel>) -> StepModel {
    match answer {
        Ok(OutcomeModel::Succeeded) => StepModel::End(VerdictModel::Complete),
        Ok(OutcomeModel::Failed { code, status }) => StepModel::End(
            VerdictModel::Fail("review command exited with "@ + status),
        ),
        Ok(OutcomeModel::TimedOut) => StepModel::End(
            VerdictModel::Fail("review command timed out"@),
        ),
        Ok(OutcomeModel::Cancelled) => deferred(
            "daemon lease was lost while review command was running"@,
            0,
        ),
        Err(error) => StepModel::End(VerdictModel::Fail(error.text())),
    }
}

/// What follows an event in the preparation of an action. `cancelled` says that
/// the daemon may no longer act.
pub open spec fn step(
    view: ViewpointModel,
    action: ActionModel,
    registration: RegistrationModel,
    stage: StageModel,
    event: EventModel,
    cancelled: bool,
) -> StepModel {
    match (stage, event) {
        (StageModel::Reading, EventModel::Pull(answer)) => after_pull(
            view,
            action,
            registration,
            answer,
            cancelled,
        ),
        (StageModel::Locating { pull }, EventModel::Located(answer)) => after_located(
            registration,
            pull,
            answer,
            cancelled,
        ),
        (StageModel::Comparing { pull, local }, EventModel::Resolved(answer)) => after_resolved(
            pull,
            local,
            answer,
        ),
        (StageModel::Identifying { pull, local }, EventModel::Identified(answer)) =>
            after_identified(action, pull, local, answer, cancelled),
        (StageModel::Fetching { local, fetch }, EventModel::Fetched(answer)) => after_fetched(
            action,
            registration,
            local,
            fetch,
            answer,
            cancelled,
        ),
        (StageModel::Rereading { local, fetch }, EventModel::PullAgain(answer, current)) =>
            after_pull_again(view, action, registration, local, fetch, answer, current),
        (StageModel::Running, EventModel::Ran(answer)) => after_ran(answer),
        _ => cancelled_for(""@),
    }
}

// ---------------------------------------------------------------------------
// Steps
// ---------------------------------------------------------------------------

fn end_deferred(error: String, seconds: u64) -> (r: Step)
    ensures
        r@ == deferred(error@, seconds),
{
    Step::End(Verdict::Defer { error, delay: Duration::from_secs(seconds) })
}

fn end_cancelled(reason: &str) -> (r: Step)
    ensures
        r@ == cancelled_for(reason@),
{
    Step::End(Verdict::Cancel(reason.to_owned()))
}

fn end_unread(error: GhError) -> (r: Step)
    ensures
        r@ == unread(error@),
{
    if error.has_status(404) {
        end_cancelled("pull request no longer exists")
    } else {
        end_deferred(error.message(), FAILURE_DELAY)
    }
}

fn is_outdated(action: &ReviewAction, pull: &PullRequestState, reason: ActionReason) -> (r: bool)
    ensures
        r == outdated(action@, pull@, reason),
{
    if pull.id != action.pull_request_id {
        return true;
    }
    if !str_eq(pull.head_sha.as_str(), action.head_sha.as_str()) {
        return true;
    }
    if reason != action.envelope.reason {
        return true;
    }
    if reason == ActionReason::HeadChangedAfterChangesRequested {
        match &pull.latest_review {
            Some(review) => !str_eq(
                action.trigger_key.as_str(),
                key_review(review.id).as_str(),
            ),
            None => false,
        }
    } else {
        match &pull.latest_request {
            Some(request) => !str_eq(
                request.event_id.as_str(),
                action.envelope.request.event_id.as_str(),
            ),
            None => false,
        }
    }
}

fn make_envelope(
    action: &ReviewAction,
    registration: &RegisteredRepositoryRecord,
    local: &LocalRepository,
    pull: &PullRequestState,
) -> (r: ReviewEnvelope)
    ensures
        r@ == final_envelope(action@, registration@, local@, pull@),
{
    let first = &action.envelope;
    let (kind, event_id) = match &pull.latest_request {
        Some(request) => (request_kind(request.kind).to_owned(), request.event_id.clone()),
        None => (first.request.kind.clone(), first.request.event_id.clone()),
    };
    ReviewEnvelope {
        schema_version: first.schema_version,
        reason: first.reason,
        viewer: first.viewer.clone(),
        repository: EnvelopeRepository {
            id: first.repository.id,
            full_name: registration.repository.repository.full_name.clone(),
            local_path: local.worktree_root.clone(),
        },
        request: EnvelopeRequest { kind, event_id },
        pull_request: EnvelopePullRequest {
            id: first.pull_request.id,
            number: first.pull_request.number,
            url: pull.url.clone(),
            title: pull.title.clone(),
            author: pull.author.clone(),
            head_sha: pull.head_sha.clone(),
            base_sha: pull.base_sha.clone(),
            base_ref: pull.base_ref.clone(),
            head_ref: pull.head_ref.clone(),
        },
        review: opt_review_clone(&pull.latest_review),
        notification: first.notification.clone(),
    }
}

fn make_fetch(pull: &PullRequestState) -> (r: FetchSpec)
    ensures
        fetch_model(r) == fetch_of(pull@),
{
    FetchSpec {
        pull_number: pull.number,
        base_ref: pull.base_ref.clone(),
        expected_base_oid: pull.base_sha.clone(),
        expected_head_oid: pull.head_sha.clone(),
    }
}

fn evaluate(view: &Viewpoint, pull: &PullRequestState) -> (r: Actionability)
    ensures
        r@ == asked_of(view@, pull@),
{
    classify_actionability(
        &view.viewer,
        effective_teams(view.trust, &view.team_ids, pull).as_slice(),
        pull,
    )
}

/// The first step of a preparation.
pub open spec fn begun(action: ActionModel, registration: Option<RegistrationModel>) -> StepModel {
    match registration {
        None => cancelled_for("repository is no longer registered"@),
        Some(found) => StepModel::Ask(
            StageModel::Reading,
            RequestModel::ReadPull {
                full_name: found.repository.repository.full_name,
                number: action.pull_request_number,
            },
        ),
    }
}

/// Begins to prepare an action. Without a registration it is cancelled.
pub fn prepare(action: ReviewAction, registration: Option<RegisteredRepositoryRecord>) -> (r: Step)
    ensures
        r@ == begun(action@, opt_model(registration)),
        match registration {
            None => r@ == cancelled_for("repository is no longer registered"@),
            Some(found) => r@ == StepModel::Ask(
                StageModel::Reading,
                RequestModel::ReadPull {
                    full_name: found@.repository.repository.full_name,
                    number: action.pull_request_number,
                },
            ) && (r matches Step::Ask(next, _) && next.action == action && next.registration
                == found),
        },
{
    match registration {
        None => end_cancelled("repository is no longer registered"),
        Some(registration) => {
            let full_name = registration.repository.repository.full_name.clone();
            let number = action.pull_request_number;
            Step::Ask(
                Preparation { action, registration, stage: Stage::Reading },
                Request::ReadPull { full_name, number },
            )
        },
    }
}

fn ask(
    action: ReviewAction,
    registration: RegisteredRepositoryRecord,
    stage: Stage,
    request: Request,
) -> (r: Step)
    ensures
        r@ == StepModel::Ask(stage@, request@),
        r matches Step::Ask(next, _) && next.action == action && next.registration == registration,
{
    Step::Ask(Preparation { action, registration, stage }, request)
}

impl Preparation {
    /// What follows an event. `cancelled` says that the daemon may no longer
    /// act, because it lost its lease or was told to abort.
    pub fn advance(self, view: &Viewpoint, event: Event, cancelled: bool) -> (r: Step)
        requires
            expects(self.stage@, event@),
        ensures
            r@ == step(
                view@,
                self.action@,
                self.registration@,
                self.stage@,
                event@,
                cancelled,
            ),
            r matches Step::Ask(next, _) ==> next.action == self.action && next.registration
                == self.registration,
    {
        let Preparation { action, registration, stage } = self;
        match (stage, event) {
            (Stage::Reading, Event::Pull(answer)) => {
                let pull = match answer {
                    Ok(pull) => pull,
                    Err(error) => {
                        return end_unread(error);
                    },
                };
                let reason = match evaluate(view, &pull) {
                    Actionability::Actionable(reason) => reason,
                    Actionability::Dormant(why) => {
                        return end_cancelled(why);
                    },
                    Actionability::Inactive(why) => {
                        return end_cancelled(why);
                    },
                };
                if is_outdated(&action, &pull, reason) {
                    return end_cancelled("pull request changed after this action was queued");
                }
                if cancelled {
                    return end_deferred("daemon lease was lost".to_owned(), 0);
                }
                let path = registration.repository.local_path.clone();
                ask(
                    action,
                    registration,
                    Stage::Locating { pull },
                    Request::Locate { path },
                )
            },
            (Stage::Locating { pull }, Event::Located(answer)) => {
                let local = match answer {
                    Ok(local) => local,
                    Err(error) => {
                        return end_deferred(error.message(), CLONE_DELAY);
                    },
                };
                if cancelled {
                    return end_deferred("daemon lease was lost".to_owned(), 0);
                }
                let expected = registration.repository.local_path.clone();
                let actual = local.worktree_root.clone();
                ask(
                    action,
                    registration,
                    Stage::Comparing { pull, local },
                    Request::Resolve { expected, actual },
                )
            },
            (Stage::Comparing { pull, local }, Event::Resolved(answer)) => {
                let (expected, actual) = match answer {
                    Ok(paths) => paths,
                    Err(error) => {
                        return end_deferred(error, FAILURE_DELAY);
                    },
                };
                if !path_eq(expected.as_str(), actual.as_str()) {
                    let error = GitError::WorktreeMismatch { expected, actual };
                    return end_deferred(error.message(), CLONE_DELAY);
                }
                let full_name = local.origin.full_name();
                ask(
                    action,
                    registration,
                    Stage::Identifying { pull, local },
                    Request::Identify { full_name },
                )
            },
            (Stage::Identifying { pull, local }, Event::Identified(answer)) => {
                let repository = match answer {
                    Ok(repository) => repository,
                    Err(error) => {
                        return end_deferred(error.message(), FAILURE_DELAY);
                    },
                };
                if cancelled {
                    return end_deferred("daemon lease was lost".to_owned(), 0);
                }
                if repository.id != action.repository_id {
                    return end_deferred(
                        "registered path now points at a different GitHub repository".to_owned(),
                        CLONE_DELAY,
                    );
                }
                let root = local.worktree_root.clone();
                let fetch = make_fetch(&pull);
                let asked = fetch.clone();
                ask(
                    action,
                    registration,
                    Stage::Fetching { local, fetch },
                    Request::Fetch { root, fetch: asked },
                )
            },
            (Stage::Fetching { local, fetch }, Event::Fetched(answer)) => {
                if let Err(error) = answer {
                    let seconds: u64 = match &error {
                        GitError::Cancelled { operation: _ } => 0,
                        GitError::StaleRevision { kind: _, expected: _, fetched: _ } => MOVED_DELAY,
                        _ => FAILURE_DELAY,
                    };
                    return end_deferred(error.message(), seconds);
                }
                if cancelled {
                    return end_deferred(
                        "daemon lease was lost while preparing the review command".to_owned(),
                        0,
                    );
                }
                let full_name = registration.repository.repository.full_name.clone();
                let number = action.pull_request_number;
                ask(
                    action,
                    registration,
                    Stage::Rereading { local, fetch },
                    Request::ReadPull { full_name, number },
                )
            },
            (Stage::Rereading { local, fetch }, Event::PullAgain(answer, current)) => {
                let pull = match answer {
                    Ok(pull) => pull,
                    Err(error) => {
                        return end_unread(error);
                    },
                };
                let reason = match evaluate(view, &pull) {
                    Actionability::Actionable(reason) => reason,
                    Actionability::Dormant(why) => {
                        return end_cancelled(why);
                    },
                    Actionability::Inactive(why) => {
                        return end_cancelled(why);
                    },
                };
                if !str_eq(pull.base_sha.as_str(), fetch.expected_base_oid.as_str()) {
                    return end_deferred(
                        "pull request base changed while its revisions were being fetched".to_owned(),
                        MOVED_DELAY,
                    );
                }
                if is_outdated(&action, &pull, reason) {
                    return end_cancelled(
                        "pull request changed while its revisions were being fetched",
                    );
                }
                let current = match current {
                    Some(current) => current,
                    None => {
                        return end_cancelled("repository was unregistered during preparation");
                    },
                };
                if !path_eq(
                    current.repository.local_path.as_str(),
                    registration.repository.local_path.as_str(),
                ) {
                    return end_deferred(
                        "registered repository path changed during preparation".to_owned(),
                        0,
                    );
                }
                let envelope = make_envelope(&action, &registration, &local, &pull);
                ask(
                    action,
                    registration,
                    Stage::Running,
                    Request::Run { root: local.worktree_root, envelope },
                )
            },
            (Stage::Running, Event::Ran(answer)) => match answer {
                Ok(RunOutcome::Succeeded) => Step::End(Verdict::Complete),
                Ok(RunOutcome::Failed { code: _, status }) => {
                    let mut error = "review command exited with ".to_owned();
                    error.append(status.as_str());
                    Step::End(Verdict::Fail(error))
                },
                Ok(RunOutcome::TimedOut) => Step::End(
                    Verdict::Fail("review command timed out".to_owned()),
                ),
                Ok(RunOutcome::Cancelled) => end_deferred(
                    "daemon lease was lost while review command was running".to_owned(),
                    0,
                ),
                Err(error) => Step::End(Verdict::Fail(error.message())),
            },
            _ => end_cancelled(""),
        }
    }
}

// ---------------------------------------------------------------------------
// Verdicts
// ---------------------------------------------------------------------------

/// The longest delay of a verdict leads to an instant that has a date.
pub open spec fn verdict_has_date(verdict: VerdictModel, attempts: u32, now: Timestamp) -> bool {
    match verdict {
        VerdictModel::Defer { delay, .. } => delay.wf() && has_date(millis_after(now, delay)),
        VerdictModel::Fail(_) => has_date(
            millis_after(now, failure_delay(attempts, failure_spread(attempts))),
        ),
        _ => true,
    }
}

/// The state after a verdict on an action, where chance does not decide.
pub open spec fn settled(state: State, id: i64, verdict: VerdictModel, now: Timestamp) -> State {
    let millis = now.in_millis() as i64;
    match verdict {
        VerdictModel::Cancel(reason) => state.cancel_action(id, reason, millis),
        VerdictModel::Defer { error, delay } => state.defer_action(
            id,
            error,
            millis_after(now, delay) as i64,
            millis,
        ),
        VerdictModel::Complete => state.complete_action(id, millis),
        VerdictModel::Fail(_) => state,
    }
}

/// The verdict was carried out with `after` and `r`. Chance decides how long a command
/// that failed waits.
pub open spec fn settles(
    state: State,
    id: i64,
    attempts: u32,
    verdict: VerdictModel,
    now: Timestamp,
    after: State,
    r: Option<ActionStatus>,
) -> bool {
    match verdict {
        VerdictModel::Fail(error) => exists|jitter: u64|
            jitter <= failure_spread(attempts) && (after, r) == state.fail_action(
                id,
                error,
                (#[trigger] millis_after(now, failure_delay(attempts, jitter))) as i64,
                now.in_millis() as i64,
            ),
        other => r is None && after == settled(state, id, other, now),
    }
}

/// Carries out a verdict on an action. For a command that failed it says what
/// became of the action.
pub fn settle(db: &mut Database, action: &ReviewAction, verdict: &Verdict, now: Timestamp) -> (r:
    Option<ActionStatus>)
    requires
        now.wf(),
        now.nanos < NANOS_PER_SECOND,
        verdict_has_date(verdict@, action.attempts, now),
    ensures
        settles(
            old(db)@,
            action.id,
            action.attempts,
            verdict@,
            now,
            final(db)@,
            r,
        ),
        match verdict@ {
            VerdictModel::Fail(error) => exists|jitter: u64|
                jitter <= failure_spread(action.attempts) && (final(db)@, r)
                    == old(db)@.fail_action(
                    action.id,
                    error,
                    (#[trigger] millis_after(now, failure_delay(action.attempts, jitter))) as i64,
                    now.in_millis() as i64,
                ),
            other => r is None && final(db)@ == settled(old(db)@, action.id, other, now),
        },
{
    let millis = now.millis();
    match verdict {
        Verdict::Cancel(reason) => {
            let _ = db.cancel_action(action.id, reason.as_str(), millis);
            None
        },
        Verdict::Defer { error, delay } => {
            let retry_at: i64 = match after(now, *delay) {
                Some(retry_at) => retry_at,
                None => millis,
            };
            let _ = db.defer_action(action.id, error.as_str(), retry_at, millis);
            None
        },
        Verdict::Complete => {
            let _ = db.complete_action(action.id, millis);
            None
        },
        Verdict::Fail(error) => record_command_failure(db, action, error.as_str(), now),
    }
}

// ---------------------------------------------------------------------------
// Laws
// ---------------------------------------------------------------------------

/// What a stage holds of the action: what is fetched is the head of the action.
pub open spec fn stage_fits(action: ActionModel, stage: StageModel) -> bool {
    match stage {
        StageModel::Locating { pull } => pull.head_sha == action.head_sha,
        StageModel::Comparing { pull, .. } => pull.head_sha == action.head_sha,
        StageModel::Identifying { pull, .. } => pull.head_sha == action.head_sha,
        StageModel::Fetching { fetch, .. } => fetch.head_oid == action.head_sha,
        StageModel::Rereading { fetch, .. } => fetch.head_oid == action.head_sha,
        _ => true,
    }
}

/// Every step keeps that what is fetched is the head of the action.
pub proof fn steps_keep_the_head(
    view: ViewpointModel,
    action: ActionModel,
    registration: RegistrationModel,
    stage: StageModel,
    event: EventModel,
    cancelled: bool,
)
    requires
        stage_fits(action, stage),
        expects(stage, event),
    ensures
        step(view, action, registration, stage, event, cancelled) matches StepModel::Ask(next, _)
            ==> stage_fits(action, next),
{
}

/// A command runs only after the revisions were fetched and the pull request
/// was read again: it is told the very base and head that were fetched, the head
/// is that of the action, and the pull request still asks for the review.
pub proof fn command_runs_on_fetched_revisions(
    view: ViewpointModel,
    action: ActionModel,
    registration: RegistrationModel,
    stage: StageModel,
    event: EventModel,
    cancelled: bool,
)
    requires
        stage_fits(action, stage),
        expects(stage, event),
    ensures
        step(view, action, registration, stage, event, cancelled) matches StepModel::Ask(
            _,
            RequestModel::Run { root, envelope },
        ) ==> {
            &&& stage matches StageModel::Rereading { local, fetch } && {
                &&& root == local.worktree_root
                &&& envelope.local_path == root
                &&& envelope.pull_request.base_sha == fetch.base_oid
                &&& envelope.pull_request.head_sha == fetch.head_oid
            }
            &&& envelope.pull_request.head_sha == action.head_sha
            &&& event matches EventModel::PullAgain(Ok(pull), Some(_)) && asked_of(view, pull)
                == ActionabilityModel::Actionable(action.envelope.reason)
        },
{
}

/// The second read follows a fetch that verified both revisions, and nothing
/// else.
pub proof fn second_read_follows_the_fetch(
    view: ViewpointModel,
    action: ActionModel,
    registration: RegistrationModel,
    stage: StageModel,
    event: EventModel,
    cancelled: bool,
    local: LocalModel,
    fetch: FetchModel,
)
    requires
        expects(stage, event),
        step(view, action, registration, stage, event, cancelled) matches StepModel::Ask(
            StageModel::Rereading { local: l, fetch: f },
            _,
        ) && l == local && f == fetch,
    ensures
        stage == (StageModel::Fetching { local, fetch }),
        event matches EventModel::Fetched(Ok(_)),
        !cancelled,
{
}

/// An attempt counts only where the command ran: whatever fails before defers
/// or cancels the action.
pub proof fn only_commands_cost_attempts(
    view: ViewpointModel,
    action: ActionModel,
    registration: RegistrationModel,
    stage: StageModel,
    event: EventModel,
    cancelled: bool,
)
    requires
        expects(stage, event),
    ensures
        step(view, action, registration, stage, event, cancelled) matches StepModel::End(verdict)
            ==> (verdict is Fail || verdict is Complete ==> stage is Running),
{
}

/// Nothing is fetched for a daemon that may no longer act, and no clone is
/// looked for.
pub proof fn cancelled_daemons_do_not_fetch(
    view: ViewpointModel,
    action: ActionModel,
    registration: RegistrationModel,
    stage: StageModel,
    event: EventModel,
)
    requires
        expects(stage, event),
    ensures
        step(view, action, registration, stage, event, true) matches StepModel::Ask(_, request)
            ==> !(request is Fetch) && !(request is Locate),
{
}

} // verus!
