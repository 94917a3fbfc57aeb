//! What the daemon does, told by what it reads and what it leaves.

use vstd::prelude::*;
use crate::daemon::prepare::{
    expects, settled, step, EventModel, FetchModel, RequestModel, StageModel, StepModel,
    VerdictModel, ViewpointModel,
};
use crate::daemon::refresh::{action_of, depth_of, quarter, taken_in, with_core, Depth};
use crate::db::rows::{
    ActionModel, ActionStatus, DbError, EnqueueResult, RegistrationModel, TrackedModel,
};
use crate::db::State;
use crate::git::steps::LocalModel;
use crate::git::GitErrorModel;
use crate::github::pulls::PullResponseModel;
use crate::github::GhErrorModel;
use crate::model::{
    classify, ActionReason, ActionabilityModel, PullModel, RepositoryModel, ReviewRequestKind,
    ReviewState, ViewerModel,
};
use crate::number::int_text;
use crate::paths::paths_equal;
use crate::runner::{OutcomeModel, RunnerErrorModel};
use crate::time::{Duration, Timestamp};

verus! {

// ---------------------------------------------------------------------------
// Preparing a review
// ---------------------------------------------------------------------------

/// The teams whose requests count as made to the viewer.
pub open spec fn counted_teams(view: ViewpointModel, pull: PullModel) -> Seq<i64> {
    if view.trust {
        pull.requested_team_ids
    } else {
        view.team_ids
    }
}

/// A pull request still asks for the review that an action was queued for: for the
/// same reason, with the same head, and by the same review or event, as far as one
/// is known.
pub open spec fn still_asks(view: ViewpointModel, action: ActionModel, pull: PullModel) -> bool {
    &&& classify(view.viewer.id, counted_teams(view, pull), pull) == ActionabilityModel::Actionable(
        action.envelope.reason,
    )
    &&& pull.id == action.pull_request_id
    &&& pull.head_sha == action.head_sha
    &&& if action.envelope.reason == ActionReason::HeadChangedAfterChangesRequested {
        pull.latest_review matches Some(review) ==> action.trigger_key == "review:"@ + int_text(
            review.id as int,
        )
    } else {
        pull.latest_request matches Some(request) ==> request.event_id
            == action.envelope.request_event_id
    }
}

/// The command runs after the second read exactly where the pull request still asks
/// for the review, its base is the one that was fetched, and its repository is
/// registered at the same path.
pub proof fn command_runs_exactly_when_asked(
    view: ViewpointModel,
    action: ActionModel,
    registration: RegistrationModel,
    local: LocalModel,
    fetch: FetchModel,
    pull: PullModel,
    current: Option<RegistrationModel>,
    cancelled: bool,
)
    ensures
        step(
            view,
            action,
            registration,
            StageModel::Rereading { local, fetch },
            EventModel::PullAgain(Ok(pull), current),
            cancelled,
        ) matches StepModel::Ask(_, RequestModel::Run { .. }) <==> {
            &&& still_asks(view, action, pull)
            &&& pull.base_sha == fetch.base_oid
            &&& current matches Some(now) && paths_equal(
                now.repository.local_path,
                registration.repository.local_path,
            )
        },
{
}

/// The command is told what the second read gave: the address, the title, the
/// author, the branches and the revisions of the pull request, and the viewer's
/// review. The repository has its registered name and lies where the command runs.
/// The latest request is named, or else the one that the action was queued for. The
/// rest is as it was queued.
pub proof fn command_is_told_the_second_read(
    view: ViewpointModel,
    action: ActionModel,
    registration: RegistrationModel,
    local: LocalModel,
    fetch: FetchModel,
    pull: PullModel,
    current: Option<RegistrationModel>,
    cancelled: bool,
)
    ensures
        step(
            view,
            action,
            registration,
            StageModel::Rereading { local, fetch },
            EventModel::PullAgain(Ok(pull), current),
            cancelled,
        ) matches StepModel::Ask(stage, RequestModel::Run { root, envelope }) ==> {
            let told = envelope.pull_request;
            let queued = action.envelope;
            &&& stage is Running
            &&& root == local.worktree_root
            &&& told.url == pull.url
            &&& told.title == pull.title
            &&& told.author == pull.author
            &&& told.head_sha == pull.head_sha
            &&& told.head_ref == pull.head_ref
            &&& told.base_sha == pull.base_sha
            &&& told.base_ref == pull.base_ref
            &&& told.head_sha == action.head_sha
            &&& told.base_sha == fetch.base_oid
            &&& told.id == queued.pull_request.id
            &&& told.number == queued.pull_request.number
            &&& envelope.review == pull.latest_review
            &&& envelope.local_path == local.worktree_root
            &&& envelope.repository_full_name == registration.repository.repository.full_name
            &&& envelope.repository_id == queued.repository_id
            &&& envelope.reason == queued.reason
            &&& envelope.viewer == queued.viewer
            &&& envelope.schema_version == queued.schema_version
            &&& envelope.notification == queued.notification
            &&& match pull.latest_request {
                Some(request) => envelope.request_event_id == request.event_id
                    && envelope.request_kind == match request.kind {
                    ReviewRequestKind::User => "user"@,
                    ReviewRequestKind::Team => "team"@,
                },
                None => envelope.request_event_id == queued.request_event_id
                    && envelope.request_kind == queued.request_kind,
            }
        },
{
}

/// The command is never asked for in any other stage, and never asked for twice.
pub proof fn command_follows_the_second_read_only(
    view: ViewpointModel,
    action: ActionModel,
    registration: RegistrationModel,
    stage: StageModel,
    event: EventModel,
    cancelled: bool,
)
    requires
        expects(stage, event),
        !(stage is Rereading),
    ensures
        !(step(view, action, registration, stage, event, cancelled) matches StepModel::Ask(
            _,
            RequestModel::Run { .. },
        )),
{
}

/// A preparation begins only where the pull request still asks for the review and the
/// daemon may act: the clone at the registered path is looked at.
pub proof fn preparation_needs_a_current_request(
    view: ViewpointModel,
    action: ActionModel,
    registration: RegistrationModel,
    pull: PullModel,
    cancelled: bool,
)
    ensures
        ({
            let next = step(
                view,
                action,
                registration,
                StageModel::Reading,
                EventModel::Pull(Ok(pull)),
                cancelled,
            );
            &&& next is Ask <==> still_asks(view, action, pull) && !cancelled
            &&& next is Ask ==> next == StepModel::Ask(
                StageModel::Locating { pull },
                RequestModel::Locate { path: registration.repository.local_path },
            )
            &&& next is End && still_asks(view, action, pull) ==> next == StepModel::End(
                VerdictModel::Defer {
                    error: "daemon lease was lost"@,
                    delay: Duration { seconds: 0, nanos: 0 },
                },
            )
            &&& !still_asks(view, action, pull) ==> (next matches StepModel::End(verdict)
                && verdict is Cancel)
        }),
{
}

/// A pull request that does not ask for a review is given up with what it says; one
/// that GitHub does not have is given up; any other failure to read it is tried
/// again in a minute. This holds of both reads.
pub proof fn unasked_actions_are_given_up(
    view: ViewpointModel,
    action: ActionModel,
    registration: RegistrationModel,
    local: LocalModel,
    fetch: FetchModel,
    answer: Result<PullModel, GhErrorModel>,
    current: Option<RegistrationModel>,
    cancelled: bool,
)
    ensures
        ({
            let first = step(
                view,
                action,
                registration,
                StageModel::Reading,
                EventModel::Pull(answer),
                cancelled,
            );
            let second = step(
                view,
                action,
                registration,
                StageModel::Rereading { local, fetch },
                EventModel::PullAgain(answer, current),
                cancelled,
            );
            match answer {
                Ok(pull) => match classify(view.viewer.id, counted_teams(view, pull), pull) {
                    ActionabilityModel::Dormant(why) => first == StepModel::End(
                        VerdictModel::Cancel(why),
                    ) && second == first,
                    ActionabilityModel::Inactive(why) => first == StepModel::End(
                        VerdictModel::Cancel(why),
                    ) && second == first,
                    _ => true,
                },
                Err(GhErrorModel::Status { endpoint, metadata, body, stderr }) => second == first
                    && if metadata.status == 404 {
                    first == StepModel::End(
                        VerdictModel::Cancel("pull request no longer exists"@),
                    )
                } else {
                    first matches StepModel::End(VerdictModel::Defer { error, delay })
                        && delay.seconds == 60 && delay.nanos == 0
                },
                Err(other) => second == first && (first matches StepModel::End(
                    VerdictModel::Defer { error, delay },
                ) && error == other.text() && delay.seconds == 60 && delay.nanos == 0),
            }
        }),
{
}

/// After the second read, a base that moved is tried again in five seconds; a pull
/// request that changed otherwise is given up, and so is one whose repository was
/// unregistered; one whose clone moved is tried again at once.
pub proof fn changes_during_the_fetch_are_noticed(
    view: ViewpointModel,
    action: ActionModel,
    registration: RegistrationModel,
    local: LocalModel,
    fetch: FetchModel,
    pull: PullModel,
    current: Option<RegistrationModel>,
    cancelled: bool,
)
    requires
        classify(view.viewer.id, counted_teams(view, pull), pull) is Actionable,
    ensures
        ({
            let next = step(
                view,
                action,
                registration,
                StageModel::Rereading { local, fetch },
                EventModel::PullAgain(Ok(pull), current),
                cancelled,
            );
            &&& pull.base_sha != fetch.base_oid ==> next == StepModel::End(
                VerdictModel::Defer {
                    error: "pull request base changed while its revisions were being fetched"@,
                    delay: Duration { seconds: 5, nanos: 0 },
                },
            )
            &&& pull.base_sha == fetch.base_oid && !still_asks(view, action, pull) ==> next
                == StepModel::End(
                VerdictModel::Cancel(
                    "pull request changed while its revisions were being fetched"@,
                ),
            )
            &&& pull.base_sha == fetch.base_oid && still_asks(view, action, pull) && current is None
                ==> next == StepModel::End(
                VerdictModel::Cancel("repository was unregistered during preparation"@),
            )
            &&& pull.base_sha == fetch.base_oid && still_asks(view, action, pull) && (
            current matches Some(now) && !paths_equal(
                now.repository.local_path,
                registration.repository.local_path,
            )) ==> next == StepModel::End(
                VerdictModel::Defer {
                    error: "registered repository path changed during preparation"@,
                    delay: Duration { seconds: 0, nanos: 0 },
                },
            )
        }),
{
}

/// The clone is fetched into only where it lies at the registered path and belongs to
/// the repository of the action. What is fetched are the base branch and the two
/// revisions of the first read.
pub proof fn only_the_right_clone_is_fetched_into(
    view: ViewpointModel,
    action: ActionModel,
    registration: RegistrationModel,
    pull: PullModel,
    local: LocalModel,
    expected: Seq<char>,
    actual: Seq<char>,
    repository: RepositoryModel,
    cancelled: bool,
)
    ensures
        ({
            let located = step(
                view,
                action,
                registration,
                StageModel::Locating { pull },
                EventModel::Located(Ok(local)),
                cancelled,
            );
            let resolved = step(
                view,
                action,
                registration,
                StageModel::Comparing { pull, local },
                EventModel::Resolved(Ok((expected, actual))),
                cancelled,
            );
            let identified = step(
                view,
                action,
                registration,
                StageModel::Identifying { pull, local },
                EventModel::Identified(Ok(repository)),
                cancelled,
            );
            &&& located is Ask <==> !cancelled
            &&& located is Ask ==> located == StepModel::Ask(
                StageModel::Comparing { pull, local },
                RequestModel::Resolve {
                    expected: registration.repository.local_path,
                    actual: local.worktree_root,
                },
            )
            &&& resolved is Ask <==> paths_equal(expected, actual)
            &&& resolved is Ask ==> resolved == StepModel::Ask(
                StageModel::Identifying { pull, local },
                RequestModel::Identify { full_name: local.origin.name() },
            )
            &&& resolved is End ==> (resolved matches StepModel::End(
                VerdictModel::Defer { error, delay },
            ) && delay.seconds == 300)
            &&& identified is Ask <==> !cancelled && repository.id == action.repository_id
            &&& identified is Ask ==> (identified matches StepModel::Ask(
                StageModel::Fetching { local: into, fetch },
                RequestModel::Fetch { root, fetch: asked },
            ) && into == local && root == local.worktree_root && fetch == asked && fetch.pull_number
                == pull.number && fetch.base_ref == pull.base_ref && fetch.base_oid == pull.base_sha
                && fetch.head_oid == pull.head_sha)
            &&& identified is End && !cancelled ==> (identified matches StepModel::End(
                VerdictModel::Defer { error, delay },
            ) && delay.seconds == 300)
        }),
{
}

/// A clone that cannot be looked at is tried again in five minutes; a path that
/// cannot be resolved and a repository that GitHub does not give, in a minute.
pub proof fn failed_looks_are_tried_again(
    view: ViewpointModel,
    action: ActionModel,
    registration: RegistrationModel,
    pull: PullModel,
    local: LocalModel,
    unlocated: GitErrorModel,
    unresolved: Seq<char>,
    unidentified: GhErrorModel,
    cancelled: bool,
)
    ensures
        step(
            view,
            action,
            registration,
            StageModel::Locating { pull },
            EventModel::Located(Err(unlocated)),
            cancelled,
        ) == StepModel::End(
            VerdictModel::Defer {
                error: unlocated.text(),
                delay: Duration { seconds: 300, nanos: 0 },
            },
        ),
        step(
            view,
            action,
            registration,
            StageModel::Comparing { pull, local },
            EventModel::Resolved(Err(unresolved)),
            cancelled,
        ) == StepModel::End(
            VerdictModel::Defer { error: unresolved, delay: Duration { seconds: 60, nanos: 0 } },
        ),
        step(
            view,
            action,
            registration,
            StageModel::Identifying { pull, local },
            EventModel::Identified(Err(unidentified)),
            cancelled,
        ) == StepModel::End(
            VerdictModel::Defer {
                error: unidentified.text(),
                delay: Duration { seconds: 60, nanos: 0 },
            },
        ),
{
}

/// After the fetch the pull request is read again, where the daemon may still act. A
/// fetch that was stopped is tried again at once, one whose revisions moved in five
/// seconds, and any other failure in a minute.
pub proof fn fetches_are_followed_by_a_second_read(
    view: ViewpointModel,
    action: ActionModel,
    registration: RegistrationModel,
    local: LocalModel,
    fetch: FetchModel,
    answer: Result<(), GitErrorModel>,
    cancelled: bool,
)
    ensures
        ({
            let next = step(
                view,
                action,
                registration,
                StageModel::Fetching { local, fetch },
                EventModel::Fetched(answer),
                cancelled,
            );
            match answer {
                Ok(_) => if cancelled {
                    next matches StepModel::End(VerdictModel::Defer { error, delay })
                        && delay.seconds == 0 && delay.nanos == 0
                } else {
                    next == StepModel::Ask(
                        StageModel::Rereading { local, fetch },
                        RequestModel::ReadPull {
                            full_name: registration.repository.repository.full_name,
                            number: action.pull_request_number,
                        },
                    )
                },
                Err(failure) => next matches StepModel::End(VerdictModel::Defer { error, delay })
                    && error == failure.text() && delay.nanos == 0 && delay.seconds == (
                if failure is Cancelled {
                    0u64
                } else if failure is StaleRevision {
                    5
                } else {
                    60
                }),
            }
        }),
{
}

/// A command that succeeded completes its action; one that failed, timed out or could
/// not be run is a failed launch; one that was stopped with the daemon is tried again
/// at once.
pub proof fn commands_decide_their_action(
    view: ViewpointModel,
    action: ActionModel,
    registration: RegistrationModel,
    answer: Result<OutcomeModel, RunnerErrorModel>,
    cancelled: bool,
)
    ensures
        ({
            let next = step(
                view,
                action,
                registration,
                StageModel::Running,
                EventModel::Ran(answer),
                cancelled,
            );
            &&& next == StepModel::End(VerdictModel::Complete) <==> answer == Ok::<
                OutcomeModel,
                RunnerErrorModel,
            >(OutcomeModel::Succeeded)
            &&& (next matches StepModel::End(VerdictModel::Fail(_))) <==> answer is Err || (
            answer matches Ok(OutcomeModel::Failed { .. })) || answer == Ok::<
                OutcomeModel,
                RunnerErrorModel,
            >(OutcomeModel::TimedOut)
            &&& answer == Ok::<OutcomeModel, RunnerErrorModel>(OutcomeModel::Cancelled) ==> (
            next matches StepModel::End(VerdictModel::Defer { error, delay }) && delay.seconds == 0
                && delay.nanos == 0)
        }),
{
}

/// What is decided of an action is what happens to it, at the time of the decision; an
/// action that is deferred is due again after the delay.
pub proof fn verdicts_are_carried_out(
    state: State,
    id: i64,
    reason: Seq<char>,
    delay: Duration,
    now: Timestamp,
    i: int,
)
    requires
        0 <= i < state.actions.len(),
        state.actions[i].id == id,
        state.actions[i].status == ActionStatus::Running,
        -8_000_000_000_000 <= now.seconds <= 8_000_000_000_000,
        delay.seconds <= 1_000_000_000,
        delay.nanos < 1_000_000_000,
        now.nanos < 1_000_000_000,
    ensures
        ({
            let cancelled = settled(state, id, VerdictModel::Cancel(reason), now);
            let completed = settled(state, id, VerdictModel::Complete, now);
            let deferred = settled(state, id, VerdictModel::Defer { error: reason, delay }, now);
            let start = now.seconds * 1_000_000_000 + now.nanos;
            let due = deferred.actions[i].due_at;
            &&& cancelled.actions[i].status == ActionStatus::Cancelled
            &&& cancelled.actions[i].last_error == Some(reason)
            &&& completed.actions[i].status == ActionStatus::Succeeded
            &&& deferred.actions[i].status == ActionStatus::Pending
            &&& deferred.actions[i].last_error == Some(reason)
            &&& due * 1_000_000 <= start + delay.seconds * 1_000_000_000 + delay.nanos < (due + 1)
                * 1_000_000
            &&& completed.actions[i].updated_at * 1_000_000 <= start < (
            completed.actions[i].updated_at + 1) * 1_000_000
        }),
{
}

// ---------------------------------------------------------------------------
// Watching
// ---------------------------------------------------------------------------

/// A pull request is read in part only where it waits for changes and was read in the
/// same quarter of an hour.
pub proof fn full_reads_come_every_quarter(watched: TrackedModel, now: i64)
    ensures
        depth_of(watched, now) == Depth::Core <==> {
            &&& watched.pull_request.latest_review matches Some(review) && review.state
                == ReviewState::ChangesRequested
            &&& exists|q: int|
                #[trigger] quarter_of(q, watched.updated_at) && quarter_of(q, now)
        },
{
    if quarter(watched.updated_at) == quarter(now) {
        assert(quarter_of(quarter(now), watched.updated_at) && quarter_of(quarter(now), now));
    }
}

/// An instant lies in the quarter of an hour with the number `q`.
pub open spec fn quarter_of(q: int, millis: i64) -> bool {
    q * 900_000 <= millis < q * 900_000 + 900_000
}

/// A read in part renews the own fields of a pull request, and keeps what is known of
/// the requests and reviews.
pub proof fn core_reads_keep_requests_and_reviews(known: PullModel, core: PullResponseModel)
    ensures
        ({
            let fresh = with_core(known, core);
            &&& fresh.id == core.id
            &&& fresh.number == core.number
            &&& fresh.url == core.html_url
            &&& fresh.title == core.title
            &&& fresh.author == core.user
            &&& fresh.state == core.state
            &&& fresh.draft == core.draft
            &&& fresh.merged == core.merged
            &&& fresh.head_sha == core.head_sha
            &&& fresh.head_ref == core.head_ref
            &&& fresh.base_sha == core.base_sha
            &&& fresh.base_ref == core.base_ref
            &&& fresh.directly_requested == known.directly_requested
            &&& fresh.requested_team_ids == known.requested_team_ids
            &&& fresh.latest_review == known.latest_review
            &&& fresh.latest_request == known.latest_request
            &&& fresh.non_opinionated_review_after_request
                == known.non_opinionated_review_after_request
        }),
{
}

/// An action is queued for the head, the numbers and the name of the pull request that
/// was read, for its viewer, due at once. What marks it is the review whose changes
/// are awaited, or the event that asked.
pub proof fn actions_are_for_what_was_read(
    viewer: ViewerModel,
    registration: RegistrationModel,
    watched: TrackedModel,
    pull: PullModel,
    reason: ActionReason,
    now: i64,
)
    ensures
        ({
            let new = action_of(viewer, registration, watched, pull, reason, now);
            let envelope = new.envelope;
            let told = envelope.pull_request;
            &&& new.host == "github.com"@
            &&& new.viewer_id == viewer.id
            &&& new.repository_id == watched.repository_id
            &&& new.repository_full_name == registration.repository.repository.full_name
            &&& new.pull_request_id == pull.id
            &&& new.pull_request_number == pull.number
            &&& new.head_sha == pull.head_sha
            &&& new.reason == reason.text()
            &&& new.due_at == now
            &&& reason == ActionReason::HeadChangedAfterChangesRequested ==> (
            pull.latest_review matches Some(review) ==> new.trigger_key == "review:"@ + int_text(
                review.id as int,
            ))
            &&& reason != ActionReason::HeadChangedAfterChangesRequested ==> new.trigger_key
                == envelope.request_event_id
            &&& envelope.schema_version == 1
            &&& envelope.reason == reason
            &&& envelope.viewer == viewer
            &&& envelope.repository_id == watched.repository_id
            &&& envelope.repository_full_name == registration.repository.repository.full_name
            &&& envelope.local_path == registration.repository.local_path
            &&& envelope.review == pull.latest_review
            &&& envelope.notification == watched.notification
            &&& told.id == pull.id
            &&& told.number == pull.number
            &&& told.url == pull.url
            &&& told.title == pull.title
            &&& told.author == pull.author
            &&& told.head_sha == pull.head_sha
            &&& told.head_ref == pull.head_ref
            &&& told.base_sha == pull.base_sha
            &&& told.base_ref == pull.base_ref
            &&& match pull.latest_request {
                Some(request) => envelope.request_event_id == request.event_id
                    && envelope.request_kind == match request.kind {
                    ReviewRequestKind::User => "user"@,
                    ReviewRequestKind::Team => "team"@,
                },
                None => envelope.request_event_id == watched.notification_id + "@"@ + int_text(
                    watched.notification_updated_at as int,
                ) && envelope.request_kind == if pull.directly_requested {
                    "user"@
                } else {
                    "team"@
                },
            }
        }),
{
}

/// A pull request that was read is kept as it was read, under the name of its
/// registration, and is due again at the given time. It stays watched exactly where
/// it asks for a review, or waits for changes. An action is queued exactly where it
/// asks for a review.
pub proof fn reads_queue_what_is_asked_for(
    state: State,
    viewer: ViewerModel,
    teams: Seq<i64>,
    trust: bool,
    registration: RegistrationModel,
    watched: TrackedModel,
    pull: PullModel,
    next_check_at: i64,
    now: i64,
)
    ensures
        ({
            let asked = classify(
                viewer.id,
                if trust {
                    pull.requested_team_ids
                } else {
                    teams
                },
                pull,
            );
            let row = TrackedModel {
                repository_full_name: registration.repository.repository.full_name,
                pull_request: pull,
                active: asked is Actionable || (asked is Dormant && (
                pull.latest_review matches Some(review) && review.state
                    == ReviewState::ChangesRequested)),
                next_check_at,
                updated_at: now,
                ..watched
            };
            let (after, result) = taken_in(
                state,
                viewer,
                teams,
                trust,
                registration,
                watched,
                pull,
                next_check_at,
                now,
            );
            match state.upsert_tracked_pull_request(row) {
                Err(error) => after == state && result == Err::<Option<EnqueueResult>, DbError>(
                    error,
                ),
                Ok(stored) => {
                    &&& after == (State {
                        actions: after.actions,
                        last_action_id: after.last_action_id,
                        ..stored
                    })
                    &&& !(asked is Actionable) ==> after == stored && result == Ok::<
                        Option<EnqueueResult>,
                        DbError,
                    >(None)
                    &&& asked matches ActionabilityModel::Actionable(reason) ==> {
                        let queued = stored.enqueue_action(
                            action_of(viewer, registration, row, pull, reason, now),
                            now,
                        );
                        match queued {
                            Ok((next, done)) => after == next && result == Ok::<
                                Option<EnqueueResult>,
                                DbError,
                            >(Some(done)),
                            Err(error) => after == stored && result == Err::<
                                Option<EnqueueResult>,
                                DbError,
                            >(error),
                        }
                    }
                },
            }
        }),
{
}

} // verus!
