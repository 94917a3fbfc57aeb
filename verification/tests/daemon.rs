use github_reviews::cli::{Mode, PullRequestSelector};
use github_reviews::daemon::cycle::{
    bootstrap_due, commit_notification_poll, delay_cycle, dispatch_limit, end_daemon, heartbeat,
    keeps_running, lease_is_lost, lease_taken_message, next_high_water, next_sleep, next_stage,
    pause_after_bootstrap, read_mark, start_daemon, CycleStage, Heartbeat,
};
use github_reviews::daemon::discovery::{
    begin_discovery, check_delay, finish_discovery, registrations_waiting_for_next_cycle, Batch,
    Discovered, DiscoveryStep, Skip,
};
use github_reviews::daemon::prepare::{
    prepare, settle, Event, Preparation, Request, Step, Verdict, Viewpoint,
};
use github_reviews::daemon::refresh::{
    begin_refresh, core_author, finish_refresh, refresh_core, refresh_depth, Depth, RefreshRequest, RefreshStep,
    Refreshed, Refreshes,
};
use github_reviews::daemon::report::{
    registered_message, retry, state_path, status_report, unregistered_message,
};
use github_reviews::daemon::retry::{
    delay_discovery, fail_command, failure_seconds, is_rate_limited, lease_owner, name_owner,
    record_command_failure, retry_delay_for_gh_error,
};
use github_reviews::daemon::round::{Cycle, CycleAnswer, CycleRequest, Place};
use github_reviews::daemon::shutdown::{
    claim_review_for_processing, confirm_review, signal_effect, InProgressReview, ShutdownState,
    SignalEffect,
};
use github_reviews::daemon::{effective_teams, find_registration};
use github_reviews::db::rows::{
    ActionStatus, DiscoveryStatus, RegisteredRepositoryRecord, ReviewAction, TrackedPullRequest,
};
use github_reviews::db::Database;
use github_reviews::git::{GitError, GitHubOrigin, LocalRepository, RevisionKind};
use github_reviews::github::client::NotificationPoll;
use github_reviews::github::pulls::{PullResponse, PullRevision};
use github_reviews::github::{GhError, ResponseMetadata};
use github_reviews::model::{
    ActionReason, Notification, NotificationRepository, NotificationSubject, OpinionatedReview,
    PullRequestState, RegisteredRepository, RepositoryIdentity, ReviewRequestEvent,
    ReviewRequestKind, ReviewState, Viewer,
};
use github_reviews::runner::{RunOutcome, RunnerError};
use github_reviews::time::{Duration, Timestamp};

const NOW: i64 = 1_900_000_000;

fn now() -> Timestamp {
    Timestamp {
        seconds: NOW,
        nanos: 0,
    }
}

fn millis() -> i64 {
    NOW * 1000
}

fn seconds(seconds: u64) -> Duration {
    Duration { seconds, nanos: 0 }
}

fn me() -> Viewer {
    Viewer {
        id: 11,
        login: "me".into(),
    }
}

fn registration(id: i64, name: &str) -> RegisteredRepository {
    RegisteredRepository {
        repository: RepositoryIdentity {
            id,
            full_name: name.into(),
            html_url: format!("https://github.com/{name}"),
        },
        origin_url: format!("https://github.com/{name}"),
        local_path: "/work".into(),
        bootstrap_pending: true,
    }
}

fn notification(id: &str, url: Option<&str>) -> Notification {
    Notification {
        id: id.into(),
        reason: "review_requested".into(),
        unread: true,
        updated_at: Timestamp {
            seconds: 1_800_000_000,
            nanos: 0,
        },
        repository: NotificationRepository {
            id: 7,
            full_name: "acme/widgets".into(),
            extra: "{}".into(),
        },
        subject: NotificationSubject {
            title: "Review".into(),
            kind: "PullRequest".into(),
            url: url.map(str::to_owned),
            extra: "{}".into(),
        },
        extra: "{}".into(),
    }
}

fn pull() -> PullRequestState {
    PullRequestState {
        id: 70,
        number: 42,
        url: "https://github.com/acme/widgets/pull/42".into(),
        title: "Change".into(),
        author: Viewer {
            id: 22,
            login: "author".into(),
        },
        state: "open".into(),
        draft: false,
        merged: false,
        head_sha: "head".into(),
        head_ref: "feature".into(),
        base_sha: "base".into(),
        base_ref: "main".into(),
        directly_requested: true,
        requested_team_ids: vec![],
        latest_review: None,
        latest_request: None,
        non_opinionated_review_after_request: false,
    }
}

fn awaiting_changes(commit: &str) -> Option<OpinionatedReview> {
    Some(OpinionatedReview {
        id: 5,
        state: ReviewState::ChangesRequested,
        commit_sha: Some(commit.into()),
        submitted_at: None,
    })
}

fn watched(pull: PullRequestState) -> TrackedPullRequest {
    TrackedPullRequest {
        host: "github.com".into(),
        viewer_id: 11,
        repository_id: 7,
        repository_full_name: "acme/widgets".into(),
        pull_request: pull,
        notification_id: "100".into(),
        notification_updated_at: 50_000,
        notification: "{\"id\":\"100\"}".into(),
        active: true,
        next_check_at: millis(),
        updated_at: millis(),
    }
}

/// Tables with one registered repository.
fn tables() -> (Database, Vec<RegisteredRepositoryRecord>) {
    let mut db = Database::new();
    db.upsert_registration("github.com", &registration(7, "acme/widgets"), 1)
        .unwrap();
    let registrations = db.list_registrations();
    (db, registrations)
}

fn status(code: u16, metadata: ResponseMetadata, body: &str) -> GhError {
    GhError::Status {
        endpoint: "/test".into(),
        metadata: ResponseMetadata {
            status: code,
            ..metadata
        },
        body: body.into(),
        stderr: String::new(),
    }
}

fn plain(code: u16) -> GhError {
    status(code, ResponseMetadata::default(), "")
}

fn cancelled() -> GhError {
    GhError::Cancelled {
        endpoint: "graphql".into(),
    }
}

// ---------------------------------------------------------------------------
// Shutdown
// ---------------------------------------------------------------------------

#[test]
fn shutdown_wait_message_lists_in_progress_reviews_in_stable_order() {
    let mut shutdown = ShutdownState::default();
    shutdown.reviews.insert(
        2,
        InProgressReview {
            repository: "zeta/widgets".into(),
            pull: 9,
            title: "Second".into(),
        },
    );
    shutdown.reviews.insert(
        1,
        InProgressReview {
            repository: "acme/rockets".into(),
            pull: 42,
            title: "First".into(),
        },
    );

    assert_eq!(
        shutdown.waiting_message(),
        "waiting for 2 in-progress reviews to complete: acme/rockets#42 \"First\", zeta/widgets#9 \"Second\""
    );
}

#[test]
fn shutdown_wait_message_reports_zero_reviews() {
    assert_eq!(
        ShutdownState::default().waiting_message(),
        "waiting for 0 in-progress reviews to complete"
    );
}

#[test]
fn recognizes_secondary_rate_limit_from_error_body() {
    let error = GhError::Status {
        endpoint: "/test".into(),
        metadata: ResponseMetadata {
            status: 403,
            rate_limit_remaining: Some(100),
            ..Default::default()
        },
        body: r#"{"message":"You have exceeded a secondary rate limit."}"#.into(),
        stderr: String::new(),
    };
    assert!(is_rate_limited(&error));
}

#[test]
fn signals_stop_first_and_abort_then() {
    assert_eq!(signal_effect(0), SignalEffect::Stop);
    assert_eq!(signal_effect(1), SignalEffect::Abort);
    let (mut db, action) = queued();
    let mut shutdown = ShutdownState::default();
    assert!(confirm_review(&mut shutdown, &mut db, &action, 0, millis()));
    let told = shutdown.request_stop();
    assert_eq!(told.len(), 3);
    assert_eq!(
        told[2],
        "waiting for 1 in-progress reviews to complete: acme/widgets#42 \"Change\""
    );
    assert!(shutdown.ctrl_c_received);
    assert_eq!(
        shutdown.complete(action.id),
        vec![
            "review completed; 0 in-progress reviews remaining",
            "all reviews completed, quitting"
        ]
    );
    let mut idle = ShutdownState::default();
    assert!(idle.complete(1).is_empty());
    assert_eq!(
        idle.request_stop().last().map(String::as_str),
        Some("all reviews completed, quitting")
    );
}

#[test]
fn no_review_starts_after_a_signal() {
    let (mut db, action) = queued();
    let mut shutdown = ShutdownState::default();
    assert!(claim_review_for_processing(&mut db, 11, 1, 1, millis()).is_none());
    assert!(!confirm_review(&mut shutdown, &mut db, &action, 1, millis()));
    assert!(shutdown.reviews.is_empty());
    let row = db.get_action(action.id).unwrap();
    assert_eq!(row.status, ActionStatus::Pending);
    assert_eq!(row.attempts, 0);
    assert_eq!(
        row.last_error.as_deref(),
        Some("daemon shutdown requested before review started")
    );
}

// ---------------------------------------------------------------------------
// Retries
// ---------------------------------------------------------------------------

#[test]
fn rate_limits_are_recognized() {
    assert!(is_rate_limited(&plain(429)));
    assert!(!is_rate_limited(&plain(403)));
    assert!(is_rate_limited(&status(
        403,
        ResponseMetadata::default(),
        "ABUSE DETECTION"
    )));
    assert!(!is_rate_limited(&status(
        500,
        ResponseMetadata::default(),
        "secondary rate limit"
    )));
    let spent = ResponseMetadata {
        rate_limit_remaining: Some(0),
        rate_limit_reset: Some(NOW as u64 + 30),
        ..Default::default()
    };
    let error = status(403, spent, "");
    assert!(is_rate_limited(&error));
    assert_eq!(retry_delay_for_gh_error(&error, NOW), Some(seconds(30)));
    assert_eq!(retry_delay_for_gh_error(&error, NOW + 99), Some(seconds(0)));
    assert_eq!(
        retry_delay_for_gh_error(&error, -5),
        Some(seconds(NOW as u64 + 30))
    );
    let asked = ResponseMetadata {
        retry_after: Some(seconds(7)),
        ..Default::default()
    };
    let error = status(200, asked, "");
    assert!(is_rate_limited(&error));
    assert_eq!(retry_delay_for_gh_error(&error, NOW), Some(seconds(7)));
    assert_eq!(retry_delay_for_gh_error(&cancelled(), NOW), None);
    assert_eq!(retry_delay_for_gh_error(&plain(500), NOW), None);
}

#[test]
fn delays_double_up_to_a_limit() {
    let expected = [30, 30, 60, 120, 240, 480, 960, 960];
    for (attempts, delay) in expected.into_iter().enumerate() {
        assert_eq!(
            delay_discovery(&plain(500), attempts as u32, NOW),
            seconds(delay)
        );
    }
    assert_eq!(delay_discovery(&plain(500), u32::MAX, NOW), seconds(960));
    let failures = [(30, 7), (30, 7), (60, 13), (120, 25), (240, 49), (300, 61), (300, 61)];
    for (attempts, pair) in failures.into_iter().enumerate() {
        assert_eq!(failure_seconds(attempts as u32), pair);
    }
}

#[test]
fn failures_are_retried_after_a_random_delay() {
    let (mut db, action) = queued();
    assert_eq!(
        fail_command(&mut db, &action, "broken", 5, now()),
        Some(ActionStatus::Pending)
    );
    assert_eq!(db.get_action(action.id).unwrap().due_at, millis() + 35_000);

    let (mut db, action) = queued();
    assert_eq!(
        record_command_failure(&mut db, &action, "broken", now()),
        Some(ActionStatus::Pending)
    );
    let due_at = db.get_action(action.id).unwrap().due_at;
    assert!((millis() + 30_000..=millis() + 37_000).contains(&due_at));
}

#[test]
fn lease_owners_are_unique() {
    assert_eq!(name_owner(12, "x"), "12:x");
    let one = lease_owner(12);
    let other = lease_owner(12);
    assert!(one.starts_with("12:"));
    assert_eq!(one.len(), 3 + 36);
    assert_ne!(one, other);
}

// ---------------------------------------------------------------------------
// Discoveries
// ---------------------------------------------------------------------------

fn discovered(url: Option<&str>) -> (Database, Vec<RegisteredRepositoryRecord>) {
    let (mut db, registrations) = tables();
    db.upsert_notification(
        "github.com",
        11,
        &notification("100", url),
        "{\"id\":\"100\"}",
        2,
    );
    (db, registrations)
}

const PULL_URL: &str = "https://api.github.com/repos/old/name/pulls/42";

#[test]
fn discoveries_read_the_registered_repository() {
    let (mut db, registrations) = discovered(Some(PULL_URL));
    let Ok(DiscoveryStep::Read {
        discovery,
        full_name,
        number,
    }) = begin_discovery(&mut db, 11, &registrations, millis())
    else {
        panic!("nothing to read")
    };
    assert_eq!(full_name, "acme/widgets");
    assert_eq!(number, 42);
    let ended = finish_discovery(&mut db, &me(), &discovery, &full_name, Ok(pull()), now());
    assert_eq!(ended, Ok(Discovered::Watched));
    assert_eq!(db.tracked_pulls.len(), 1);
    assert_eq!(db.tracked_pulls[0].notification, "{\"id\":\"100\"}");
    assert_eq!(db.tracked_pulls[0].next_check_at, millis());
    assert_eq!(db.discoveries[0].status, DiscoveryStatus::Completed);
    assert!(matches!(
        begin_discovery(&mut db, 11, &registrations, millis()),
        Ok(DiscoveryStep::Idle)
    ));
}

#[test]
fn discoveries_without_a_pull_request_are_done() {
    let (mut db, registrations) = discovered(None);
    assert!(matches!(
        begin_discovery(&mut db, 11, &registrations, millis()),
        Ok(DiscoveryStep::Skipped(_, Skip::NoUrl))
    ));
    assert_eq!(db.discoveries[0].status, DiscoveryStatus::Completed);
    let (mut db, registrations) = discovered(Some("/repos/a/b/issues/1"));
    assert!(matches!(
        begin_discovery(&mut db, 11, &registrations, millis()),
        Ok(DiscoveryStep::Skipped(_, Skip::Malformed(_)))
    ));
    let (mut db, _) = discovered(Some(PULL_URL));
    assert!(matches!(
        begin_discovery(&mut db, 11, &vec![], millis()),
        Ok(DiscoveryStep::Skipped(_, Skip::Unregistered))
    ));
}

fn missing() -> GhError {
    GhError::NotFound {
        what: "acme/widgets#42".into(),
    }
}

fn end_with(answer: Result<PullRequestState, GhError>) -> (Database, Discovered) {
    let (mut db, registrations) = discovered(Some(PULL_URL));
    let Ok(DiscoveryStep::Read { discovery, .. }) =
        begin_discovery(&mut db, 11, &registrations, millis())
    else {
        panic!("nothing to read")
    };
    let ended = finish_discovery(&mut db, &me(), &discovery, "acme/widgets", answer, now());
    (db, ended.unwrap())
}

#[test]
fn discoveries_end_by_the_answer() {
    let (db, ended) = end_with(Err(plain(404)));
    assert_eq!(ended, Discovered::Gone);
    assert_eq!(db.discoveries[0].status, DiscoveryStatus::Completed);

    // A miss that is not told by the status is tried again.
    let (db, ended) = end_with(Err(missing()));
    assert_eq!(
        ended,
        Discovered::Deferred {
            rate_limited: false
        }
    );
    assert_eq!(db.discoveries[0].status, DiscoveryStatus::Pending);
    assert_eq!(db.discoveries[0].due_at, millis() + 30_000);
    assert_eq!(
        db.discoveries[0].last_error.as_deref(),
        Some("GitHub could not find acme/widgets#42")
    );

    let mut own = pull();
    own.author = me();
    let (db, ended) = end_with(Ok(own));
    assert_eq!(ended, Discovered::Own);
    assert!(db.tracked_pulls.is_empty());

    let (db, ended) = end_with(Err(plain(500)));
    assert_eq!(
        ended,
        Discovered::Deferred {
            rate_limited: false
        }
    );
    assert_eq!(db.discoveries[0].status, DiscoveryStatus::Pending);
    assert_eq!(db.discoveries[0].due_at, millis() + 30_000);

    let (_, ended) = end_with(Err(plain(429)));
    assert_eq!(ended, Discovered::Deferred { rate_limited: true });

    let (db, ended) = end_with(Err(cancelled()));
    assert_eq!(ended, Discovered::Stopped);
    assert_eq!(db.discoveries[0].status, DiscoveryStatus::Pending);
    assert_eq!(db.discoveries[0].due_at, millis());
}

#[test]
fn batches_are_limited_and_report_progress() {
    let (mut db, registrations) = tables();
    for number in 1..=120 {
        let url = format!("https://api.github.com/repos/acme/widgets/pulls/{number}");
        let id = format!("n{number}");
        db.upsert_notification("github.com", 11, &notification(&id, Some(&url)), "{}", 2);
    }
    let (mut batch, due) = Batch::begin(&db, 11, millis());
    assert_eq!(due, 120);
    let mut reports = Vec::new();
    while let DiscoveryStep::Read {
        discovery,
        full_name,
        number,
    } = batch.step(&mut db, 11, &registrations, millis()).unwrap()
    {
        let mut found = pull();
        found.id = number as i64;
        found.number = number;
        batch
            .finish(&mut db, &me(), &discovery, &full_name, Ok(found), now())
            .unwrap();
        if batch.progress_due() {
            reports.push(batch.processed);
        }
    }
    assert_eq!(batch.processed, 100);
    assert!(batch.available);
    assert_eq!(reports, (1..10).map(|n| n * 10).collect::<Vec<usize>>());
    assert_eq!(db.tracked_pulls.len(), 100);
    assert_eq!(Batch::begin(&db, 11, millis()).1, 20);

    assert!(check_delay(&plain(500), 1, now()));
    let endless = ResponseMetadata {
        retry_after: Some(seconds(u64::MAX)),
        ..Default::default()
    };
    assert!(!check_delay(&status(500, endless, ""), 1, now()));
}

#[test]
fn a_refused_batch_claims_no_more() {
    for (error, over) in [(plain(500), false), (plain(429), true), (cancelled(), true)] {
        let (mut db, registrations) = discovered(Some(PULL_URL));
        let (mut batch, due) = Batch::begin(&db, 11, millis());
        assert_eq!(due, 1);
        let Ok(DiscoveryStep::Read {
            discovery,
            full_name,
            ..
        }) = batch.step(&mut db, 11, &registrations, millis())
        else {
            panic!("nothing to read")
        };
        batch
            .finish(&mut db, &me(), &discovery, &full_name, Err(error), now())
            .unwrap();
        assert_eq!(batch.over, over);
        assert_eq!(batch.available, !over);
    }
    let (db, _) = tables();
    let (batch, due) = Batch::begin(&db, 11, millis());
    assert_eq!(due, 0);
    assert!(batch.over && batch.available);
}

#[test]
fn new_registrations_are_reported_once() {
    let (mut db, known) = tables();
    for (id, name) in [(9, "zeta/x"), (8, "alpha/x")] {
        db.upsert_registration("github.com", &registration(id, name), 2)
            .unwrap();
    }
    let all = db.list_registrations();
    let mut reported = Vec::new();
    assert_eq!(
        registrations_waiting_for_next_cycle(&all, &known, &mut reported).as_deref(),
        Some("alpha/x, zeta/x")
    );
    assert_eq!(reported.len(), 2);
    assert_eq!(
        registrations_waiting_for_next_cycle(&all, &known, &mut reported),
        None
    );
    assert!(find_registration(&known, 9).is_none());
}

// ---------------------------------------------------------------------------
// Refreshes
// ---------------------------------------------------------------------------

#[test]
fn awaited_changes_need_the_core_only() {
    let mut waiting = watched(pull());
    assert_eq!(refresh_depth(&waiting, millis()), Depth::Full);
    waiting.pull_request.latest_review = awaiting_changes("head");
    assert_eq!(refresh_depth(&waiting, millis()), Depth::Core);
    assert_eq!(refresh_depth(&waiting, millis() + 900_000), Depth::Full);
    waiting.updated_at = -1;
    assert_eq!(refresh_depth(&waiting, 0), Depth::Full);
    assert_eq!(refresh_depth(&waiting, -900_000), Depth::Core);
    assert_eq!(refresh_depth(&waiting, -900_001), Depth::Full);
}

#[test]
fn a_core_read_keeps_the_reviews() {
    let mut known = pull();
    known.latest_review = awaiting_changes("head");
    let core = PullResponse {
        id: 70,
        number: 42,
        html_url: "u".into(),
        title: "New".into(),
        user: me(),
        state: "closed".into(),
        draft: true,
        merged: true,
        head: PullRevision {
            sha: "h2".into(),
            reference: "f2".into(),
        },
        base: PullRevision {
            sha: "b2".into(),
            reference: "m2".into(),
        },
    };
    assert_eq!(core_author(&known, None), known.author);
    assert_eq!(core_author(&known, Some(me())), me());
    let fresh = refresh_core(&known, core);
    assert_eq!(fresh.latest_review, known.latest_review);
    assert!(fresh.directly_requested);
    assert_eq!(fresh.head_sha, "h2");
    assert_eq!(fresh.base_ref, "m2");
    assert_eq!(fresh.state, "closed");
    assert_eq!(fresh.title, "New");
}

fn refresh(answer: Result<PullRequestState, GhError>) -> (Database, Refreshed) {
    let (mut db, registrations) = tables();
    let row = watched(pull());
    db.upsert_tracked_pull_request(&row).unwrap();
    let RefreshStep::Read { full_name, .. } =
        begin_refresh(&mut db, 11, &registrations, &row, millis())
    else {
        panic!("dropped")
    };
    assert_eq!(full_name, "acme/widgets");
    let ended = finish_refresh(
        &mut db,
        &me(),
        &vec![],
        false,
        &registrations[0],
        &row,
        answer,
        seconds(60),
        now(),
    )
    .unwrap();
    (db, ended)
}

#[test]
fn requested_reviews_are_queued() {
    let (db, ended) = refresh(Ok(pull()));
    let Refreshed::Updated { queued: Some(queued) } = ended else {
        panic!("not queued")
    };
    assert!(queued.inserted);
    let action = db.get_action(queued.action_id).unwrap();
    assert_eq!(action.trigger_key, "100@50000");
    assert_eq!(action.envelope.request.kind, "user");
    assert_eq!(action.envelope.request.event_id, "100@50000");
    assert_eq!(action.envelope.repository.local_path, "/work");
    assert_eq!(action.envelope.notification, "{\"id\":\"100\"}");
    assert_eq!(action.reason, "review_requested");
    assert_eq!(db.tracked_pulls[0].next_check_at, millis() + 60_000);
    assert!(db.tracked_pulls[0].active);
}

#[test]
fn the_event_or_the_review_is_the_trigger() {
    let mut asked = pull();
    asked.latest_request = Some(ReviewRequestEvent {
        event_id: "RRE_1".into(),
        created_at: now(),
        kind: ReviewRequestKind::Team,
        requested_id: 3,
    });
    let (db, _) = refresh(Ok(asked));
    assert_eq!(db.actions[0].trigger_key, "RRE_1");
    assert_eq!(db.actions[0].envelope.request.kind, "team");
    let mut changed = pull();
    changed.latest_review = awaiting_changes("old");
    let (db, _) = refresh(Ok(changed));
    assert_eq!(db.actions[0].trigger_key, "review:5");
    assert_eq!(
        db.actions[0].reason,
        "head_changed_after_changes_requested"
    );
}

#[test]
fn quiet_pull_requests_are_watched_or_dropped() {
    let mut waiting = pull();
    waiting.latest_review = awaiting_changes("head");
    let (db, ended) = refresh(Ok(waiting));
    assert_eq!(ended, Refreshed::Updated { queued: None });
    assert!(db.tracked_pulls[0].active);
    assert!(db.actions.is_empty());

    let mut withdrawn = pull();
    withdrawn.directly_requested = false;
    let (db, _) = refresh(Ok(withdrawn));
    assert!(!db.tracked_pulls[0].active);

    let mut closed = pull();
    closed.state = "closed".into();
    let (db, _) = refresh(Ok(closed));
    assert!(!db.tracked_pulls[0].active);

    let (db, ended) = refresh(Err(plain(404)));
    assert_eq!(ended, Refreshed::Gone);
    assert!(!db.tracked_pulls[0].active);

    let (db, ended) = refresh(Err(missing()));
    assert_eq!(
        ended,
        Refreshed::Failed {
            rate_limited: false
        }
    );
    assert!(db.tracked_pulls[0].active);

    let (db, ended) = refresh(Err(plain(429)));
    assert_eq!(ended, Refreshed::Failed { rate_limited: true });
    assert!(db.tracked_pulls[0].active);
    assert_eq!(refresh(Err(cancelled())).1, Refreshed::Stopped);

    let (mut db, _) = tables();
    let row = watched(pull());
    db.upsert_tracked_pull_request(&row).unwrap();
    assert!(matches!(
        begin_refresh(&mut db, 11, &vec![], &row, millis()),
        RefreshStep::Dropped
    ));
    assert!(!db.tracked_pulls[0].active);
}

#[test]
fn refreshes_stop_where_github_refuses() {
    let (mut db, registrations) = tables();
    for number in 1..=3 {
        let mut found = pull();
        found.id = 70 + number;
        found.number = number as u64;
        db.upsert_tracked_pull_request(&watched(found)).unwrap();
    }
    let mut foreign = watched(pull());
    foreign.repository_id = 8;
    foreign.next_check_at = millis() - 1;
    db.upsert_tracked_pull_request(&foreign).unwrap();

    let mut refreshes = Refreshes::begin(&db, 11, now());
    assert_eq!(refreshes.due.len(), 4);
    assert!(matches!(
        refreshes.step(&mut db, 11, &registrations),
        RefreshRequest::Dropped
    ));
    let answers = [Err(plain(500)), Err(plain(429))];
    for (answer, goes_on) in answers.into_iter().zip([true, false]) {
        assert!(matches!(
            refreshes.step(&mut db, 11, &registrations),
            RefreshRequest::Read {
                depth: Depth::Full,
                ..
            }
        ));
        let ended = refreshes.finish(&mut db, &me(), &vec![], false, answer, seconds(60));
        assert_eq!(
            ended,
            Ok(Refreshed::Failed {
                rate_limited: !goes_on
            })
        );
        assert_eq!(refreshes.available, goes_on);
    }
    assert_eq!(refreshes.current().unwrap().pull_request.id, 72);
    assert!(matches!(
        refreshes.step(&mut db, 11, &registrations),
        RefreshRequest::Done
    ));
    assert_eq!(refreshes.begun, 3);
}

#[test]
fn unknown_teams_are_trusted() {
    let mut asked = pull();
    asked.requested_team_ids = vec![77];
    assert_eq!(effective_teams(true, &vec![1], &asked), &vec![77]);
    assert_eq!(effective_teams(false, &vec![1], &asked), &vec![1]);
}

// ---------------------------------------------------------------------------
// Preparation
// ---------------------------------------------------------------------------

/// Tables with one claimed action.
fn queued() -> (Database, ReviewAction) {
    let (mut db, registrations) = tables();
    let row = watched(pull());
    finish_refresh(
        &mut db,
        &me(),
        &vec![],
        false,
        &registrations[0],
        &row,
        Ok(pull()),
        seconds(60),
        now(),
    )
    .unwrap();
    let action = claim_review_for_processing(&mut db, 11, 1, 0, millis()).unwrap();
    (db, action)
}

fn view() -> Viewpoint {
    Viewpoint {
        viewer: me(),
        team_ids: vec![],
        trust: false,
    }
}

fn local() -> LocalRepository {
    LocalRepository {
        worktree_root: "/real/work".into(),
        origin_url: "https://github.com/acme/widgets".into(),
        origin: GitHubOrigin {
            hostname: "github.com".into(),
            owner: "acme".into(),
            repository: "widgets".into(),
        },
    }
}

fn identity(id: i64) -> RepositoryIdentity {
    RepositoryIdentity {
        id,
        full_name: "acme/widgets".into(),
        html_url: "u".into(),
    }
}

fn begun() -> (Preparation, RegisteredRepositoryRecord) {
    let (db, action) = queued();
    let record = db.get_registration("github.com", 7).unwrap();
    let Step::Ask(preparation, Request::ReadPull { full_name, number }) =
        prepare(action, Some(record.clone()))
    else {
        panic!("not asked for the pull request")
    };
    assert_eq!((full_name.as_str(), number), ("acme/widgets", 42));
    (preparation, record)
}

fn ask(step: Step) -> (Preparation, Request) {
    match step {
        Step::Ask(preparation, request) => (preparation, request),
        Step::End(verdict) => panic!("ended early: {:?}", verdict),
    }
}

fn end(step: Step) -> Verdict {
    match step {
        Step::Ask(..) => panic!("went on"),
        Step::End(verdict) => verdict,
    }
}

fn events() -> Vec<Event> {
    vec![
        Event::Pull(Ok(pull())),
        Event::Located(Ok(local())),
        Event::Resolved(Ok(("/real/work".into(), "/real/work".into()))),
        Event::Identified(Ok(identity(7))),
        Event::Fetched(Ok(())),
    ]
}

/// A preparation after the first `n` events of a good run.
fn after_events(n: usize) -> (Preparation, RegisteredRepositoryRecord) {
    let (mut preparation, record) = begun();
    for event in events().into_iter().take(n) {
        preparation = ask(preparation.advance(&view(), event, false)).0;
    }
    (preparation, record)
}

fn ends_after(n: usize, event: Event, cancelled: bool) -> Verdict {
    end(after_events(n).0.advance(&view(), event, cancelled))
}

fn deferred(error: &str, delay: u64) -> Verdict {
    Verdict::Defer {
        error: error.into(),
        delay: seconds(delay),
    }
}

fn cancel(reason: &str) -> Verdict {
    Verdict::Cancel(reason.into())
}

#[test]
fn a_review_runs_after_its_revisions_were_fetched() {
    let (preparation, _) = begun();
    let (preparation, request) = ask(preparation.advance(&view(), Event::Pull(Ok(pull())), false));
    assert!(matches!(request, Request::Locate { path } if path == "/work"));
    let (preparation, request) =
        ask(preparation.advance(&view(), Event::Located(Ok(local())), false));
    assert!(
        matches!(request, Request::Resolve { expected, actual } if expected == "/work" && actual == "/real/work")
    );
    let paths = Ok(("/real/work".into(), "/real/work/".into()));
    let (preparation, request) = ask(preparation.advance(&view(), Event::Resolved(paths), false));
    assert!(matches!(request, Request::Identify { full_name } if full_name == "acme/widgets"));
    let (preparation, request) =
        ask(preparation.advance(&view(), Event::Identified(Ok(identity(7))), false));
    let Request::Fetch { root, fetch } = request else {
        panic!("nothing to fetch")
    };
    assert_eq!(root, "/real/work");
    assert_eq!(fetch.pull_number, 42);
    assert_eq!(fetch.base_ref, "main");
    assert_eq!(fetch.expected_base_oid, "base");
    assert_eq!(fetch.expected_head_oid, "head");
    let (preparation, request) = ask(preparation.advance(&view(), Event::Fetched(Ok(())), false));
    assert!(matches!(request, Request::ReadPull { number: 42, .. }));
    let mut again = pull();
    again.title = "Renamed".into();
    let record = preparation.registration.clone();
    let (preparation, request) =
        ask(preparation.advance(&view(), Event::PullAgain(Ok(again), Some(record)), false));
    let Request::Run { root, envelope } = request else {
        panic!("nothing to run")
    };
    assert_eq!(root, "/real/work");
    assert_eq!(envelope.repository.local_path, "/real/work");
    assert_eq!(envelope.pull_request.title, "Renamed");
    assert_eq!(envelope.pull_request.head_sha, "head");
    assert_eq!(
        end(preparation.advance(&view(), Event::Ran(Ok(RunOutcome::Succeeded)), false)),
        Verdict::Complete
    );
}

#[test]
fn preparation_ends_where_the_pull_request_changed() {
    let (_, action) = queued();
    assert_eq!(
        end(prepare(action, None)),
        cancel("repository is no longer registered")
    );
    assert_eq!(
        ends_after(0, Event::Pull(Err(plain(404))), false),
        cancel("pull request no longer exists")
    );
    assert_eq!(
        ends_after(0, Event::Pull(Err(missing())), false),
        deferred("GitHub could not find acme/widgets#42", 60)
    );
    assert_eq!(
        ends_after(0, Event::Pull(Err(cancelled())), false),
        deferred("gh API request graphql was cancelled", 60)
    );
    let mut closed = pull();
    closed.state = "closed".into();
    assert_eq!(
        ends_after(0, Event::Pull(Ok(closed)), false),
        cancel("pull request is not open and ready for review")
    );
    let mut moved = pull();
    moved.head_sha = "other".into();
    assert_eq!(
        ends_after(0, Event::Pull(Ok(moved)), false),
        cancel("pull request changed after this action was queued")
    );
    let mut asked = pull();
    asked.latest_request = Some(ReviewRequestEvent {
        event_id: "RRE_2".into(),
        created_at: now(),
        kind: ReviewRequestKind::User,
        requested_id: 11,
    });
    assert_eq!(
        ends_after(0, Event::Pull(Ok(asked)), false),
        cancel("pull request changed after this action was queued")
    );
    assert_eq!(
        ends_after(0, Event::Pull(Ok(pull())), true),
        deferred("daemon lease was lost", 0)
    );
}

#[test]
fn preparation_ends_where_the_clone_is_another() {
    let gone = GitError::Io("gone".into());
    assert_eq!(
        ends_after(1, Event::Located(Err(gone)), false),
        deferred("Git operation failed: gone", 300)
    );
    assert_eq!(
        ends_after(1, Event::Located(Ok(local())), true),
        deferred("daemon lease was lost", 0)
    );
    assert_eq!(
        ends_after(2, Event::Resolved(Err("no such file".into())), false),
        deferred("no such file", 60)
    );
    assert_eq!(
        ends_after(2, Event::Resolved(Ok(("/a".into(), "/b".into()))), false),
        deferred("registered path /a resolves to worktree /b", 300)
    );
    assert_eq!(
        ends_after(3, Event::Identified(Err(plain(500))), false),
        deferred("GitHub API request to /test returned HTTP 500", 60)
    );
    assert_eq!(
        ends_after(3, Event::Identified(Ok(identity(8))), false),
        deferred(
            "registered path now points at a different GitHub repository",
            300
        )
    );
    assert_eq!(
        ends_after(3, Event::Identified(Ok(identity(7))), true),
        deferred("daemon lease was lost", 0)
    );
}

#[test]
fn preparation_ends_where_the_fetch_fails() {
    let stale = GitError::StaleRevision {
        kind: RevisionKind::Head,
        expected: "a".into(),
        fetched: "b".into(),
    };
    assert_eq!(
        ends_after(4, Event::Fetched(Err(stale)), false),
        deferred(
            "GitHub Head revision moved while preparing review (expected a, fetched b)",
            5
        )
    );
    let stopped = GitError::Cancelled {
        operation: "fetch".into(),
    };
    assert_eq!(
        ends_after(4, Event::Fetched(Err(stopped)), false),
        deferred("fetch was cancelled", 0)
    );
    assert_eq!(
        ends_after(4, Event::Fetched(Err(GitError::Io("x".into()))), false),
        deferred("Git operation failed: x", 60)
    );
    assert_eq!(
        ends_after(4, Event::Fetched(Ok(())), true),
        deferred("daemon lease was lost while preparing the review command", 0)
    );
}

#[test]
fn preparation_ends_where_the_second_read_differs() {
    let record = || after_events(5).1;
    let mut rebased = pull();
    rebased.base_sha = "other".into();
    assert_eq!(
        ends_after(5, Event::PullAgain(Ok(rebased), Some(record())), false),
        deferred(
            "pull request base changed while its revisions were being fetched",
            5
        )
    );
    let mut moved = pull();
    moved.head_sha = "other".into();
    assert_eq!(
        ends_after(5, Event::PullAgain(Ok(moved), Some(record())), false),
        cancel("pull request changed while its revisions were being fetched")
    );
    assert_eq!(
        ends_after(5, Event::PullAgain(Ok(pull()), None), false),
        cancel("repository was unregistered during preparation")
    );
    let mut elsewhere = record();
    elsewhere.repository.local_path = "/elsewhere".into();
    assert_eq!(
        ends_after(5, Event::PullAgain(Ok(pull()), Some(elsewhere)), false),
        deferred("registered repository path changed during preparation", 0)
    );
    assert_eq!(
        ends_after(5, Event::PullAgain(Err(plain(404)), Some(record())), false),
        cancel("pull request no longer exists")
    );
    assert_eq!(
        ends_after(5, Event::PullAgain(Err(missing()), Some(record())), false),
        deferred("GitHub could not find acme/widgets#42", 60)
    );
    let mut draft = pull();
    draft.draft = true;
    assert_eq!(
        ends_after(5, Event::PullAgain(Ok(draft), Some(record())), false),
        cancel("pull request is not open and ready for review")
    );
}

#[test]
fn commands_end_the_action() {
    let ran = |answer: Result<RunOutcome, RunnerError>| {
        let (preparation, record) = after_events(5);
        let (preparation, _) =
            ask(preparation.advance(&view(), Event::PullAgain(Ok(pull()), Some(record)), false));
        end(preparation.advance(&view(), Event::Ran(answer), false))
    };
    assert_eq!(
        ran(Ok(RunOutcome::Failed {
            code: Some(2),
            status: "exit status: 2".into()
        })),
        Verdict::Fail("review command exited with exit status: 2".into())
    );
    assert_eq!(
        ran(Ok(RunOutcome::TimedOut)),
        Verdict::Fail("review command timed out".into())
    );
    assert_eq!(
        ran(Ok(RunOutcome::Cancelled)),
        deferred("daemon lease was lost while review command was running", 0)
    );
    assert_eq!(
        ran(Err(RunnerError::InputWriterPanicked)),
        Verdict::Fail("review command input writer panicked".into())
    );
}

#[test]
fn verdicts_are_carried_out() {
    let settled = |verdict: Verdict| {
        let (mut db, action) = queued();
        let status = settle(&mut db, &action, &verdict, now());
        (db.get_action(action.id).unwrap(), status)
    };
    let (row, status) = settled(deferred("later", 5));
    assert_eq!(status, None);
    assert_eq!(row.status, ActionStatus::Pending);
    assert_eq!(row.attempts, 0);
    assert_eq!(row.due_at, millis() + 5_000);
    assert_eq!(row.last_error.as_deref(), Some("later"));
    let (row, _) = settled(cancel("gone"));
    assert_eq!(row.status, ActionStatus::Cancelled);
    let (row, _) = settled(Verdict::Complete);
    assert_eq!(row.status, ActionStatus::Succeeded);
    let (row, status) = settled(Verdict::Fail("broken".into()));
    assert_eq!(status, Some(ActionStatus::Pending));
    assert_eq!(row.attempts, 1);
    assert_eq!(row.last_error.as_deref(), Some("broken"));
}

#[test]
fn reasons_and_triggers_must_agree() {
    let mut db = Database::new();
    db.upsert_registration("github.com", &registration(7, "acme/widgets"), 1)
        .unwrap();
    let registrations = db.list_registrations();
    let mut changed = pull();
    changed.latest_review = awaiting_changes("old");
    finish_refresh(
        &mut db,
        &me(),
        &vec![],
        false,
        &registrations[0],
        &watched(changed.clone()),
        Ok(changed.clone()),
        seconds(60),
        now(),
    )
    .unwrap();
    let action = claim_review_for_processing(&mut db, 11, 1, 0, millis()).unwrap();
    assert_eq!(
        action.envelope.reason,
        ActionReason::HeadChangedAfterChangesRequested
    );
    let start = |action: ReviewAction| ask(prepare(action, Some(registrations[0].clone()))).0;
    assert!(matches!(
        start(action.clone()).advance(&view(), Event::Pull(Ok(changed.clone())), false),
        Step::Ask(_, Request::Locate { .. })
    ));
    let mut newer = changed;
    newer.latest_review = awaiting_changes("old");
    if let Some(review) = newer.latest_review.as_mut() {
        review.id = 6;
    }
    assert_eq!(
        end(start(action.clone()).advance(&view(), Event::Pull(Ok(newer)), false)),
        cancel("pull request changed after this action was queued")
    );
    assert_eq!(
        end(start(action).advance(&view(), Event::Pull(Ok(pull())), false)),
        cancel("pull request changed after this action was queued")
    );
}

// ---------------------------------------------------------------------------
// The cycle
// ---------------------------------------------------------------------------

fn poll(not_modified: bool, last_modified: Option<&str>) -> NotificationPoll {
    NotificationPoll {
        not_modified,
        notifications: vec![],
        metadata: ResponseMetadata {
            last_modified: last_modified.map(str::to_owned),
            ..Default::default()
        },
    }
}

#[test]
fn polls_keep_their_mark_and_validator() {
    let (mut db, _) = tables();
    let page = vec![(notification("100", None), "{}".to_owned())];
    let mut first = poll(false, Some("one"));
    first.notifications = vec![notification("100", None)];
    commit_notification_poll(&mut db, 11, &first, &page, &None, 5);
    let state = db.poll_state("github.com", 11);
    let kept = state.as_ref().unwrap();
    assert_eq!(kept.last_modified.as_deref(), Some("one"));
    assert_eq!(
        kept.high_water.as_deref(),
        Some("2027-01-15T08:00:00+00:00")
    );
    // Nothing new, and no validator: both stay.
    commit_notification_poll(&mut db, 11, &poll(true, None), &vec![], &state, 6);
    let again = db.poll_state("github.com", 11);
    let kept = again.as_ref().unwrap();
    assert_eq!(kept.last_modified.as_deref(), Some("one"));
    assert_eq!(
        kept.high_water.as_deref(),
        Some("2027-01-15T08:00:00+00:00")
    );
    assert_eq!(kept.updated_at, 6);
    // An empty page does not lower the mark.
    commit_notification_poll(&mut db, 11, &poll(false, Some("two")), &vec![], &again, 7);
    let last = db.poll_state("github.com", 11).unwrap();
    assert_eq!(last.last_modified.as_deref(), Some("two"));
    assert_eq!(
        last.high_water.as_deref(),
        Some("2027-01-15T08:00:00+00:00")
    );
    assert_eq!(
        read_mark(last.high_water.as_deref()),
        Some(Timestamp {
            seconds: 1_800_000_000,
            nanos: 0
        })
    );
    assert_eq!(read_mark(Some("100@50")), None);
    assert_eq!(
        next_high_water(&page, Some("2030-01-01T00:00:00Z")).as_deref(),
        Some("2030-01-01T00:00:00+00:00")
    );
    assert_eq!(next_high_water(&vec![], None), None);
}

#[test]
fn one_daemon_starts_for_a_viewer() {
    let (mut db, action) = queued();
    assert_eq!(start_daemon(&mut db, &me(), "a", millis()), Ok(true));
    assert_eq!(
        db.get_action(action.id).unwrap().status,
        ActionStatus::Pending
    );
    assert_eq!(start_daemon(&mut db, &me(), "b", millis() + 1), Ok(false));
    assert_eq!(
        start_daemon(&mut db, &me(), "b", millis() + 90_000),
        Ok(true)
    );
    assert_eq!(
        lease_taken_message(&me()),
        "another github-reviews daemon is already running for me"
    );
}

#[test]
fn bootstraps_pause_at_a_rate_limit() {
    let (db, _) = tables();
    assert!(bootstrap_due(&db, 11, 7));
    assert!(!bootstrap_due(&db, 11, 8));
    assert_eq!(pause_after_bootstrap(&plain(500), seconds(60), NOW), None);
    assert_eq!(
        pause_after_bootstrap(&plain(429), seconds(60), NOW),
        Some(seconds(60))
    );
    let asked = ResponseMetadata {
        retry_after: Some(seconds(7)),
        ..Default::default()
    };
    assert_eq!(
        pause_after_bootstrap(&status(429, asked, ""), seconds(60), NOW),
        Some(seconds(7))
    );
}

#[test]
fn a_cycle_goes_on_while_github_answers() {
    let mut stage = CycleStage::Poll;
    let mut seen = vec![stage];
    while stage != CycleStage::Sleep {
        stage = next_stage(stage, true, false);
        seen.push(stage);
    }
    assert_eq!(
        seen,
        vec![
            CycleStage::Poll,
            CycleStage::Discover,
            CycleStage::Refresh,
            CycleStage::Dispatch,
            CycleStage::Sleep
        ]
    );
    assert_eq!(next_stage(CycleStage::Poll, false, false), CycleStage::Sleep);
    assert_eq!(next_stage(CycleStage::Refresh, true, true), CycleStage::Sleep);
    assert_eq!(dispatch_limit(Mode::Sync, 4, 0, 0), Some(1));
    assert_eq!(dispatch_limit(Mode::Sync, 4, 0, 1), None);
    assert_eq!(dispatch_limit(Mode::Async, 4, 3, 9), Some(4));
    assert_eq!(dispatch_limit(Mode::Async, 4, 4, 0), None);
}

fn begin_cycle(db: &Database) -> (Cycle, CycleRequest) {
    Cycle::begin(db, 11, seconds(60), false, millis()).unwrap()
}

fn done(available: bool) -> CycleAnswer {
    CycleAnswer::Done { available }
}

#[test]
fn a_cycle_asks_for_one_thing_after_the_other() {
    assert!(Cycle::begin(&Database::new(), 11, seconds(60), false, millis()).is_none());
    let (mut db, _) = tables();
    db.upsert_registration("github.com", &registration(9, "acme/anvils"), 2)
        .unwrap();
    let (cycle, request) = begin_cycle(&db);
    assert!(matches!(request, CycleRequest::Bootstrap { full_name } if full_name == "acme/anvils"));
    let (cycle, request) =
        cycle.advance(&mut db, CycleAnswer::Bootstrapped(Err(plain(500))), false, NOW);
    assert!(matches!(request, CycleRequest::Bootstrap { full_name } if full_name == "acme/widgets"));
    let page = vec![(notification("100", Some(PULL_URL)), "{}".to_owned())];
    let (cycle, request) = cycle.advance(&mut db, CycleAnswer::Bootstrapped(Ok(page)), false, NOW);
    assert_eq!(db.notifications.len(), 1);
    assert!(bootstrap_due(&db, 11, 9));
    assert!(!bootstrap_due(&db, 11, 7));
    assert!(matches!(
        request,
        CycleRequest::Poll {
            last_modified: None,
            high_water: None
        }
    ));
    let mut answer = poll(false, Some("one"));
    answer.metadata.poll_interval = Some(seconds(90));
    let polled = CycleAnswer::Polled(Ok((answer, vec![])));
    let (cycle, request) = cycle.advance(&mut db, polled, false, NOW);
    assert!(matches!(request, CycleRequest::Discover));
    assert_eq!(cycle.server, Some(seconds(90)));
    let (cycle, request) = cycle.advance(&mut db, done(true), false, NOW);
    assert!(matches!(request, CycleRequest::Refresh));
    let (cycle, request) = cycle.advance(&mut db, done(true), false, NOW);
    assert!(matches!(request, CycleRequest::Dispatch));
    let (cycle, request) = cycle.advance(&mut db, done(true), false, NOW);
    assert!(matches!(request, CycleRequest::Sleep));
    assert_eq!(cycle.place, Place::At(CycleStage::Sleep));
    // The next poll starts from what this one left.
    let (_, request) = begin_cycle(&db);
    assert!(matches!(request, CycleRequest::Bootstrap { full_name } if full_name == "acme/anvils"));
    db.mark_bootstrap_complete("github.com", 11, 9, millis());
    let (_, request) = begin_cycle(&db);
    assert!(matches!(request, CycleRequest::Poll { last_modified: Some(v), .. } if v == "one"));
}

#[test]
fn a_refusal_ends_the_cycle() {
    let (mut db, _) = tables();
    let (cycle, _) = begin_cycle(&db);
    let refused = CycleAnswer::Bootstrapped(Err(plain(429)));
    let (cycle, request) = cycle.advance(&mut db, refused, false, NOW);
    assert!(matches!(request, CycleRequest::Sleep));
    assert_eq!(cycle.server, Some(seconds(60)));

    db.mark_bootstrap_complete("github.com", 11, 7, millis());
    let asked = ResponseMetadata {
        retry_after: Some(seconds(7)),
        ..Default::default()
    };
    let (cycle, _) = begin_cycle(&db);
    let refused = CycleAnswer::Polled(Err(status(503, asked, "")));
    let (cycle, request) = cycle.advance(&mut db, refused, false, NOW);
    assert!(matches!(request, CycleRequest::Sleep));
    assert_eq!(cycle.server, Some(seconds(7)));
    assert!(db.poll_state("github.com", 11).is_none());

    let (cycle, _) = begin_cycle(&db);
    let polled = CycleAnswer::Polled(Ok((poll(true, None), vec![])));
    let (cycle, _) = cycle.advance(&mut db, polled, false, NOW);
    let (_, request) = cycle.advance(&mut db, done(false), false, NOW);
    assert!(matches!(request, CycleRequest::Sleep));

    let (cycle, _) = begin_cycle(&db);
    let polled = CycleAnswer::Polled(Ok((poll(true, None), vec![])));
    let (_, request) = cycle.advance(&mut db, polled, true, NOW);
    assert!(matches!(request, CycleRequest::Sleep));
}

#[test]
fn sleeps_end_early_where_the_daemon_stops() {
    let nap = Duration {
        seconds: 0,
        nanos: 200_000_000,
    };
    assert_eq!(next_sleep(0, false, seconds(3)), Some(nap));
    assert_eq!(
        next_sleep(0, false, Duration::from_millis(20)),
        Some(Duration::from_millis(20))
    );
    assert_eq!(next_sleep(0, false, seconds(0)), None);
    assert_eq!(next_sleep(1, false, seconds(3)), None);
    assert_eq!(next_sleep(0, true, seconds(3)), None);
    assert_eq!(heartbeat(true, seconds(3)), Heartbeat::Stop);
    assert_eq!(heartbeat(false, seconds(0)), Heartbeat::Renew);
    assert_eq!(heartbeat(false, seconds(3)), Heartbeat::Sleep(nap));
    assert!(!lease_is_lost(Some(true)));
    assert!(lease_is_lost(Some(false)));
    assert!(lease_is_lost(None));
    assert!(keeps_running(0, false));
    assert!(!keeps_running(1, false));
    assert!(!keeps_running(0, true));
    assert_eq!(
        delay_cycle(seconds(60), Some(seconds(90)), seconds(10)),
        seconds(80)
    );
    assert_eq!(delay_cycle(seconds(60), None, seconds(70)), seconds(0));
    assert_eq!(
        end_daemon(true, false),
        Err("daemon lease was lost; stopped before another daemon could take over")
    );
    assert_eq!(end_daemon(true, true), Ok(()));
    assert_eq!(end_daemon(false, false), Ok(()));
}

// ---------------------------------------------------------------------------
// Reports
// ---------------------------------------------------------------------------

#[test]
fn status_uses_isolated_state_database() {
    let lines = status_report("/state", &Database::new().status_snapshot());
    assert_eq!(
        lines,
        vec![
            "state: /state",
            "registered repositories: 0",
            "actions: 0 pending, 0 running, 0 parked, 0 succeeded, 0 cancelled"
        ]
    );
}

#[test]
fn status_shows_every_table() {
    let (mut db, action) = queued();
    start_daemon(&mut db, &me(), "a", millis()).unwrap();
    db.set_poll_state("github.com", 11, None, None, millis());
    let lines = status_report("/state", &db.status_snapshot());
    assert_eq!(
        lines,
        vec![
            "state: /state".to_owned(),
            "registered repositories: 1".to_owned(),
            "  acme/widgets -> /work".to_owned(),
            "daemon: me@github.com lease expires 2030-03-17 17:48:10 UTC".to_owned(),
            "last poll: 2030-03-17 17:46:40 UTC (viewer 11, validator none)".to_owned(),
            "actions: 1 pending, 0 running, 0 parked, 0 succeeded, 0 cancelled".to_owned(),
            format!(
                "  #{} acme/widgets#42 pending (attempts: 1, error: daemon stopped while review command was running)",
                action.id
            ),
        ]
    );
}

#[test]
fn commands_say_what_they_did() {
    assert_eq!(
        registered_message("acme/widgets", "/work"),
        "registered acme/widgets at /work"
    );
    assert_eq!(unregistered_message("a/b", true), "unregistered a/b");
    assert_eq!(unregistered_message("a/b", false), "a/b was not registered");
    assert_eq!(
        state_path(Some("/x"), None).as_deref(),
        Ok("/x")
    );
    assert_eq!(
        state_path(Some(""), Some("/home/me")).as_deref(),
        Ok("/home/me/.config/github-reviews/state.sqlite3")
    );
    assert_eq!(
        state_path(None, None),
        Err("no home directory is available")
    );
    let (mut db, action) = queued();
    let selector = PullRequestSelector::parse("acme/widgets#42").unwrap();
    assert_eq!(
        retry(&mut db, 11, &selector, millis()),
        Err("no parked action found for acme/widgets#42".into())
    );
    for row in &mut db.actions {
        row.status = ActionStatus::Parked;
    }
    assert_eq!(
        retry(&mut db, 11, &selector, millis()),
        Ok(format!("queued action {} for acme/widgets#42", action.id))
    );
}
