use std::collections::BTreeSet;

use github_reviews::db::migrate::{collapse_actions, migration_plan, Migration, SCHEMA_VERSION};
use github_reviews::db::rows::{
    ActionStatus, DbError, DiscoveryStatus, NewReviewAction, TrackedPullRequest,
};
use github_reviews::db::Database;
use github_reviews::model::{
    ActionReason, EnvelopePullRequest, EnvelopeRepository, EnvelopeRequest, Notification,
    NotificationRepository, NotificationSubject, PullRequestState, RegisteredRepository,
    RepositoryIdentity, ReviewEnvelope, Viewer,
};
use github_reviews::time::Timestamp;

const DAY: i64 = 86_400_000;

/// Milliseconds since the epoch.
fn at(seconds: i64) -> i64 {
    seconds * 1000
}

fn instant(seconds: i64) -> Timestamp {
    Timestamp { seconds, nanos: 0 }
}

fn registered(repository_id: i64, name: &str, path: &str) -> RegisteredRepository {
    RegisteredRepository {
        repository: RepositoryIdentity {
            id: repository_id,
            full_name: name.into(),
            html_url: format!("https://github.com/{name}"),
        },
        origin_url: format!("git@github.com:{name}.git"),
        local_path: path.into(),
        bootstrap_pending: true,
    }
}

fn notification(repository_id: i64, id: &str, updated_at: Timestamp) -> Notification {
    Notification {
        id: id.into(),
        reason: "review_requested".into(),
        unread: true,
        updated_at,
        repository: NotificationRepository {
            id: repository_id,
            full_name: format!("acme/repo-{repository_id}"),
            extra: "{}".into(),
        },
        subject: NotificationSubject {
            title: "Please review".into(),
            kind: "PullRequest".into(),
            url: Some("https://api.github.com/repos/acme/repo/pulls/7".into()),
            extra: "{}".into(),
        },
        extra: "{}".into(),
    }
}

fn pull(id: i64, number: u64, head: &str) -> PullRequestState {
    PullRequestState {
        id,
        number,
        url: format!("https://github.com/acme/repo/pull/{number}"),
        title: "Improve the thing".into(),
        author: Viewer {
            id: 22,
            login: "author".into(),
        },
        state: "open".into(),
        draft: false,
        merged: false,
        head_sha: head.into(),
        head_ref: "feature".into(),
        base_sha: "base".into(),
        base_ref: "main".into(),
        directly_requested: true,
        requested_team_ids: vec![],
        latest_review: None,
        latest_request: None,
        non_opinionated_review_after_request: false,
    }
}

fn envelope(repository_id: i64, pull: &PullRequestState) -> ReviewEnvelope {
    ReviewEnvelope {
        schema_version: 1,
        reason: ActionReason::ReviewRequested,
        viewer: Viewer {
            id: 11,
            login: "octocat".into(),
        },
        repository: EnvelopeRepository {
            id: repository_id,
            full_name: format!("acme/repo-{repository_id}"),
            local_path: format!("/work/repo-{repository_id}"),
        },
        request: EnvelopeRequest {
            kind: "user".into(),
            event_id: "request-1".into(),
        },
        pull_request: EnvelopePullRequest {
            id: pull.id,
            number: pull.number,
            url: pull.url.clone(),
            title: pull.title.clone(),
            author: pull.author.clone(),
            head_sha: pull.head_sha.clone(),
            base_sha: pull.base_sha.clone(),
            base_ref: pull.base_ref.clone(),
            head_ref: pull.head_ref.clone(),
        },
        review: None,
        notification: r#"{"id":"notification-1"}"#.into(),
    }
}

fn new_action(
    repository_id: i64,
    pull_id: i64,
    pull_number: u64,
    head: &str,
    trigger: &str,
    due_at: i64,
) -> NewReviewAction {
    let pull = pull(pull_id, pull_number, head);
    NewReviewAction {
        host: "github.com".into(),
        viewer_id: 11,
        repository_id,
        repository_full_name: format!("acme/repo-{repository_id}"),
        pull_request_id: pull_id,
        pull_request_number: pull_number,
        head_sha: head.into(),
        trigger_key: trigger.into(),
        reason: "review_requested".into(),
        envelope: envelope(repository_id, &pull),
        due_at,
    }
}

#[test]
fn registration_is_upserted_by_immutable_repository_identity() {
    let mut database = Database::new();
    database
        .upsert_registration(
            "github.com",
            &registered(7, "acme/widgets", "/first"),
            at(10),
        )
        .unwrap();
    assert_eq!(
        database.bootstrap_pending("github.com", 11, 7),
        Some(true)
    );
    database.mark_bootstrap_complete("github.com", 11, 7, at(11));
    assert_eq!(
        database.bootstrap_pending("github.com", 11, 7),
        Some(false)
    );
    assert_eq!(
        database.bootstrap_pending("github.com", 12, 7),
        Some(true)
    );
    database
        .upsert_registration(
            "github.com",
            &registered(7, "renamed/widgets", "/second"),
            at(20),
        )
        .unwrap();

    let record = database.get_registration("github.com", 7).unwrap();
    assert_eq!(record.repository.repository.full_name, "renamed/widgets");
    assert_eq!(record.repository.local_path, "/second");
    assert!(record.repository.bootstrap_pending);
    assert_eq!(
        database.bootstrap_pending("github.com", 11, 7),
        Some(true),
        "a changed registration must invalidate each viewer's bootstrap"
    );
    assert_eq!(record.registered_at, at(10));
    assert_eq!(record.updated_at, at(20));
    assert_eq!(database.list_registrations().len(), 1);
    assert!(database.remove_registration("github.com", 7, at(30)));
    assert!(!database.remove_registration("github.com", 7, at(30)));
}

#[test]
fn v4_identity_migration_collapses_base_only_duplicates_without_replaying_success() {
    let mut database = Database::new();
    let mut rebased = new_action(8, 70, 7, "head", "request-1", at(1));
    rebased.envelope.pull_request.base_sha = "new-base".into();
    database
        .enqueue_action(&new_action(7, 70, 7, "head", "request-1", at(1)), at(1))
        .unwrap();
    database.enqueue_action(&rebased, at(2)).unwrap();
    database.actions[0].status = ActionStatus::Succeeded;
    database.actions[1].repository_id = 7;
    database.actions[1].repository_full_name = "acme/repo-7".into();

    let kept = collapse_actions(&database.actions);
    assert_eq!(kept.len(), 1);
    assert_eq!(kept[0].id, 1);
    assert_eq!(kept[0].status, ActionStatus::Succeeded);
    assert_eq!(kept[0].base_sha, "base");
    let plan = migration_plan(3).unwrap();
    assert_eq!(plan.last().map(|step| step.version()), Some(SCHEMA_VERSION));
}

#[test]
fn a_complete_poll_stores_raw_notifications_and_watermark_together() {
    let mut database = Database::new();
    database
        .upsert_registration(
            "github.com",
            &registered(7, "acme/repo-7", "/work/repo-7"),
            at(40),
        )
        .unwrap();
    let item = notification(7, "100", instant(50));
    let raw = r#"{"id":"100","unknown":{"preserved":true}}"#.to_owned();
    database.commit_poll(
        "github.com",
        11,
        &vec![(item, raw.clone())],
        Some("Wed, 01 Jan 2025 00:00:00 GMT"),
        Some("100@50"),
        at(60),
    );

    let stored = database.get_notification("github.com", 11, "100").unwrap();
    assert_eq!(stored.raw, raw);
    assert_eq!(stored.notification.updated_at, instant(50));
    let state = database.poll_state("github.com", 11).unwrap();
    assert_eq!(state.high_water.as_deref(), Some("100@50"));
    assert_eq!(
        state.last_modified.as_deref(),
        Some("Wed, 01 Jan 2025 00:00:00 GMT")
    );
    let discoveries = database.list_pending_discoveries("github.com", 11, at(60), 10);
    assert_eq!(discoveries.len(), 1);
    assert_eq!(discoveries[0].notification_id, "100");
    assert_eq!(discoveries[0].raw, raw);
    assert_eq!(database.due_discovery_count("github.com", 11, at(60)), 1);
}

#[test]
fn discovery_queue_retries_independently_and_new_notification_revision_reopens_it() {
    let mut database = Database::new();
    database
        .upsert_registration(
            "github.com",
            &registered(7, "acme/repo-7", "/work/repo-7"),
            at(40),
        )
        .unwrap();
    let item = notification(7, "100", instant(50));
    database.commit_poll(
        "github.com",
        11,
        &vec![(item.clone(), r#"{"id":"100","revision":1}"#.into())],
        None,
        Some("100@50"),
        at(60),
    );

    let claimed = database
        .claim_pending_discovery("github.com", 11, at(60))
        .unwrap()
        .unwrap();
    assert_eq!(claimed.attempts, 1);
    assert!(database.defer_discovery(
        "github.com",
        11,
        "100",
        "temporary GitHub failure",
        at(80),
        at(61),
    ));
    assert!(database
        .list_pending_discoveries("github.com", 11, at(79), 10)
        .is_empty());
    let retried = database
        .claim_pending_discovery("github.com", 11, at(80))
        .unwrap()
        .unwrap();
    assert_eq!(retried.attempts, 2);
    database.complete_discovery("github.com", 11, "100", at(81));

    // Seeing the same notification revision again is idempotent.
    database.commit_poll(
        "github.com",
        11,
        &vec![(item, r#"{"id":"100","revision":1}"#.into())],
        None,
        Some("100@50"),
        at(82),
    );
    assert!(database
        .list_pending_discoveries("github.com", 11, at(82), 10)
        .is_empty());

    let newer = notification(7, "100", instant(90));
    database.commit_poll(
        "github.com",
        11,
        &vec![(newer, r#"{"id":"100","revision":2}"#.into())],
        None,
        Some("100@90"),
        at(91),
    );
    let reopened = database
        .claim_pending_discovery("github.com", 11, at(91))
        .unwrap()
        .unwrap();
    assert_eq!(reopened.attempts, 1);
    assert_eq!(reopened.notification_updated_at, at(90));
    let raw: serde_json::Value = serde_json::from_str(&reopened.raw).unwrap();
    assert_eq!(raw["revision"], 2);
}

#[test]
fn bootstrap_storage_queue_and_acknowledgement_are_atomic() {
    let mut database = Database::new();
    database
        .upsert_registration(
            "github.com",
            &registered(7, "acme/repo-7", "/work/repo-7"),
            at(40),
        )
        .unwrap();
    let item = notification(7, "100", instant(50));
    assert!(database.commit_bootstrap(
        "github.com",
        11,
        7,
        &vec![(item, r#"{"id":"100"}"#.into())],
        at(60),
    ));
    assert_eq!(
        database.bootstrap_pending("github.com", 11, 7),
        Some(false)
    );
    assert_eq!(
        database
            .list_pending_discoveries("github.com", 11, at(60), 10)
            .len(),
        1
    );
}

#[test]
fn daemon_lease_cannot_be_stolen_before_expiry() {
    let mut database = Database::new();
    assert!(database
        .acquire_lease("github.com", 11, "octocat", "daemon-a", at(100), at(30))
        .unwrap());
    assert!(!database
        .acquire_lease("github.com", 11, "octocat", "daemon-b", at(120), at(30))
        .unwrap());
    assert!(database
        .renew_lease("github.com", 11, "daemon-a", at(120), at(30))
        .unwrap());
    assert!(database
        .acquire_lease(
            "github.com",
            11,
            "octocat",
            "daemon-b",
            at(51 + 100),
            at(30)
        )
        .unwrap());
    assert!(!database.release_lease("github.com", 11, "daemon-a"));
    assert!(database.release_lease("github.com", 11, "daemon-b"));
}

#[test]
fn tracked_pull_request_keeps_notification_and_is_scheduled() {
    let mut database = Database::new();
    let watched = TrackedPullRequest {
        host: "github.com".into(),
        viewer_id: 11,
        repository_id: 7,
        repository_full_name: "acme/widgets".into(),
        pull_request: pull(70, 7, "head"),
        notification_id: "100".into(),
        notification_updated_at: at(50),
        notification: r#"{"id":"100","raw":true}"#.into(),
        active: true,
        next_check_at: at(70),
        updated_at: at(60),
    };
    database.upsert_tracked_pull_request(&watched).unwrap();
    assert!(database
        .due_tracked_pull_requests("github.com", 11, at(69), 10)
        .is_empty());
    let due = database.due_tracked_pull_requests("github.com", 11, at(70), 10);
    assert_eq!(due.len(), 1);
    assert_eq!(due[0].notification, watched.notification);
    assert_eq!(due[0].notification_updated_at, at(50));
}

#[test]
fn actions_are_idempotent_and_new_heads_supersede_undispatched_work() {
    let mut database = Database::new();
    let old = new_action(7, 70, 7, "old", "request-1", at(100));
    let first = database.enqueue_action(&old, at(90)).unwrap();
    let duplicate = database.enqueue_action(&old, at(91)).unwrap();
    assert!(first.inserted);
    assert!(!duplicate.inserted);
    assert_eq!(duplicate.action_id, first.action_id);

    let new = new_action(7, 70, 7, "new", "request-1", at(100));
    let second = database.enqueue_action(&new, at(92)).unwrap();
    assert_eq!(second.superseded, 1);
    assert_eq!(
        database.get_action(first.action_id).unwrap().status,
        ActionStatus::Cancelled
    );
    assert_eq!(
        database.get_action(second.action_id).unwrap().status,
        ActionStatus::Pending
    );
}

#[test]
fn newer_requests_supersede_waiting_and_parked_work() {
    let mut database = Database::new();
    let queue = |database: &mut Database, trigger: &str, now: i64| {
        database
            .enqueue_action(&new_action(7, 70, 7, "head", trigger, at(100)), at(now))
            .unwrap()
    };
    let first = queue(&mut database, "request-1", 90);
    let second = queue(&mut database, "request-2", 91);
    assert!(second.inserted);
    assert_eq!(second.superseded, 1);
    let row = database.get_action(first.action_id).unwrap();
    assert_eq!(row.status, ActionStatus::Cancelled);
    assert_eq!(
        row.last_error.as_deref(),
        Some("superseded by newer review action")
    );

    for time in [100, 101, 102] {
        let claimed = database.claim_due_action("github.com", 11, 4, at(time));
        assert_eq!(claimed.unwrap().id, second.action_id);
        database.fail_action(second.action_id, "failed", at(time), at(time));
    }
    let parked = database.get_action(second.action_id).unwrap();
    assert_eq!(parked.status, ActionStatus::Parked);
    let third = queue(&mut database, "request-3", 103);
    assert_eq!(third.superseded, 1);
    let parked = database.get_action(second.action_id).unwrap();
    assert_eq!(parked.status, ActionStatus::Cancelled);

    // A review that runs is left to finish, and so is one of another pull
    // request.
    database
        .claim_due_action("github.com", 11, 4, at(104))
        .unwrap();
    let other = new_action(8, 80, 8, "head", "request-1", at(100));
    let other = database.enqueue_action(&other, at(104)).unwrap();
    let fourth = queue(&mut database, "request-4", 105);
    assert_eq!(fourth.superseded, 0);
    let running = database.get_action(third.action_id).unwrap();
    assert_eq!(running.status, ActionStatus::Running);
    let waiting = database.get_action(other.action_id).unwrap();
    assert_eq!(waiting.status, ActionStatus::Pending);
}

#[test]
fn a_new_base_refreshes_pending_payload_without_creating_a_new_action() {
    let mut database = Database::new();
    let old = new_action(7, 70, 7, "head", "request-1", at(100));
    let old_id = database.enqueue_action(&old, at(90)).unwrap().action_id;
    database
        .claim_due_action("github.com", 11, 4, at(100))
        .unwrap();
    database.fail_action(old_id, "command failed", at(130), at(101));

    let mut rebased = new_action(7, 70, 7, "head", "request-1", at(100));
    rebased.envelope.pull_request.base_sha = "new-base".into();
    let result = database.enqueue_action(&rebased, at(110)).unwrap();

    assert!(!result.inserted);
    assert_eq!(result.superseded, 0);
    assert_eq!(result.action_id, old_id);
    let refreshed = database.get_action(old_id).unwrap();
    assert_eq!(refreshed.status, ActionStatus::Pending);
    assert_eq!(refreshed.attempts, 1);
    assert_eq!(refreshed.due_at, at(130));
    assert_eq!(refreshed.base_sha, "new-base");
    assert_eq!(refreshed.envelope.pull_request.base_sha, "new-base");

    database
        .claim_due_action("github.com", 11, 4, at(130))
        .unwrap();
    database.complete_action(old_id, at(131));
    let mut later_base = rebased;
    later_base.envelope.pull_request.base_sha = "even-newer-base".into();
    let succeeded = database.enqueue_action(&later_base, at(140)).unwrap();
    assert!(!succeeded.inserted);
    let preserved = database.get_action(old_id).unwrap();
    assert_eq!(preserved.status, ActionStatus::Succeeded);
    assert_eq!(preserved.base_sha, "new-base");
    assert_eq!(preserved.envelope.pull_request.base_sha, "new-base");
}

#[test]
fn claims_enforce_global_and_per_repository_concurrency() {
    let mut database = Database::new();
    for action in [
        new_action(7, 70, 7, "a", "request-a", at(100)),
        new_action(7, 71, 8, "b", "request-b", at(101)),
        new_action(8, 80, 9, "c", "request-c", at(102)),
    ] {
        database.enqueue_action(&action, at(90)).unwrap();
    }

    let first = database
        .claim_due_action("github.com", 11, 2, at(110))
        .unwrap();
    let second = database
        .claim_due_action("github.com", 11, 2, at(110))
        .unwrap();
    assert_eq!(first.repository_id, 7);
    assert_eq!(second.repository_id, 8);
    assert_eq!(first.attempts, 1);
    assert!(database
        .claim_due_action("github.com", 11, 2, at(110))
        .is_none());
    database.complete_action(first.id, at(120));
    let third = database
        .claim_due_action("github.com", 11, 2, at(121))
        .unwrap();
    assert_eq!(third.repository_id, 7);
    assert_ne!(third.pull_request_id, first.pull_request_id);
}

#[test]
fn repository_concurrency_is_enforced_across_viewers() {
    let mut database = Database::new();
    let first = new_action(7, 70, 7, "a", "request-a", at(100));
    database.enqueue_action(&first, at(90)).unwrap();
    database
        .claim_due_action("github.com", 11, 4, at(100))
        .unwrap();

    let mut same_repository = new_action(7, 71, 8, "b", "request-b", at(100));
    same_repository.viewer_id = 12;
    same_repository.envelope.viewer = Viewer {
        id: 12,
        login: "another-octocat".into(),
    };
    database.enqueue_action(&same_repository, at(90)).unwrap();
    let mut another_repository = new_action(8, 80, 9, "c", "request-c", at(100));
    another_repository.viewer_id = 12;
    another_repository.envelope.viewer = Viewer {
        id: 12,
        login: "another-octocat".into(),
    };
    database
        .enqueue_action(&another_repository, at(90))
        .unwrap();

    let claimed = database
        .claim_due_action("github.com", 12, 4, at(100))
        .unwrap();
    assert_eq!(claimed.repository_id, 8);
}

#[test]
fn cancel_action_handles_undispatched_running_and_parked_work() {
    let mut database = Database::new();
    let mut ids = Vec::new();
    for (index, status) in [
        ActionStatus::Pending,
        ActionStatus::Running,
        ActionStatus::Parked,
    ]
    .into_iter()
    .enumerate()
    {
        let action = new_action(
            7 + index as i64,
            70 + index as i64,
            7 + index as u64,
            "head",
            &format!("request-{index}"),
            at(100),
        );
        let id = database.enqueue_action(&action, at(90)).unwrap().action_id;
        for row in &mut database.actions {
            if row.id == id {
                row.status = status;
            }
        }
        ids.push(id);
    }

    for id in &ids {
        assert!(database.cancel_action(*id, "repository was unregistered", at(110)));
        let action = database.get_action(*id).unwrap();
        assert_eq!(action.status, ActionStatus::Cancelled);
        assert_eq!(
            action.last_error.as_deref(),
            Some("repository was unregistered")
        );
    }
    assert!(!database.cancel_action(ids[0], "again", at(120)));
}

#[test]
fn third_command_failure_parks_action_and_manual_retry_resets_it() {
    let mut database = Database::new();
    let action = new_action(7, 70, 7, "head", "request-1", at(100));
    let action_id = database.enqueue_action(&action, at(90)).unwrap().action_id;
    for attempt in 1..=3 {
        let claimed = database
            .claim_due_action("github.com", 11, 4, at(100 + attempt))
            .unwrap();
        assert_eq!(claimed.attempts, attempt as u32);
        let status = database
            .fail_action(
                action_id,
                "review command failed",
                at(101 + attempt),
                at(100 + attempt),
            )
            .unwrap();
        assert_eq!(
            status,
            if attempt == 3 {
                ActionStatus::Parked
            } else {
                ActionStatus::Pending
            }
        );
    }
    assert!(database
        .claim_due_action("github.com", 11, 4, at(200))
        .is_none());
    assert_eq!(
        database
            .retry_newest_parked("github.com", 11, "acme/repo-7", 7, at(201))
            .unwrap(),
        Some(action_id)
    );
    let retried = database
        .claim_due_action("github.com", 11, 4, at(201))
        .unwrap();
    assert_eq!(retried.attempts, 1);
}

#[test]
fn infrastructure_failure_defers_without_consuming_command_attempt() {
    let mut database = Database::new();
    let action = new_action(7, 70, 7, "head", "request-1", at(100));
    let action_id = database.enqueue_action(&action, at(90)).unwrap().action_id;

    let claimed = database
        .claim_due_action("github.com", 11, 4, at(100))
        .unwrap();
    assert_eq!(claimed.attempts, 1);
    assert!(database.defer_action(action_id, "git fetch failed", at(120), at(101)));
    let deferred = database.get_action(action_id).unwrap();
    assert_eq!(deferred.status, ActionStatus::Pending);
    assert_eq!(deferred.attempts, 0);
    assert_eq!(deferred.due_at, at(120));
    assert_eq!(deferred.last_error.as_deref(), Some("git fetch failed"));

    let claimed_again = database
        .claim_due_action("github.com", 11, 4, at(120))
        .unwrap();
    assert_eq!(claimed_again.attempts, 1);
}

#[test]
fn status_and_pruning_keep_active_and_parked_work() {
    let mut database = Database::new();
    let old = at(1_000);
    let now = old + 100 * DAY;
    let succeeded = new_action(7, 70, 7, "done", "request-done", old);
    let succeeded_id = database.enqueue_action(&succeeded, old).unwrap().action_id;
    let claimed = database
        .claim_due_action("github.com", 11, 4, old)
        .unwrap();
    assert_eq!(claimed.id, succeeded_id);
    database.complete_action(succeeded_id, old);

    let parked = new_action(8, 80, 8, "parked", "request-parked", old);
    let parked_id = database.enqueue_action(&parked, old).unwrap().action_id;
    for attempt in 0..3 {
        database
            .claim_due_action("github.com", 11, 4, old + at(attempt))
            .unwrap();
        database.fail_action(
            parked_id,
            "failed",
            old + at(attempt + 1),
            old + at(attempt),
        );
    }

    let prune = database.prune_90_days(now);
    assert_eq!(prune.actions, 1);
    let snapshot = database.status_snapshot();
    assert_eq!(snapshot.action_counts.parked, 1);
    let ids: BTreeSet<_> = snapshot
        .pending_and_failed_actions
        .iter()
        .map(|action| action.id)
        .collect();
    assert_eq!(ids, BTreeSet::from([parked_id]));
}

#[test]
fn names_are_unique_within_a_host() {
    let mut database = Database::new();
    database
        .upsert_registration("github.com", &registered(7, "acme/widgets", "/a"), at(1))
        .unwrap();
    assert_eq!(
        database.upsert_registration("github.com", &registered(8, "acme/widgets", "/b"), at(2)),
        Err(DbError::NameTaken)
    );
    assert_eq!(database.list_registrations().len(), 1);
    assert!(database.is_registered("github.com", 7));
    assert!(!database.is_registered("github.com", 8));
    let found = database
        .get_registration_by_name("github.com", "acme/widgets")
        .unwrap();
    assert_eq!(found.repository.repository.id, 7);
}

#[test]
fn repeated_registration_keeps_the_bootstrap() {
    let mut database = Database::new();
    let same = registered(7, "acme/widgets", "/a");
    database
        .upsert_registration("github.com", &same, at(1))
        .unwrap();
    database.mark_bootstrap_complete("github.com", 11, 7, at(2));
    database
        .upsert_registration("github.com", &same, at(3))
        .unwrap();
    assert_eq!(
        database.bootstrap_pending("github.com", 11, 7),
        Some(false)
    );
    // The same path, written otherwise, is no change.
    database
        .upsert_registration("github.com", &registered(7, "acme/widgets", "/a/"), at(4))
        .unwrap();
    assert_eq!(
        database.bootstrap_pending("github.com", 11, 7),
        Some(false)
    );
    assert_eq!(database.bootstrap_pending("github.com", 11, 8), None);
}

#[test]
fn unregistering_ends_the_work_of_a_repository() {
    let mut database = Database::new();
    database
        .upsert_registration("github.com", &registered(7, "acme/repo-7", "/a"), at(1))
        .unwrap();
    let id = database
        .enqueue_action(&new_action(7, 70, 7, "head", "request-1", at(1)), at(1))
        .unwrap()
        .action_id;
    assert!(database.remove_registration("github.com", 7, at(5)));
    let action = database.get_action(id).unwrap();
    assert_eq!(action.status, ActionStatus::Cancelled);
    assert!(database.list_registrations().is_empty());
    assert_eq!(database.bootstrap_pending("github.com", 11, 7), None);
}

#[test]
fn named_values_are_kept() {
    let mut database = Database::new();
    assert_eq!(database.get_metadata("cursor"), None);
    database.set_metadata("cursor", "one", at(1));
    database.set_metadata("cursor", "two", at(2));
    database.set_metadata("other", "three", at(3));
    assert_eq!(database.get_metadata("cursor").as_deref(), Some("two"));
    assert_eq!(database.get_metadata("other").as_deref(), Some("three"));
}

#[test]
fn refused_operations_name_their_reason() {
    let mut database = Database::new();
    assert_eq!(
        database.acquire_lease("github.com", 11, "me", "a", at(1), 0),
        Err(DbError::LeaseDurationNotPositive)
    );
    assert_eq!(
        database.renew_lease("github.com", 11, "a", i64::MAX, at(1)),
        Err(DbError::LeaseExpiryOverflow)
    );
    assert_eq!(
        database.enqueue_action(&new_action(7, 70, u64::MAX, "head", "request-1", at(1)), at(1)),
        Err(DbError::NumberTooLarge)
    );
    assert_eq!(
        DbError::NumberTooLarge.message(),
        "GitHub number exceeds SQLite integer range"
    );
    assert_eq!(
        DbError::LeaseDurationNotPositive.message(),
        "lease duration must be positive"
    );
    assert_eq!(
        DbError::LeaseExpiryOverflow.message(),
        "lease expiry overflow"
    );
    assert_eq!(
        ActionStatus::parse("lost").unwrap_err().message(),
        "invalid review action status in database: lost"
    );
    assert_eq!(
        DiscoveryStatus::parse("lost").unwrap_err().message(),
        "invalid notification discovery status in database: lost"
    );
    assert_eq!(
        migration_plan(6).unwrap_err().message(),
        "database schema version 6 is newer than supported version 5"
    );
    database.last_action_id = i64::MAX;
    assert_eq!(
        database.enqueue_action(&new_action(7, 70, 7, "head", "request-1", at(1)), at(1)),
        Err(DbError::ActionIdsExhausted)
    );
}

#[test]
fn incomplete_discoveries_are_refused() {
    let mut database = Database::new();
    database
        .upsert_registration("github.com", &registered(7, "acme/repo-7", "/a"), at(1))
        .unwrap();
    database.upsert_notification(
        "github.com",
        11,
        &notification(7, "100", instant(50)),
        "{}",
        at(60),
    );
    database.discoveries[0].attempts = u32::MAX;
    assert_eq!(
        database.claim_pending_discovery("github.com", 11, at(60)),
        Err(DbError::AttemptsExhausted)
    );
    database.notifications.clear();
    assert_eq!(
        database.claim_pending_discovery("github.com", 11, at(60)),
        Err(DbError::NotificationMissing)
    );
}

#[test]
fn statuses_read_back() {
    for status in [
        ActionStatus::Pending,
        ActionStatus::Running,
        ActionStatus::Succeeded,
        ActionStatus::Parked,
        ActionStatus::Cancelled,
    ] {
        assert_eq!(ActionStatus::parse(status.as_str()), Ok(status));
    }
    for status in [
        DiscoveryStatus::Pending,
        DiscoveryStatus::Running,
        DiscoveryStatus::Completed,
    ] {
        assert_eq!(DiscoveryStatus::parse(status.as_str()), Ok(status));
    }
}

#[test]
fn plans_lead_to_the_current_version() {
    assert_eq!(migration_plan(SCHEMA_VERSION).unwrap(), Vec::<Migration>::new());
    for version in 0..SCHEMA_VERSION {
        let plan = migration_plan(version).unwrap();
        assert_eq!(plan.last().map(|step| step.version()), Some(SCHEMA_VERSION));
    }
}

#[test]
fn recovery_puts_running_work_back() {
    let mut database = Database::new();
    let id = database
        .enqueue_action(&new_action(7, 70, 7, "head", "request-1", at(1)), at(1))
        .unwrap()
        .action_id;
    database
        .claim_due_action("github.com", 11, 1, at(1))
        .unwrap();
    assert_eq!(
        database.recover_running_actions("github.com", 11, at(9), at(9)),
        1
    );
    let action = database.get_action(id).unwrap();
    assert_eq!(action.status, ActionStatus::Pending);
    assert_eq!(action.attempts, 1);
    assert_eq!(action.due_at, at(9));
    assert_eq!(
        action.last_error.as_deref(),
        Some("daemon stopped while review command was running")
    );
}

#[test]
fn default_path_lies_in_the_home_directory() {
    assert_eq!(
        Database::default_path(Some("/home/me")).as_deref(),
        Ok("/home/me/.config/github-reviews/state.sqlite3")
    );
    assert_eq!(
        Database::default_path(None),
        Err("no home directory is available")
    );
}
