use github_reviews::model::{
    classify_actionability, contains_id, ActionReason, Actionability, OpinionatedReview,
    PullRequestState, ReviewRequestEvent, ReviewRequestKind, ReviewState, Viewer,
};
use github_reviews::time::Timestamp;

fn viewer(id: i64) -> Viewer {
    Viewer {
        id,
        login: format!("user-{id}"),
    }
}

fn instant(text: &str) -> Timestamp {
    Timestamp::parse(text).unwrap()
}

fn pull() -> PullRequestState {
    PullRequestState {
        id: 1,
        number: 7,
        url: "https://github.com/acme/widgets/pull/7".into(),
        title: "Change".into(),
        author: viewer(2),
        state: "open".into(),
        draft: false,
        merged: false,
        head_sha: "head".into(),
        head_ref: "feature".into(),
        base_sha: "base".into(),
        base_ref: "main".into(),
        directly_requested: true,
        requested_team_ids: vec![],
        latest_review: None,
        latest_request: None,
        non_opinionated_review_after_request: false,
    }
}

#[test]
fn excludes_self_authored_pull_requests() {
    let mut pull = pull();
    pull.author = viewer(1);
    assert_eq!(
        classify_actionability(&viewer(1), &[], &pull),
        Actionability::Inactive("current user authored the pull request")
    );
}

#[test]
fn changed_head_after_changes_requested_is_actionable() {
    let mut pull = pull();
    pull.directly_requested = false;
    pull.latest_review = Some(OpinionatedReview {
        id: 5,
        state: ReviewState::ChangesRequested,
        commit_sha: Some("old".into()),
        submitted_at: Some(instant("2026-01-02T00:00:00Z")),
    });
    assert_eq!(
        classify_actionability(&viewer(1), &[], &pull),
        Actionability::Actionable(ActionReason::HeadChangedAfterChangesRequested)
    );
}

#[test]
fn comment_only_review_remains_actionable_after_github_removes_request() {
    let mut pull = pull();
    pull.directly_requested = false;
    pull.non_opinionated_review_after_request = true;
    assert_eq!(
        classify_actionability(&viewer(1), &[], &pull),
        Actionability::Actionable(ActionReason::ReviewRequested)
    );
}

#[test]
fn manually_withdrawn_request_is_dormant() {
    let mut pull = pull();
    pull.directly_requested = false;
    assert_eq!(
        classify_actionability(&viewer(1), &[], &pull),
        Actionability::Dormant("review request was withdrawn")
    );
}

#[test]
fn approval_requires_a_newer_active_request() {
    let submitted_at = instant("2026-01-02T00:00:00Z");
    let mut pull = pull();
    pull.latest_review = Some(OpinionatedReview {
        id: 5,
        state: ReviewState::Approved,
        commit_sha: Some("head".into()),
        submitted_at: Some(submitted_at),
    });
    pull.latest_request = Some(ReviewRequestEvent {
        event_id: "old-request".into(),
        created_at: instant("2026-01-01T00:00:00Z"),
        kind: ReviewRequestKind::User,
        requested_id: 1,
    });
    assert!(matches!(
        classify_actionability(&viewer(1), &[], &pull),
        Actionability::Dormant(_)
    ));
    // An unrelated notification update after the approval is not an
    // authoritative re-request.
    assert!(matches!(
        classify_actionability(&viewer(1), &[], &pull),
        Actionability::Dormant(_)
    ));
    pull.latest_request = Some(ReviewRequestEvent {
        event_id: "new-request".into(),
        created_at: instant("2026-01-03T00:00:00Z"),
        kind: ReviewRequestKind::User,
        requested_id: 1,
    });
    assert_eq!(
        classify_actionability(&viewer(1), &[], &pull),
        Actionability::Actionable(ActionReason::RerequestedAfterApproval)
    );
}

#[test]
fn team_request_is_actionable_for_team_member() {
    let mut pull = pull();
    pull.directly_requested = false;
    pull.requested_team_ids = vec![99];
    assert_eq!(
        classify_actionability(&viewer(1), &[99], &pull),
        Actionability::Actionable(ActionReason::ReviewRequested)
    );
}

#[test]
fn team_request_means_nothing_to_others() {
    let mut pull = pull();
    pull.directly_requested = false;
    pull.requested_team_ids = vec![99];
    assert_eq!(
        classify_actionability(&viewer(1), &[98], &pull),
        Actionability::Dormant("review request was withdrawn")
    );
    assert!(contains_id(&[1, 99], 99));
    assert!(!contains_id(&[1, 99], 2));
}

#[test]
fn closed_merged_and_draft_pull_requests_are_inactive() {
    let expected = Actionability::Inactive("pull request is not open and ready for review");
    let mut closed = pull();
    closed.state = "closed".into();
    assert_eq!(classify_actionability(&viewer(1), &[], &closed), expected);
    let mut merged = pull();
    merged.merged = true;
    assert_eq!(classify_actionability(&viewer(1), &[], &merged), expected);
    let mut draft = pull();
    draft.draft = true;
    assert_eq!(classify_actionability(&viewer(1), &[], &draft), expected);
}

#[test]
fn reviewed_head_is_dormant_until_it_changes() {
    let mut pull = pull();
    pull.latest_review = Some(OpinionatedReview {
        id: 5,
        state: ReviewState::ChangesRequested,
        commit_sha: Some("head".into()),
        submitted_at: None,
    });
    assert_eq!(
        classify_actionability(&viewer(1), &[], &pull),
        Actionability::Dormant("head has not changed since changes were requested")
    );
    pull.latest_review = Some(OpinionatedReview {
        id: 5,
        state: ReviewState::ChangesRequested,
        commit_sha: None,
        submitted_at: None,
    });
    assert_eq!(
        classify_actionability(&viewer(1), &[], &pull),
        Actionability::Actionable(ActionReason::HeadChangedAfterChangesRequested)
    );
}

#[test]
fn approval_without_a_request_is_dormant() {
    let mut pull = pull();
    pull.directly_requested = false;
    pull.latest_review = Some(OpinionatedReview {
        id: 5,
        state: ReviewState::Approved,
        commit_sha: Some("old".into()),
        submitted_at: None,
    });
    assert_eq!(
        classify_actionability(&viewer(1), &[], &pull),
        Actionability::Dormant("pull request is approved")
    );
}

#[test]
fn reasons_have_stable_names() {
    assert_eq!(ActionReason::ReviewRequested.as_str(), "review_requested");
    assert_eq!(
        ActionReason::HeadChangedAfterChangesRequested.as_str(),
        "head_changed_after_changes_requested"
    );
    assert_eq!(
        ActionReason::RerequestedAfterApproval.as_str(),
        "rerequested_after_approval"
    );
}
