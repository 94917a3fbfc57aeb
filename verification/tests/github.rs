use std::collections::HashSet;

use github_reviews::github::client::{
    get_request, request_wait, GhClient, NotificationPolling, PageWalk, PollStep, Received,
    WalkStep,
};
use github_reviews::github::graphql::{
    answer_path, check_graphql, graphql_args, graphql_body, graphql_succeeded, page_path,
    pull_request_batch, result_at, Answer, ConnectionPage, GraphErrorEntry, PageReader,
    PullConnection,
};
use github_reviews::github::http::{
    ensure_success, metadata_from_headers, next_link, parse_http_response, parse_output,
    parse_output_text, ApiResponse,
};
use github_reviews::github::pulls::{
    Connection, GraphActor, GraphPullRequest, GraphReview, GraphReviewAuthor, GraphReviewRequest,
    GraphReviewRequestedEvent, GraphReviewer, PageInfo, ReviewResponse, TeamId, TimelineEvent,
    GHOST_USER_ID,
};
use github_reviews::github::states::{Asker, BatchAsked, PageAsked, StatesStep};
use github_reviews::github::{
    endpoint_from_link, merge_rate_metadata, page_crosses_overlap, parse_pull_request_api_url,
    parse_pull_request_number, validate_full_name, GhError, ResponseMetadata,
};
use github_reviews::model::{
    Notification, NotificationRepository, NotificationSubject, PullRequestState, ReviewRequestKind,
    ReviewState, Viewer,
};
use github_reviews::time::{Duration, Timestamp};

fn asking() -> Asker {
    Asker {
        viewer: me(),
        team_ids: vec![],
        trust_team_notification: false,
    }
}

fn asked_batch(step: Result<StatesStep, GhError>) -> BatchAsked {
    match step {
        Ok(StatesStep::Batch(asked)) => asked,
        _ => panic!("no batch was asked for"),
    }
}

fn asked_page(step: Result<StatesStep, GhError>) -> PageAsked {
    match step {
        Ok(StatesStep::Page(asked)) => asked,
        _ => panic!("no page was asked for"),
    }
}

fn done(step: Result<StatesStep, GhError>) -> Vec<Result<PullRequestState, GhError>> {
    match step {
        Ok(StatesStep::Done(states)) => states,
        _ => panic!("the list was not read to its end"),
    }
}

fn failure(step: Result<StatesStep, GhError>) -> GhError {
    match step {
        Err(error) => error,
        Ok(_) => panic!("the list did not fail"),
    }
}

fn instant(text: &str) -> Timestamp {
    Timestamp::parse(text).unwrap()
}

fn seconds(seconds: u64) -> Duration {
    Duration { seconds, nanos: 0 }
}

fn me() -> Viewer {
    Viewer {
        id: 1,
        login: "me".into(),
    }
}

fn notification(id: &str, updated_at: &str, url: Option<&str>) -> Notification {
    Notification {
        id: id.into(),
        reason: "review_requested".into(),
        unread: true,
        updated_at: instant(updated_at),
        repository: NotificationRepository {
            id: 7,
            full_name: "acme/widgets".into(),
            extra: "{}".into(),
        },
        subject: NotificationSubject {
            title: "Review".into(),
            kind: "PullRequest".into(),
            url: url.map(str::to_owned),
            extra: "{}".into(),
        },
        extra: "{}".into(),
    }
}

fn last_page<T>(nodes: Vec<Option<T>>) -> Connection<T> {
    Connection {
        page_info: PageInfo {
            has_next_page: false,
            end_cursor: None,
        },
        nodes,
    }
}

fn graph_pull(number: u64, author: Option<GraphActor>, state: &str) -> GraphPullRequest {
    GraphPullRequest {
        database_id: number as i64 * 100,
        number,
        url: format!("https://github.com/acme/widgets/pull/{number}"),
        title: format!("PR {number}"),
        state: state.into(),
        is_draft: false,
        merged: state == "MERGED",
        head_ref_oid: "h".into(),
        head_ref_name: "f".into(),
        base_ref_oid: "b".into(),
        base_ref_name: "main".into(),
        author,
        review_requests: last_page(vec![]),
        reviews: last_page(vec![]),
        timeline_items: last_page(vec![]),
    }
}

fn viewer_review(id: i64, state: &str, submitted_at: &str, oid: &str) -> GraphReview {
    GraphReview {
        database_id: Some(id),
        state: state.into(),
        submitted_at: Some(instant(submitted_at)),
        commit_oid: Some(oid.into()),
        author: Some(GraphReviewAuthor {
            login: "me".into(),
            database_id: Some(1),
        }),
    }
}

fn asked_user() -> GraphReviewer {
    GraphReviewer {
        typename: "User".into(),
        database_id: Some(1),
        login: Some("me".into()),
    }
}

fn asked_team() -> GraphReviewer {
    GraphReviewer {
        typename: "Team".into(),
        database_id: Some(77),
        login: None,
    }
}

fn answered(text: &str) -> ApiResponse {
    parse_output_text("test", text, String::new(), true).unwrap()
}

#[test]
fn parses_crlf_headers_and_metadata() {
    let input = "HTTP/2.0 200 OK\r\n\
        Last-Modified: Tue, 01 Jan 2030 00:00:00 GMT\r\n\
        X-Poll-Interval: 60\r\n\
        X-RateLimit-Remaining: 4999\r\n\
        Link: <https://api.github.com/notifications?page=2>; rel=\"next\", \
        <https://api.github.com/notifications?page=5>; rel=\"last\"\r\n\
        \r\n\
        [{\"id\":1}]";
    let (status, headers, body) = parse_http_response(input).unwrap();
    let metadata = metadata_from_headers(status, &headers);
    assert_eq!(metadata.status, 200);
    assert_eq!(metadata.poll_interval, Some(Duration::from_secs(60)));
    assert_eq!(metadata.rate_limit_remaining, Some(4999));
    assert_eq!(
        metadata.next.as_deref(),
        Some("https://api.github.com/notifications?page=2")
    );
    assert_eq!(body, "[{\"id\":1}]");
}

#[test]
fn parses_304_without_a_body() {
    let input = "HTTP/2 304 Not Modified\nX-Poll-Interval: 90\n\n";
    let (status, headers, body) = parse_http_response(input).unwrap();
    assert_eq!(status, 304);
    assert_eq!(body, "");
    assert_eq!(
        metadata_from_headers(status, &headers).poll_interval,
        Some(Duration::from_secs(90))
    );
}

#[test]
fn uses_last_header_block() {
    let input = "HTTP/1.1 100 Continue\r\n\r\nHTTP/2 200 OK\r\nFoo: bar\r\n\r\n{}";
    let (status, headers, body) = parse_http_response(input).unwrap();
    assert_eq!(status, 200);
    assert_eq!(headers.get("foo").map(String::as_str), Some("bar"));
    assert_eq!(body, "{}");
}

#[test]
fn extracts_pull_request_identity() {
    assert_eq!(
        parse_pull_request_api_url("https://api.github.com/repos/acme/widgets/pulls/42").unwrap(),
        ("acme/widgets".to_owned(), 42)
    );
    assert_eq!(
        parse_pull_request_api_url("/repos/acme/widgets/pulls/42?ignored=yes").unwrap(),
        ("acme/widgets".to_owned(), 42)
    );
}

#[test]
fn rejects_non_github_pagination_hosts() {
    assert!(endpoint_from_link("https://evil.example/steal").is_err());
}

#[test]
fn ignores_non_opinionated_reviews() {
    let review = ReviewResponse {
        id: 1,
        user: Viewer {
            id: 2,
            login: "octocat".into(),
        },
        state: "COMMENTED".into(),
        commit_id: Some("abc".into()),
        submitted_at: None,
    };
    assert!(review.into_opinionated().is_none());
}

#[test]
fn notification_page_crossing_overlap_stops_pagination() {
    let page = vec![notification("thread", "2030-01-01T11:59:00Z", None)];
    assert!(page_crosses_overlap(
        &page,
        Some(instant("2030-01-01T12:00:00Z"))
    ));
    assert!(!page_crosses_overlap(
        &page,
        Some(instant("2030-01-01T11:59:30Z"))
    ));
    assert!(!page_crosses_overlap(&page, None));
}

#[test]
fn trusted_notification_accepts_an_active_team_request_event() {
    let event = || TimelineEvent::ReviewRequested {
        id: 21,
        node_id: Some("RRE_team".into()),
        created_at: instant("2030-01-03T00:00:00Z"),
        requested_reviewer: None,
        requested_team: Some(TeamId { id: 77 }),
    };
    let viewer = me();
    let active_teams = HashSet::from([77]);
    assert!(event()
        .into_review_request(&viewer, &[], false, &active_teams)
        .is_none());
    let request = event()
        .into_review_request(&viewer, &[], true, &active_teams)
        .unwrap();
    assert_eq!(request.kind, ReviewRequestKind::Team);
    assert_eq!(request.requested_id, 77);
}

#[test]
fn injected_executable_receives_conditional_header_and_handles_304() {
    let polling = GhClient::with_executable("fake-gh".into())
        .poll_global_notifications(Some("Tue, 01 Jan 2030 00:00:00 GMT"), None);
    let recorded = polling.request();
    assert!(recorded
        .contains(&"If-Modified-Since: Tue, 01 Jan 2030 00:00:00 GMT".to_owned()));
    assert!(recorded.contains(&"/notifications?all=true&per_page=50".to_owned()));
    let response = parse_output_text(
        "/notifications?all=true&per_page=50",
        "HTTP/2 304 Not Modified\nX-Poll-Interval: 75\n\n",
        String::new(),
        false,
    )
    .unwrap();
    let Received::NotModified(poll) = polling.receive(&response).unwrap() else {
        panic!("a page was expected")
    };
    assert!(poll.not_modified);
    assert_eq!(poll.metadata.poll_interval, Some(Duration::from_secs(75)));
}

fn answer_poll(mut polling: NotificationPolling) -> (Vec<Vec<String>>, github_reviews::github::client::NotificationPoll) {
    let url = Some("https://api.github.com/repos/acme/widgets/pulls/42");
    let mut calls = Vec::new();
    loop {
        let call = polling.request();
        let second = call.iter().any(|argument| argument.contains("page=2"));
        calls.push(call);
        let response = if second {
            answered("HTTP/2 200 OK\n\n[]")
        } else {
            answered(
                "HTTP/2 200 OK\nLast-Modified: later\nLink: <https://api.github.com/notifications?all=true&per_page=100&page=2>; rel=\"next\"\n\n[]",
            )
        };
        assert!(matches!(polling.receive(&response), Ok(Received::Page)));
        let id = if second { "second" } else { "first" };
        let page = vec![notification(id, "2030-01-01T00:00:00Z", url)];
        match polling.advance(page, response.metadata).unwrap() {
            PollStep::Request(next) => polling = next,
            PollStep::Done(poll) => return (calls, poll),
        }
    }
}

#[test]
fn notification_poll_follows_link_pages_without_forwarding_validator() {
    let (calls, poll) =
        answer_poll(GhClient::new().poll_global_notifications(Some("older"), None));
    assert_eq!(poll.notifications.len(), 2);
    assert_eq!(poll.metadata.last_modified.as_deref(), Some("later"));
    assert_eq!(calls.len(), 2);
    assert!(calls[0].contains(&"If-Modified-Since: older".to_owned()));
    assert!(!calls[1]
        .iter()
        .any(|argument| argument.contains("If-Modified-Since")));

    let (calls, bounded) = answer_poll(GhClient::new().poll_global_notifications(
        Some("older"),
        Some(instant("2030-01-01T00:01:00Z")),
    ));
    assert_eq!(bounded.notifications.len(), 1);
    assert_eq!(calls.len(), 1);
}

#[test]
fn enriches_pull_request_and_selects_latest_opinionated_viewer_review() {
    let mut pull = graph_pull(
        42,
        Some(GraphActor {
            typename: "User".into(),
            login: "author".into(),
            database_id: Some(3),
        }),
        "OPEN",
    );
    pull.database_id = 99;
    pull.head_ref_oid = "head".into();
    pull.review_requests = last_page(vec![
        Some(GraphReviewRequest {
            requested_reviewer: Some(asked_user()),
        }),
        Some(GraphReviewRequest {
            requested_reviewer: Some(asked_team()),
        }),
    ]);
    pull.reviews = Connection {
        page_info: PageInfo {
            has_next_page: true,
            end_cursor: Some("c1".into()),
        },
        nodes: vec![Some(viewer_review(
            11,
            "APPROVED",
            "2030-01-01T00:00:00Z",
            "older-head",
        ))],
    };
    pull.timeline_items = last_page(vec![
        Some(GraphReviewRequestedEvent {
            id: "RRE_user".into(),
            created_at: instant("2030-01-01T00:00:00Z"),
            requested_reviewer: Some(asked_user()),
        }),
        Some(GraphReviewRequestedEvent {
            id: "RRE_team".into(),
            created_at: instant("2030-01-03T00:00:00Z"),
            requested_reviewer: Some(asked_team()),
        }),
    ]);

    let asker = Asker {
        team_ids: vec![77],
        ..asking()
    };
    let first = asked_batch(GhClient::new().pull_request_state("acme/widgets", 42, asker));
    assert_eq!(first.query.variables[0], ("viewer".into(), "me".into()));
    let asked = asked_page(first.answered(Ok((vec![], vec![Answer::Found(pull)]))));
    assert_eq!(asked.reader.stage, PullConnection::Reviews);
    assert!(asked.query.query.contains("after: $after"));
    assert!(asked.query.variables.contains(&("after".into(), "c1".into())));
    let page = ConnectionPage::Reviews(Some(last_page(vec![Some(viewer_review(
        12,
        "CHANGES_REQUESTED",
        "2030-01-02T00:00:00Z",
        "old-head",
    ))])));
    let pull = done(asked.answered(Ok(page))).pop().unwrap().unwrap();
    assert_eq!(pull.id, 99);
    assert_eq!(pull.state, "open");
    assert_eq!(pull.author.login, "author");
    assert!(pull.directly_requested);
    assert_eq!(pull.requested_team_ids, vec![77]);
    assert_eq!(pull.head_sha, "head");
    assert_eq!(pull.base_ref, "main");
    let review = pull.latest_review.unwrap();
    assert_eq!(review.id, 12);
    assert_eq!(review.state, ReviewState::ChangesRequested);
    assert_eq!(review.commit_sha.as_deref(), Some("old-head"));
    let request = pull.latest_request.unwrap();
    assert_eq!(request.event_id, "RRE_team");
    assert_eq!(request.kind, ReviewRequestKind::Team);
    assert_eq!(request.requested_id, 77);
}

#[test]
fn batches_pull_requests_in_one_query_and_reports_missing_ones() {
    let batch: Vec<(String, u64)> = vec![
        ("acme/widgets".into(), 1),
        ("acme/widgets".into(), 2),
        ("other/gone".into(), 3),
        ("acme/widgets".into(), 4),
    ];
    let built = asked_batch(GhClient::new().pull_request_states(batch, asking()));
    assert_eq!(built.aliases, vec![0, 0, 1, 0]);
    let body = graphql_body(&built.query).unwrap();
    let errors = vec![
        GraphErrorEntry {
            kind: Some("NOT_FOUND".into()),
            message: "Could not resolve to a PullRequest with the number of 2.".into(),
            path: vec![Some("r0".into()), Some("p1".into())],
        },
        GraphErrorEntry {
            kind: Some("NOT_FOUND".into()),
            message: "Could not resolve to a Repository with the name 'other/gone'.".into(),
            path: vec![Some("r1".into())],
        },
    ];
    let bot = GraphActor {
        typename: "Bot".into(),
        login: "dependabot".into(),
        database_id: Some(49699333),
    };
    let answers = vec![
        Answer::Found(graph_pull(1, Some(bot), "MERGED")),
        Answer::Missing,
        Answer::Missing,
        Answer::Found(graph_pull(4, None, "OPEN")),
    ];
    let results = done(built.answered(Ok((errors, answers))));
    assert_eq!(results.len(), 4);
    let merged = results[0].as_ref().unwrap();
    assert_eq!(merged.author.login, "dependabot[bot]");
    assert_eq!(merged.author.id, 49699333);
    assert_eq!(merged.state, "closed");
    assert!(merged.merged);
    assert!(results[1].as_ref().unwrap_err().is_not_found());
    assert!(results[2].as_ref().unwrap_err().is_not_found());
    let ghost = results[3].as_ref().unwrap();
    assert_eq!(
        (ghost.author.id, ghost.author.login.as_str()),
        (GHOST_USER_ID, "ghost")
    );

    let call: serde_json::Value = serde_json::from_slice(&body).unwrap();
    assert_eq!(call["variables"]["o0"], "acme");
    assert_eq!(call["variables"]["n1"], "gone");
    let query = call["query"].as_str().unwrap();
    assert!(
        !query.contains("acme"),
        "names must travel as variables: {query}"
    );
    assert!(query.contains("p3: pullRequest(number: 4)"));
}

#[test]
fn graphql_rate_limit_fails_the_whole_batch() {
    let response = parse_output_text(
        "graphql",
        "HTTP/2 200 OK\nX-RateLimit-Remaining: 0\nX-RateLimit-Reset: 1\n\n{\"data\":null,\"errors\":[{\"type\":\"RATE_LIMITED\",\"message\":\"API rate limit exceeded\"}]}",
        String::new(),
        false,
    )
    .unwrap();
    let errors = vec![GraphErrorEntry {
        kind: Some("RATE_LIMITED".into()),
        message: "API rate limit exceeded".into(),
        path: vec![],
    }];
    assert!(graphql_succeeded(&response));
    let error = check_graphql(response, &errors).unwrap_err();
    let asked = asked_batch(GhClient::new().pull_request_states(
        vec![("acme/widgets".into(), 1)],
        asking(),
    ));
    let error = failure(asked.answered(Err(error)));
    assert!(matches!(error, GhError::Status { .. }));
    assert_eq!(error.metadata().unwrap().rate_limit_remaining, Some(0));
}

#[test]
fn located_errors_fail_one_answer_only() {
    let located = vec![GraphErrorEntry {
        kind: Some("FORBIDDEN".into()),
        message: "no".into(),
        path: vec![Some("r0".into()), None, Some("x".into())],
    }];
    assert!(check_graphql(answered("HTTP/2 200 OK\n\n{}"), &located).is_ok());
    assert!(check_graphql(answered("HTTP/2 502 Bad\n\n{}"), &vec![]).is_err());
    let path = answer_path(0, 3);
    assert_eq!(path, vec!["r0", "p3"]);
    assert!(result_at(&located, &path, "a/b#1", false).is_ok());
    let two = vec![
        GraphErrorEntry {
            kind: None,
            message: "one".into(),
            path: vec![Some("r0".into())],
        },
        GraphErrorEntry {
            kind: Some("NOT_FOUND".into()),
            message: "two".into(),
            path: vec![Some("r0".into()), Some("p3".into()), Some("author".into())],
        },
    ];
    assert_eq!(
        result_at(&two, &path, "a/b#1", false).unwrap_err().message(),
        "invalid response from gh: a/b#1: one; two"
    );
    assert_eq!(
        result_at(&vec![], &path, "a/b#1", true).unwrap_err().message(),
        "invalid response from gh: a/b#1 is missing from the GraphQL response"
    );
}

#[test]
fn queries_are_written_out() {
    let built = pull_request_batch(&vec![("a/b".into(), 5)], "me").unwrap();
    assert!(built.query.query.starts_with(
        "query($viewer: String!, $o0: String!, $n0: String!) { r0: repository(owner: $o0, name: $n0) { p0: pullRequest(number: 5) { ...PullRequestState } } } fragment PullRequestState on PullRequest { databaseId number url title state isDraft merged headRefOid headRefName baseRefOid baseRefName author { __typename login "
    ));
    assert_eq!(
        PullConnection::Reviews.selection(true),
        "reviews(first: 100, author: $viewer, after: $after) { pageInfo { hasNextPage endCursor } nodes { databaseId state submittedAt commit { oid } author { login ... on User { databaseId } } } }"
    );
    assert_eq!(
        PullConnection::ReviewRequestedEvents.selection(false),
        "timelineItems(first: 100, itemTypes: [REVIEW_REQUESTED_EVENT]) { pageInfo { hasNextPage endCursor } nodes { ... on ReviewRequestedEvent { id createdAt requestedReviewer { __typename ... on User { databaseId login } ... on Team { databaseId } } } } }"
    );
    assert_eq!(
        graphql_args(),
        [
            "api",
            "graphql",
            "--hostname",
            "github.com",
            "--include",
            "--input",
            "-",
            "-H",
            "X-GitHub-Api-Version: 2022-11-28"
        ]
    );
    assert_eq!(
        pull_request_batch(&vec![("a/b".into(), 5), ("ab".into(), 6)], "me")
            .unwrap_err()
            .message(),
        "invalid response from gh: invalid GitHub repository name: ab"
    );
}

#[test]
fn bodies_escape_what_json_escapes() {
    let mut built = pull_request_batch(&vec![("a/b".into(), 5)], "m\"e").unwrap();
    built.query.query = "query \"x\"\n".into();
    let body = graphql_body(&built.query).unwrap();
    assert_eq!(
        String::from_utf8(body).unwrap(),
        "{\"query\":\"query \\\"x\\\"\\n\",\"variables\":{\"n0\":\"b\",\"o0\":\"a\",\"viewer\":\"m\\\"e\"}}"
    );
}

#[test]
fn graphql_answers_need_a_status_of_success() {
    for (status, success) in [(199, false), (200, true), (299, true), (300, false), (403, false)] {
        let response = answered(&format!("HTTP/2 {status} X\n\n{{}}"));
        assert_eq!(graphql_succeeded(&response), success, "{status}");
        assert_eq!(check_graphql(response, &vec![]).is_ok(), success, "{status}");
    }
    assert_eq!(page_path(), ["r", "p"]);
}

/// The pull requests with a number that eleven divides are missing; those with
/// one that seven divides have a second page of reviews, which fails for
/// fourteen and its multiples.
fn read_list(pulls: Vec<(String, u64)>) -> (Vec<usize>, Vec<Result<u64, String>>) {
    let mut sizes = Vec::new();
    let mut step = GhClient::new().pull_request_states(pulls, asking());
    loop {
        step = match step.unwrap_or_else(|error| panic!("{}", error.message())) {
            StatesStep::Batch(asked) => {
                sizes.push(asked.batch.len());
                let mut errors = Vec::new();
                let mut answers = Vec::new();
                for (place, (_, number)) in asked.batch.iter().enumerate() {
                    if number % 11 == 0 {
                        errors.push(GraphErrorEntry {
                            kind: Some("NOT_FOUND".into()),
                            message: "gone".into(),
                            path: answer_path(asked.aliases[place], place)
                                .into_iter()
                                .map(Some)
                                .collect(),
                        });
                        answers.push(Answer::Missing);
                        continue;
                    }
                    let mut pull = graph_pull(*number, None, "OPEN");
                    if number % 7 == 0 {
                        pull.reviews.page_info = PageInfo {
                            has_next_page: true,
                            end_cursor: Some("c".into()),
                        };
                    }
                    answers.push(Answer::Found(pull));
                }
                asked.answered(Ok((errors, answers)))
            }
            StatesStep::Page(asked) => {
                let page = if asked.reader.number % 14 == 0 {
                    Err(GhError::Protocol("page lost".into()))
                } else {
                    Ok(ConnectionPage::Reviews(Some(last_page(vec![]))))
                };
                asked.answered(page)
            }
            StatesStep::Done(states) => {
                let read = states
                    .into_iter()
                    .map(|state| state.map(|state| state.number).map_err(|e| e.message()))
                    .collect();
                return (sizes, read);
            }
        };
    }
}

#[test]
fn long_lists_are_split_into_batches() {
    let pulls: Vec<(String, u64)> = (1..=60).map(|n| ("a/b".to_owned(), n)).collect();
    let (sizes, read) = read_list(pulls);
    assert_eq!(sizes, vec![25, 25, 10]);
    assert_eq!(read.len(), 60);
    assert_eq!(read[0], Ok(1));
    assert_eq!(read[6], Ok(7));
    assert_eq!(read[10], Err("GitHub could not find a/b#11".into()));
    assert_eq!(read[13], Err("invalid response from gh: page lost".into()));
    assert_eq!(read[59], Ok(60));
    assert_eq!(read_list(vec![]), (vec![], vec![]));
}

#[test]
fn lists_are_read_like_their_members() {
    let names = ["a/b", "c/d", "a/b", "e/f"];
    let pulls: Vec<(String, u64)> = (0..70)
        .map(|n: usize| (names[n % 4].to_owned(), (n * n % 23 + 1) as u64))
        .collect();
    let (_, read) = read_list(pulls.clone());
    assert_eq!(read.len(), pulls.len());
    for (pull, state) in pulls.into_iter().zip(read) {
        assert_eq!(read_list(vec![pull]).1, vec![state]);
    }
}

#[test]
fn a_refused_name_fails_the_whole_list() {
    let mut pulls: Vec<(String, u64)> = (1..=26).map(|n| ("a/b".to_owned(), n)).collect();
    pulls[25].0 = "ab".into();
    let first = asked_batch(GhClient::new().pull_request_states(pulls.clone(), asking()));
    let answers = (1..=25)
        .map(|n| Answer::Found(graph_pull(n, None, "OPEN")))
        .collect();
    assert_eq!(
        failure(first.answered(Ok((vec![], answers)))).message(),
        "invalid response from gh: invalid GitHub repository name: ab"
    );
    pulls[3].0 = "a".into();
    assert_eq!(
        failure(GhClient::new().pull_request_states(pulls, asking())).message(),
        "invalid response from gh: invalid GitHub repository name: a"
    );
}

#[test]
fn connections_that_do_not_end_are_refused() {
    let mut pull = graph_pull(7, None, "OPEN");
    pull.review_requests.page_info.has_next_page = true;
    let mut reader = PageReader::new("a/b", 7, "me", pull);
    assert_eq!(
        reader.next_query().unwrap_err().message(),
        "invalid response from gh: a/b#7: reviewRequests page has no end cursor"
    );
    reader.pull.review_requests.page_info.end_cursor = Some("c".into());
    assert!(reader.next_query().unwrap().is_some());
    assert_eq!(
        reader
            .accept(ConnectionPage::ReviewRequests(None))
            .unwrap_err()
            .message(),
        "invalid response from gh: a/b#7: reviewRequests page is missing"
    );
    let mut again = last_page(vec![]);
    again.page_info = PageInfo {
        has_next_page: true,
        end_cursor: Some("c".into()),
    };
    reader
        .accept(ConnectionPage::ReviewRequests(Some(again)))
        .unwrap();
    assert_eq!(
        reader.next_query().unwrap_err().message(),
        "invalid response from gh: a/b#7: pagination loop in reviewRequests"
    );
}

#[test]
fn lists_are_read_to_their_end() {
    let walk = GhClient::new().viewer_team_ids();
    assert_eq!(
        walk.request().last().map(String::as_str),
        Some("/user/teams?per_page=100")
    );
    let next = Some("https://api.github.com/user/teams?per_page=100&page=2".to_owned());
    let Ok(WalkStep::Request(walk)) = walk.advance(vec![1, 2], next.clone()) else {
        panic!("the second page was not asked for")
    };
    assert_eq!(walk.endpoint, "/user/teams?per_page=100&page=2");
    let Ok(WalkStep::Done(ids)) = walk.advance(vec![3], None) else {
        panic!("a third page was asked for")
    };
    assert_eq!(ids, vec![1, 2, 3]);

    let walk = PageWalk::new("/x");
    assert_eq!(
        walk.advance(vec![], Some("/x".into()))
            .err()
            .unwrap()
            .message(),
        "invalid response from gh: pagination loop at /x"
    );
}

#[test]
fn requests_are_written_out() {
    assert_eq!(
        get_request("/user", &vec!["A: b".into()]),
        [
            "api",
            "--hostname",
            "github.com",
            "--include",
            "--method",
            "GET",
            "-H",
            "Accept: application/vnd.github+json",
            "-H",
            "X-GitHub-Api-Version: 2022-11-28",
            "-H",
            "A: b",
            "/user"
        ]
    );
    let client = GhClient::default();
    assert_eq!(client.executable, "gh");
    assert_eq!(client.viewer(), "/user");
    assert_eq!(client.resolve_repository("a/b").unwrap(), "/repos/a/b");
    assert!(client.resolve_repository("a").is_err());
    assert_eq!(
        client.refresh_pull_request_core("a/b", 7).unwrap(),
        "/repos/a/b/pulls/7"
    );
    let bootstrap = client.bootstrap_notifications("a/b").unwrap();
    assert_eq!(
        bootstrap.request().last().map(String::as_str),
        Some("/repos/a/b/notifications?all=true&per_page=100")
    );
    // A bootstrap is not conditional.
    let unchanged = parse_output_text("e", "HTTP/2 304 N\n\n", String::new(), false).unwrap();
    assert!(bootstrap.receive(&unchanged).is_err());
}

#[test]
fn cancellation_interrupts_an_inflight_gh_request() {
    assert!(matches!(
        request_wait("/user", true, seconds(3)),
        Err(GhError::Cancelled { .. })
    ));
    assert_eq!(
        request_wait("/user", false, seconds(0)).unwrap_err().message(),
        "gh API request /user timed out after 45 seconds"
    );
    assert_eq!(
        request_wait("/user", false, seconds(3)),
        Ok(Duration {
            seconds: 0,
            nanos: 50_000_000
        })
    );
}

#[test]
fn errors_are_told_apart() {
    let status = |code: u16, stderr: &str| GhError::Status {
        endpoint: "/x".into(),
        metadata: ResponseMetadata {
            status: code,
            ..Default::default()
        },
        body: String::new(),
        stderr: stderr.into(),
    };
    assert!(status(404, "").is_not_found());
    assert!(!status(500, "").is_not_found());
    assert!(GhError::NotFound { what: "x".into() }.is_not_found());
    assert!(status(404, "").has_status(404));
    assert!(!status(403, "").has_status(404));
    assert!(!GhError::NotFound { what: "x".into() }.has_status(404));
    assert_eq!(
        status(500, " broken \n").message(),
        "GitHub API request to /x returned HTTP 500: broken"
    );
    assert_eq!(
        status(500, " \n").message(),
        "GitHub API request to /x returned HTTP 500"
    );
    assert_eq!(
        GhError::Cancelled {
            endpoint: "/x".into()
        }
        .message(),
        "gh API request /x was cancelled"
    );
    assert_eq!(
        GhError::NotFound { what: "a/b#1".into() }.message(),
        "GitHub could not find a/b#1"
    );
    assert_eq!(
        GhError::Spawn {
            executable: "gh".into(),
            source: "gone".into()
        }
        .message(),
        "could not run gh: gone"
    );
    assert_eq!(
        GhError::Decode {
            endpoint: "/x".into(),
            source: "bad".into(),
            body: "{".into()
        }
        .message(),
        "could not decode GitHub response from /x: bad"
    );
    assert!(GhError::Protocol("x".into()).metadata().is_none());
}

#[test]
fn responses_without_headers_are_refused() {
    let text = |input: &str| parse_http_response(input).unwrap_err();
    assert_eq!(text("HTTP/2 200 OK"), "missing blank line after response headers");
    assert_eq!(text("Foo: bar\n\n"), "expected HTTP status line, got \"Foo: bar\"");
    assert_eq!(text("HTTP/2\n\n"), "status code missing from \"HTTP/2\"");
    let error = parse_output("/x", &b"oops".to_vec(), &vec![b' ', 0xff, b'\n'], false).unwrap_err();
    assert_eq!(
        error.message(),
        "invalid response from gh: /x: missing blank line after response headers; stderr: \u{fffd}"
    );
    let response = parse_output("/x", &b"HTTP/2 200 OK\n\n\xff".to_vec(), &vec![], true).unwrap();
    assert_eq!(response.body, "\u{fffd}");
    assert!(ensure_success("/x", &response).is_ok());
    let failed = parse_output("/x", &b"HTTP/2 200 OK\n\n".to_vec(), &vec![], false).unwrap();
    assert!(ensure_success("/x", &failed).is_err());
}

#[test]
fn headers_are_joined_and_links_are_found() {
    let (_, headers, _) = parse_http_response("HTTP/2 200 OK\nA: 1\na: 2\n\n").unwrap();
    assert_eq!(headers.get("a").map(String::as_str), Some("1, 2"));
    assert_eq!(next_link("<https://x/y>; rel=\"prev\""), None);
    assert_eq!(
        next_link("<https://x/y>; rel=\"prev\", <https://x/z>; rel=\"next\"").as_deref(),
        Some("https://x/z")
    );
}

#[test]
fn the_least_remainder_is_kept() {
    let mut metadata = ResponseMetadata {
        status: 200,
        rate_limit_remaining: Some(10),
        ..Default::default()
    };
    let page = ResponseMetadata {
        status: 200,
        rate_limit_remaining: Some(12),
        rate_limit_reset: Some(99),
        ..Default::default()
    };
    merge_rate_metadata(&mut metadata, &page);
    assert_eq!(metadata.rate_limit_remaining, Some(10));
    assert_eq!(metadata.rate_limit_reset, Some(99));
}

#[test]
fn names_and_addresses_are_checked() {
    assert!(validate_full_name("a/b").is_ok());
    for name in ["a", "a/", "/b", "a/b/c", ""] {
        assert!(validate_full_name(name).is_err(), "{name}");
    }
    assert_eq!(parse_pull_request_number("/repos/a/b/pulls/9"), Ok(9));
    assert!(parse_pull_request_number("/repos/a/b/issues/9").is_err());
    assert!(parse_pull_request_number("/repos/a/b/pulls/x").is_err());
    assert_eq!(
        endpoint_from_link("https://api.github.com/x?page=2").as_deref(),
        Ok("/x?page=2")
    );
}

#[test]
fn comments_after_a_request_are_remembered() {
    let mut pull = graph_pull(4, None, "OPEN");
    pull.timeline_items = last_page(vec![Some(GraphReviewRequestedEvent {
        id: "RRE_user".into(),
        created_at: instant("2030-01-01T00:00:00Z"),
        requested_reviewer: Some(asked_user()),
    })]);
    pull.reviews = last_page(vec![Some(viewer_review(
        3,
        "COMMENTED",
        "2030-01-02T00:00:00Z",
        "h",
    ))]);
    let state = pull.into_state(&me(), &[], false).unwrap();
    assert!(state.non_opinionated_review_after_request);
    assert_eq!(state.latest_review, None);
}
