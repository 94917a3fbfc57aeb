use github_reviews::git::steps::{DiscoverStep, FetchState, FetchStep};
use github_reviews::git::{
    command_output, command_stopped, parse_ssh_hostname, remaining, split_repo_path,
    validate_oid, validate_ref_component, verify_revision, FetchSpec, GitError, GitHubOrigin,
    GitTools, LocalRepository, RevisionKind,
};
use github_reviews::process::{next_bounded_wait, next_wait, time_is_up, Wait};
use github_reviews::time::Duration;

fn tools() -> GitTools {
    GitTools::default()
}

fn widgets() -> GitHubOrigin {
    GitHubOrigin {
        hostname: "github.com".into(),
        owner: "acme".into(),
        repository: "widgets".into(),
    }
}

fn seconds(seconds: u64) -> Duration {
    Duration { seconds, nanos: 0 }
}

#[test]
fn parses_supported_github_urls() {
    let cases = [
        "https://github.com/acme/widgets.git",
        "ssh://git@github.com/acme/widgets.git",
        "git@github.com:acme/widgets.git",
    ];
    for url in cases {
        assert_eq!(
            tools().parse_origin(url, None).unwrap(),
            GitHubOrigin {
                hostname: "github.com".into(),
                owner: "acme".into(),
                repository: "widgets".into(),
            }
        );
    }
}

#[test]
fn rejects_non_github_and_nested_paths() {
    assert!(matches!(
        tools().parse_origin("https://example.com/acme/widgets.git", None),
        Err(GitError::UnsupportedOrigin(_))
    ));
    assert!(matches!(
        tools().parse_origin("https://github.com/acme/extra/widgets.git", None),
        Err(GitError::UnsupportedOrigin(_))
    ));
}

#[test]
fn resolves_an_injected_ssh_host_alias() {
    let url = "git@work-gh:acme/widgets.git";
    assert_eq!(tools().ssh_alias(url).as_deref(), Some("work-gh"));
    assert_eq!(tools().ssh_alias("git@GitHub.com:acme/widgets.git"), None);
    let host = parse_ssh_hostname("user git\nhostname github.com\n").unwrap();
    assert_eq!(
        tools().parse_origin(url, Some(host.as_str())).unwrap(),
        GitHubOrigin {
            hostname: "github.com".into(),
            owner: "acme".into(),
            repository: "widgets".into(),
        }
    );
    assert!(tools().parse_origin(url, None).is_err());
    assert_eq!(
        parse_ssh_hostname("user git\n").unwrap_err().message(),
        "resolve SSH host returned invalid output: ssh -G did not print a hostname"
    );
}

#[test]
fn detects_a_stale_revision_distinctly() {
    let expected = "a".repeat(40);
    let fetched = "b".repeat(40);
    assert!(matches!(
        verify_revision(RevisionKind::Head, &expected, &fetched),
        Err(GitError::StaleRevision {
            kind: RevisionKind::Head,
            ..
        })
    ));
    assert!(verify_revision(RevisionKind::Base, "ABC", "abc").is_ok());
}

#[test]
fn validates_ref_components_before_passing_them_to_git() {
    assert!(validate_ref_component("main").is_ok());
    assert!(validate_ref_component("release/next").is_ok());
    assert!(validate_ref_component("--upload-pack=evil").is_ok());
    assert!(validate_ref_component("bad ref").is_err());
    assert!(validate_ref_component("bad..ref").is_err());
}

#[test]
fn refuses_other_bad_refs_and_names_them() {
    for text in ["", ".hidden", "ends.", "a@{b", "a~b", "a^b", "a:b", "a?b", "a*b", "a[b", "a\\b", "a\nb"] {
        assert_eq!(
            validate_ref_component(text).unwrap_err().message(),
            format!("construct base ref returned invalid output: invalid base ref {text:?}")
        );
    }
}

#[test]
fn object_names_are_hexadecimal() {
    assert!(validate_oid(&"0aF9".repeat(10)).is_ok());
    assert!(validate_oid(&"a".repeat(64)).is_ok());
    assert!(validate_oid(&"a".repeat(39)).is_err());
    assert!(validate_oid(&"a".repeat(65)).is_err());
    let text = "g".repeat(40);
    assert_eq!(
        validate_oid(&text).unwrap_err().message(),
        format!("verify fetched revision returned invalid output: invalid object ID {text:?}")
    );
}

#[test]
fn repository_paths_have_two_parts() {
    assert_eq!(
        split_repo_path("/acme/widgets.git/"),
        Some(("acme".into(), "widgets".into()))
    );
    assert_eq!(
        split_repo_path("acme/widgets.git"),
        Some(("acme".into(), "widgets".into()))
    );
    assert_eq!(split_repo_path("acme/.git"), None);
    assert_eq!(split_repo_path("acme"), None);
    assert_eq!(split_repo_path("acme//widgets"), None);
    assert_eq!(widgets().full_name(), "acme/widgets");
    let shouted = GitHubOrigin {
        hostname: "GITHUB.com".into(),
        owner: "Acme".into(),
        repository: "WIDGETS".into(),
    };
    assert!(widgets().equivalent_to(&shouted));
}

#[test]
fn discovery_asks_git_and_reads_the_first_url() {
    let DiscoverStep::Run(state, command) = tools().discover("/work/src") else {
        panic!("nothing to run")
    };
    assert_eq!(command.program, "git");
    assert_eq!(
        command.args,
        ["-C", "/work/src", "rev-parse", "--show-toplevel"]
    );
    let DiscoverStep::Run(state, command) = tools().discover_next(state, Ok("/work\n".into()))
    else {
        panic!("nothing to run")
    };
    assert_eq!(
        command.args,
        ["-C", "/work", "remote", "get-url", "--all", "origin"]
    );
    let DiscoverStep::Done(found) =
        tools().discover_next(state, Ok("https://github.com/acme/widgets.git\nother\n".into()))
    else {
        panic!("more to run")
    };
    let found = found.unwrap();
    assert_eq!(found.worktree_root, "/work");
    assert_eq!(found.origin_url, "https://github.com/acme/widgets.git");
    assert_eq!(found.origin, widgets());
}

#[test]
fn discovery_asks_ssh_about_an_alias() {
    let DiscoverStep::Run(state, _) = tools().discover("/work") else {
        panic!("nothing to run")
    };
    let DiscoverStep::Run(state, _) = tools().discover_next(state, Ok("/work\n".into())) else {
        panic!("nothing to run")
    };
    let DiscoverStep::Run(state, command) =
        tools().discover_next(state, Ok("git@work-gh:acme/widgets.git\n".into()))
    else {
        panic!("nothing to run")
    };
    assert_eq!(command.program, "ssh");
    assert_eq!(command.args, ["-G", "work-gh"]);
    let DiscoverStep::Done(found) = tools().discover_next(state, Ok("hostname github.com".into()))
    else {
        panic!("more to run")
    };
    assert_eq!(found.unwrap().origin, widgets());
}

#[test]
fn registered_paths_are_checked() {
    let found = || LocalRepository {
        worktree_root: "/work".into(),
        origin_url: "https://github.com/acme/widgets".into(),
        origin: widgets(),
    };
    assert!(tools()
        .validate_registered_path(found(), "/work", "/work", &widgets())
        .is_ok());
    assert_eq!(
        tools()
            .validate_registered_path(found(), "/other", "/work", &widgets())
            .unwrap_err()
            .message(),
        "registered path /other resolves to worktree /work"
    );
    let mut other = widgets();
    other.repository = "rockets".into();
    assert_eq!(
        tools()
            .validate_registered_path(found(), "/work", "/work", &other)
            .unwrap_err()
            .message(),
        "registered origin is acme/rockets, but local origin is acme/widgets"
    );
}

#[test]
fn targeted_fetch_verifies_both_oids_without_creating_refs() {
    let base = "a".repeat(40);
    let head = "b".repeat(40);
    let spec = FetchSpec {
        pull_number: 7,
        base_ref: "main".into(),
        expected_base_oid: base.clone(),
        expected_head_oid: head.clone(),
    };
    let left = seconds(300);
    let mut runs: Vec<Vec<String>> = Vec::new();
    let mut step = tools().fetch_pull_request("/work", &spec, left);
    let outcome = loop {
        match step {
            FetchStep::Done(outcome) => break outcome,
            FetchStep::Run(state, command) => {
                runs.push(command.args.clone());
                let output = match state {
                    FetchState::ReadBase => format!("{base}\n"),
                    FetchState::ReadHead => format!("{head}\n"),
                    _ => String::new(),
                };
                step = tools().fetch_next("/work", &spec, state, Ok(output), left);
            }
        }
    };
    assert!(outcome.is_ok());
    assert_eq!(runs.len(), 4);
    assert!(runs[0].contains(&"refs/heads/main".to_owned()));
    assert!(runs[2].contains(&"refs/pull/7/head".to_owned()));
    for run in [&runs[0], &runs[2]] {
        assert!(!run.iter().any(|argument| argument.contains(':')));
    }
}

#[test]
fn a_fetch_stops_at_a_revision_that_moved() {
    let spec = FetchSpec {
        pull_number: 7,
        base_ref: "main".into(),
        expected_base_oid: "a".repeat(40),
        expected_head_oid: "b".repeat(40),
    };
    let moved = format!("{}\n", "c".repeat(40));
    let FetchStep::Done(outcome) = tools().fetch_next(
        "/work",
        &spec,
        FetchState::ReadBase,
        Ok(moved),
        seconds(300),
    ) else {
        panic!("the fetch went on")
    };
    assert_eq!(
        outcome.unwrap_err().message(),
        format!(
            "GitHub Base revision moved while preparing review (expected {}, fetched {})",
            "a".repeat(40),
            "c".repeat(40)
        )
    );
}

#[test]
fn commands_end_in_words() {
    let command = tools().make_root_command("/work");
    assert_eq!(
        command_stopped(&command, &Wait::Cancelled).unwrap().message(),
        "discover Git worktree was cancelled"
    );
    assert_eq!(
        command_stopped(&command, &Wait::TimedOut).unwrap().message(),
        "discover Git worktree timed out after 30s"
    );
    assert_eq!(command_stopped(&command, &Wait::Poll(seconds(1))), None);
    assert_eq!(
        command_output(&command, false, "exit status: 1", Ok("".into()), " gone \n")
            .unwrap_err()
            .message(),
        "discover Git worktree failed with exit status: 1: gone"
    );
    assert_eq!(
        command_output(&command, true, "", Err("no text".into()), "")
            .unwrap_err()
            .message(),
        "discover Git worktree returned invalid output: no text"
    );
    assert_eq!(
        GitError::Io("gone".into()).message(),
        "Git operation failed: gone"
    );
    assert_eq!(
        GitError::UnsupportedOrigin("x".into()).message(),
        "origin is not a supported GitHub.com URL: x"
    );
    assert_eq!(
        remaining(seconds(0), "fetch").unwrap_err().message(),
        "fetch timed out after 300s"
    );
    assert_eq!(remaining(seconds(3), "fetch"), Ok(seconds(3)));
}

#[test]
fn command_cancellation_interrupts_preparation() {
    let span = Duration {
        seconds: 0,
        nanos: 50_000_000,
    };
    assert_eq!(next_wait(false, seconds(30)), Wait::Poll(span));
    assert_eq!(next_wait(true, seconds(30)), Wait::Cancelled);
    assert_eq!(next_wait(false, seconds(0)), Wait::TimedOut);
    assert_eq!(
        next_bounded_wait(false, Some(seconds(1)), seconds(2)),
        Wait::TimedOut
    );
    assert_eq!(
        next_bounded_wait(false, None, seconds(2)),
        Wait::Poll(span)
    );
    assert!(time_is_up(Some(seconds(2)), seconds(2)));
    assert!(!time_is_up(None, seconds(2)));
}
