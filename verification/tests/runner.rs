use github_reviews::runner::{
    after_wait, finish_command, frame_input, may_start, watch_command, Candidate, ExitReport,
    InputWritten, ReviewCommand, RunOutcome, RunnerError, Watch,
};
use github_reviews::time::Duration;

fn command(words: &[&str]) -> ReviewCommand {
    ReviewCommand::new(words.iter().map(|word| word.to_string()).collect()).unwrap()
}

fn exit(success: bool, code: Option<i32>, status: &str) -> ExitReport {
    ExitReport {
        success,
        code,
        status: status.into(),
    }
}

#[test]
fn rejects_an_empty_command() {
    assert!(matches!(
        ReviewCommand::new(Vec::new()),
        Err(RunnerError::EmptyCommand)
    ));
    assert!(matches!(
        ReviewCommand::new(vec!["".into(), "x".into()]),
        Err(RunnerError::EmptyCommand)
    ));
}

#[test]
fn resolve_rejects_a_missing_program() {
    for program in ["./missing-review.sh", "github-reviews-missing-program"] {
        let error = command(&[program]).resolve("/srv", false).unwrap_err();
        assert!(
            matches!(error, RunnerError::ProgramNotFound(_)),
            "{program}"
        );
    }
}

#[test]
fn relative_program_runs_from_the_daemon_directory_not_the_worktree() {
    let relative = command(&["scripts/review.sh", "--model", "fast"]);
    assert_eq!(
        relative.candidate("/srv/daemon"),
        Candidate::File("/srv/daemon/scripts/review.sh".into())
    );
    let resolved = relative.resolve("/srv/daemon", true).unwrap();
    assert_eq!(
        resolved.argv(),
        &["/srv/daemon/scripts/review.sh", "--model", "fast"]
    );
    let dotted = command(&["./review.sh"]);
    assert_eq!(
        dotted.candidate("/srv/daemon"),
        Candidate::File("/srv/daemon/./review.sh".into())
    );
    let absolute = command(&["/bin/true"]).resolve("/srv/daemon", true).unwrap();
    assert_eq!(absolute.argv(), &["/bin/true"]);
    let bare = command(&["review"]);
    assert_eq!(bare.candidate("/srv/daemon"), Candidate::OnPath("review".into()));
    assert_eq!(bare.resolve("/srv/daemon", true).unwrap().argv(), &["review"]);
}

#[test]
fn writes_compact_json_newline_and_eof_in_requested_worktree() {
    assert_eq!(
        frame_input(b"{\"hello\":\"world\"}".to_vec()),
        b"{\"hello\":\"world\"}\n".to_vec()
    );
}

#[test]
fn reports_nonzero_exit_status() {
    let outcome = finish_command(
        exit(false, Some(23), "exit status: 23"),
        InputWritten::Written,
    )
    .unwrap();
    assert_eq!(outcome.exit_code(), Some(23));
    assert!(!outcome.is_success());
    assert_eq!(RunOutcome::TimedOut.exit_code(), None);
    assert_eq!(RunOutcome::Cancelled.exit_code(), None);
}

#[test]
fn success_needs_its_input() {
    let good = || exit(true, Some(0), "exit status: 0");
    let outcome = finish_command(good(), InputWritten::Written).unwrap();
    assert!(outcome.is_success());
    assert_eq!(outcome.exit_code(), Some(0));
    assert_eq!(
        finish_command(good(), InputWritten::Failed("broken pipe".into())),
        Err(RunnerError::WriteInput("broken pipe".into()))
    );
    assert_eq!(
        finish_command(good(), InputWritten::Panicked),
        Err(RunnerError::InputWriterPanicked)
    );
    assert_eq!(
        finish_command(
            exit(false, None, "signal: 9"),
            InputWritten::Failed("broken pipe".into())
        )
        .unwrap()
        .exit_code(),
        None
    );
}

#[test]
fn cancellation_promptly_kills_descendants_and_is_distinct_from_timeout() {
    let limit = Some(Duration {
        seconds: 1,
        nanos: 0,
    });
    let early = Duration {
        seconds: 0,
        nanos: 970_000_000,
    };
    let late = Duration {
        seconds: 1,
        nanos: 0,
    };
    assert_eq!(
        watch_command(true, limit, early),
        Watch::Stop(RunOutcome::Cancelled)
    );
    assert_eq!(
        watch_command(false, limit, late),
        Watch::Stop(RunOutcome::TimedOut)
    );
    assert_eq!(
        watch_command(false, limit, early),
        Watch::Wait(Duration {
            seconds: 0,
            nanos: 30_000_000
        })
    );
    assert_eq!(after_wait(limit, late), Some(RunOutcome::TimedOut));
    assert_eq!(after_wait(limit, early), None);
    assert_eq!(after_wait(None, late), None);
    assert_eq!(may_start(true), Err(RunOutcome::Cancelled));
    assert_eq!(may_start(false), Ok(()));
}

#[test]
fn runner_errors_in_words() {
    let cases = [
        (
            RunnerError::EmptyCommand,
            "review command must include a program",
        ),
        (
            RunnerError::ProgramNotFound("/x".into()),
            "review command /x is not an executable file",
        ),
        (
            RunnerError::Serialize("e".into()),
            "could not serialize review command input: e",
        ),
        (
            RunnerError::Spawn("e".into()),
            "could not start review command: e",
        ),
        (
            RunnerError::WriteInput("e".into()),
            "could not write review command input: e",
        ),
        (
            RunnerError::Wait("e".into()),
            "could not wait for review command: e",
        ),
        (
            RunnerError::InputWriterPanicked,
            "review command input writer panicked",
        ),
    ];
    for (error, text) in cases {
        assert_eq!(error.message(), text);
    }
}
