//! The review command: which program it is, what it reads, and how it ended.

use vstd::prelude::*;
use crate::paths::{
    path_absolute, path_component_count, path_components, path_is_absolute, path_join, path_joined,
};
use crate::process::{bounded_wait, next_bounded_wait, time_is_up, Wait};
use crate::text::texts;
use crate::time::Duration;

verus! {

// ---------------------------------------------------------------------------
// Errors
// ---------------------------------------------------------------------------

/// Why a review command gave no outcome.
#[derive(Debug, PartialEq, Eq)]
pub enum RunnerError {
    EmptyCommand,
    ProgramNotFound(String),
    Serialize(String),
    Spawn(String),
    WriteInput(String),
    Wait(String),
    InputWriterPanicked,
}

pub enum RunnerErrorModel {
    EmptyCommand,
    ProgramNotFound(Seq<char>),
    Serialize(Seq<char>),
    Spawn(Seq<char>),
    WriteInput(Seq<char>),
    Wait(Seq<char>),
    InputWriterPanicked,
}

impl View for RunnerError {
    type V = RunnerErrorModel;

    open spec fn view(&self) -> RunnerErrorModel {
        match self {
            RunnerError::EmptyCommand => RunnerErrorModel::EmptyCommand,
            RunnerError::ProgramNotFound(program) => RunnerErrorModel::ProgramNotFound(program@),
            RunnerError::Serialize(error) => RunnerErrorModel::Serialize(error@),
            RunnerError::Spawn(error) => RunnerErrorModel::Spawn(error@),
            RunnerError::WriteInput(error) => RunnerErrorModel::WriteInput(error@),
            RunnerError::Wait(error) => RunnerErrorModel::Wait(error@),
            RunnerError::InputWriterPanicked => RunnerErrorModel::InputWriterPanicked,
        }
    }
}

impl RunnerErrorModel {
    pub open spec fn text(self) -> Seq<char> {
        match self {
            RunnerErrorModel::EmptyCommand => "review command must include a program"@,
            RunnerErrorModel::ProgramNotFound(program) => "review command "@ + program
                + " is not an executable file"@,
            RunnerErrorModel::Serialize(error) => "could not serialize review command input: "@
                + error,
            RunnerErrorModel::Spawn(error) => "could not start review command: "@ + error,
            RunnerErrorModel::WriteInput(error) => "could not write review command input: "@
                + error,
            RunnerErrorModel::Wait(error) => "could not wait for review command: "@ + error,
            RunnerErrorModel::InputWriterPanicked => "review command input writer panicked"@,
        }
    }
}

fn described(start: &str, error: &str) -> (r: String)
    ensures
        r@ == start@ + error@,
{
    let mut r = start.to_owned();
    r.append(error);
    r
}

impl RunnerError {
    /// The error in words.
    pub fn message(&self) -> (r: String)
        ensures
            r@ == self@.text(),
    {
        match self {
            RunnerError::EmptyCommand => "review command must include a program".to_owned(),
            RunnerError::ProgramNotFound(program) => {
                let mut r = described("review command ", program.as_str());
                r.append(" is not an executable file");
                r
            },
            RunnerError::Serialize(error) => described(
                "could not serialize review command input: ",
                error.as_str(),
            ),
            RunnerError::Spawn(error) => described(
                "could not start review command: ",
                error.as_str(),
            ),
            RunnerError::WriteInput(error) => described(
                "could not write review command input: ",
                error.as_str(),
            ),
            RunnerError::Wait(error) => described(
                "could not wait for review command: ",
                error.as_str(),
            ),
            RunnerError::InputWriterPanicked => "review command input writer panicked".to_owned(),
        }
    }
}

// ---------------------------------------------------------------------------
// Outcomes
// ---------------------------------------------------------------------------

/// How a review command ended. `status` is the exit status in words.
#[derive(Debug, PartialEq, Eq)]
pub enum RunOutcome {
    Succeeded,
    Failed { code: Option<i32>, status: String },
    TimedOut,
    Cancelled,
}

pub enum OutcomeModel {
    Succeeded,
    Failed { code: Option<i32>, status: Seq<char> },
    TimedOut,
    Cancelled,
}

impl OutcomeModel {
    /// The code of a command that ended by itself.
    pub open spec fn code(self) -> Option<i32> {
        match self {
            OutcomeModel::Succeeded => Some(0i32),
            OutcomeModel::Failed { code, status } => code,
            OutcomeModel::TimedOut => None,
            OutcomeModel::Cancelled => None,
        }
    }
}

impl View for RunOutcome {
    type V = OutcomeModel;

    open spec fn view(&self) -> OutcomeModel {
        match self {
            RunOutcome::Succeeded => OutcomeModel::Succeeded,
            RunOutcome::Failed { code, status } => OutcomeModel::Failed {
                code: *code,
                status: status@,
            },
            RunOutcome::TimedOut => OutcomeModel::TimedOut,
            RunOutcome::Cancelled => OutcomeModel::Cancelled,
        }
    }
}

impl RunOutcome {
    pub fn is_success(&self) -> (r: bool)
        ensures
            r == (self@ is Succeeded),
    {
        match self {
            RunOutcome::Succeeded => true,
            _ => false,
        }
    }

    pub fn exit_code(&self) -> (r: Option<i32>)
        ensures
            r == self@.code(),
            r == (match self@ {
                OutcomeModel::Succeeded => Some(0i32),
                OutcomeModel::Failed { code, status } => code,
                OutcomeModel::TimedOut => None,
                OutcomeModel::Cancelled => None,
            }),
    {
        match self {
            RunOutcome::Succeeded => Some(0),
            RunOutcome::Failed { code, status: _ } => *code,
            RunOutcome::TimedOut => None,
            RunOutcome::Cancelled => None,
        }
    }
}

// ---------------------------------------------------------------------------
// Commands
// ---------------------------------------------------------------------------

/// A program and its arguments. It is started as it stands: no shell reads it.
#[derive(Debug, PartialEq, Eq)]
pub struct ReviewCommand {
    pub argv: Vec<String>,
}

/// What must be executable for a command to start.
#[derive(Debug, PartialEq, Eq)]
pub enum Candidate {
    /// This file.
    File(String),
    /// A file of this name in one of the directories of `PATH`.
    OnPath(String),
}

pub enum CandidateModel {
    File(Seq<char>),
    OnPath(Seq<char>),
}

impl View for Candidate {
    type V = CandidateModel;

    open spec fn view(&self) -> CandidateModel {
        match self {
            Candidate::File(path) => CandidateModel::File(path@),
            Candidate::OnPath(name) => CandidateModel::OnPath(name@),
        }
    }
}

/// There is a program.
pub open spec fn names_program(argv: Seq<Seq<char>>) -> bool {
    argv.len() > 0 && argv[0].len() > 0
}

/// What a program means where the daemon was started: a path is read from that
/// directory, and a bare name is looked up in `PATH`.
pub open spec fn candidate_of(program: Seq<char>, working_directory: Seq<char>) -> CandidateModel {
    if path_absolute(program) {
        CandidateModel::File(program)
    } else if path_components(program) > 1 {
        CandidateModel::File(path_joined(working_directory, program))
    } else {
        CandidateModel::OnPath(program)
    }
}

/// The command, once it is known whether its candidate is executable.
pub open spec fn resolved(
    argv: Seq<Seq<char>>,
    candidate: CandidateModel,
    executable: bool,
) -> Result<Seq<Seq<char>>, RunnerErrorModel> {
    match candidate {
        CandidateModel::File(path) => if executable {
            Ok(argv.update(0, path))
        } else {
            Err(RunnerErrorModel::ProgramNotFound(path))
        },
        CandidateModel::OnPath(name) => if executable {
            Ok(argv)
        } else {
            Err(RunnerErrorModel::ProgramNotFound(name))
        },
    }
}

impl View for ReviewCommand {
    type V = Seq<Seq<char>>;

    open spec fn view(&self) -> Seq<Seq<char>> {
        texts(self.argv@)
    }
}

impl ReviewCommand {
    pub open spec fn wf(self) -> bool {
        names_program(self@)
    }

    pub fn new(argv: Vec<String>) -> (r: Result<Self, RunnerError>)
        ensures
            r is Ok <==> names_program(texts(argv@)),
            r matches Ok(command) ==> command.wf() && command@ == texts(argv@),
            r matches Err(error) ==> error@ == RunnerErrorModel::EmptyCommand,
    {
        assert(texts(argv@).len() == argv@.len());
        if argv.len() == 0 {
            return Err(RunnerError::EmptyCommand);
        }
        assert(texts(argv@)[0] == argv@[0]@);
        if argv[0].as_str().unicode_len() == 0 {
            return Err(RunnerError::EmptyCommand);
        }
        Ok(ReviewCommand { argv })
    }

    pub fn argv(&self) -> (r: &Vec<String>)
        ensures
            texts(r@) == self@,
    {
        &self.argv
    }

    /// What must be executable for the command to start.
    pub fn candidate(&self, working_directory: &str) -> (r: Candidate)
        requires
            self.wf(),
        ensures
            r@ == candidate_of(self@[0], working_directory@),
    {
        assert(self@[0] == self.argv@[0]@);
        let program = self.argv[0].as_str();
        if path_is_absolute(program) {
            return Candidate::File(program.to_owned());
        }
        if path_component_count(program) > 1 {
            return Candidate::File(path_join(working_directory, program));
        }
        Candidate::OnPath(program.to_owned())
    }

    /// Fixes the program for the directory in which the daemon was started.
    /// `executable` says whether the [`candidate`](Self::candidate) is an
    /// executable file. Commands run in the worktrees of repositories, where a
    /// relative path would mean something else.
    pub fn resolve(self, working_directory: &str, executable: bool) -> (r: Result<
        Self,
        RunnerError,
    >)
        requires
            self.wf(),
        ensures
            match r {
                Ok(command) => resolved(
                    self@,
                    candidate_of(self@[0], working_directory@),
                    executable,
                ) == Ok::<Seq<Seq<char>>, RunnerErrorModel>(command@),
                Err(error) => resolved(
                    self@,
                    candidate_of(self@[0], working_directory@),
                    executable,
                ) == Err::<Seq<Seq<char>>, RunnerErrorModel>(error@),
            },
    {
        match self.candidate(working_directory) {
            Candidate::File(path) => {
                if !executable {
                    return Err(RunnerError::ProgramNotFound(path));
                }
                let ghost before = self@;
                let mut argv = self.argv;
                argv[0] = path;
                assert(texts(argv@) =~= before.update(0, path@));
                Ok(ReviewCommand { argv })
            },
            Candidate::OnPath(name) => {
                if !executable {
                    return Err(RunnerError::ProgramNotFound(name));
                }
                Ok(self)
            },
        }
    }
}

// ---------------------------------------------------------------------------
// Execution
// ---------------------------------------------------------------------------

/// JSON as the command reads it.
pub open spec fn framed(json: Seq<u8>) -> Seq<u8> {
    json.push(10u8)
}

/// What the command reads: the envelope as JSON, and a line feed.
pub fn frame_input(json: Vec<u8>) -> (r: Vec<u8>)
    ensures
        r@ == framed(json@),
        r@ == json@.push(10u8),
{
    let mut input = json;
    input.push(10);
    input
}

/// What to do about a command before and while it runs.
#[derive(Debug, PartialEq, Eq)]
pub enum Watch {
    /// Stop it, or do not start it: this is its outcome.
    Stop(RunOutcome),
    /// Wait so long for its end.
    Wait(Duration),
}

/// What is done about a command that has not ended.
pub open spec fn watched(cancelled: bool, timeout: Option<Duration>, elapsed: Duration) -> Watch {
    match bounded_wait(cancelled, timeout, elapsed) {
        Wait::Cancelled => Watch::Stop(RunOutcome::Cancelled),
        Wait::TimedOut => Watch::Stop(RunOutcome::TimedOut),
        Wait::Poll(span) => Watch::Wait(span),
    }
}

/// What to do about a command that has not ended.
pub fn watch_command(cancelled: bool, timeout: Option<Duration>, elapsed: Duration) -> (r: Watch)
    requires
        elapsed.wf(),
        timeout matches Some(limit) ==> limit.wf(),
    ensures
        r == watched(cancelled, timeout, elapsed),
        match bounded_wait(cancelled, timeout, elapsed) {
            Wait::Cancelled => r == Watch::Stop(RunOutcome::Cancelled),
            Wait::TimedOut => r == Watch::Stop(RunOutcome::TimedOut),
            Wait::Poll(span) => r == Watch::Wait(span),
        },
{
    match next_bounded_wait(cancelled, timeout, elapsed) {
        Wait::Cancelled => Watch::Stop(RunOutcome::Cancelled),
        Wait::TimedOut => Watch::Stop(RunOutcome::TimedOut),
        Wait::Poll(span) => Watch::Wait(span),
    }
}

/// A command that is cancelled before its start does not start.
pub fn may_start(cancelled: bool) -> (r: Result<(), RunOutcome>)
    ensures
        r == (if cancelled {
            Err::<(), RunOutcome>(RunOutcome::Cancelled)
        } else {
            Ok::<(), RunOutcome>(())
        }),
{
    if cancelled {
        return Err(RunOutcome::Cancelled);
    }
    Ok(())
}

/// What a wait leaves of a command that it did not see end.
pub open spec fn waited(timeout: Option<Duration>, elapsed: Duration) -> Option<RunOutcome> {
    if timeout matches Some(limit) && limit.total() <= elapsed.total() {
        Some(RunOutcome::TimedOut)
    } else {
        None
    }
}

/// The outcome of a command that a wait did not see end, where its time is up.
pub fn after_wait(timeout: Option<Duration>, elapsed: Duration) -> (r: Option<RunOutcome>)
    requires
        elapsed.wf(),
        timeout matches Some(limit) ==> limit.wf(),
    ensures
        r == waited(timeout, elapsed),
        r == (if timeout matches Some(limit) && limit.total() <= elapsed.total() {
            Some(RunOutcome::TimedOut)
        } else {
            None
        }),
{
    if time_is_up(timeout, elapsed) {
        return Some(RunOutcome::TimedOut);
    }
    None
}

/// How the input of a command was written.
#[derive(Debug, PartialEq, Eq)]
pub enum InputWritten {
    Written,
    Failed(String),
    Panicked,
}

/// How a process ended.
#[derive(Debug, PartialEq, Eq)]
pub struct ExitReport {
    pub success: bool,
    pub code: Option<i32>,
    pub status: String,
}

/// The outcome of a command that ended by itself. Input that could not be
/// written fails a command that ended well; otherwise its exit status tells
/// more.
pub open spec fn finished(exit: ExitReport, input: InputWritten) -> Result<
    OutcomeModel,
    RunnerErrorModel,
> {
    match input {
        InputWritten::Panicked => Err(RunnerErrorModel::InputWriterPanicked),
        InputWritten::Failed(error) => if exit.success {
            Err(RunnerErrorModel::WriteInput(error@))
        } else {
            Ok(OutcomeModel::Failed { code: exit.code, status: exit.status@ })
        },
        InputWritten::Written => if exit.success {
            Ok(OutcomeModel::Succeeded)
        } else {
            Ok(OutcomeModel::Failed { code: exit.code, status: exit.status@ })
        },
    }
}

pub fn finish_command(exit: ExitReport, input: InputWritten) -> (r: Result<RunOutcome, RunnerError>)
    ensures
        match r {
            Ok(outcome) => finished(exit, input) == Ok::<OutcomeModel, RunnerErrorModel>(outcome@),
            Err(error) => finished(exit, input) == Err::<OutcomeModel, RunnerErrorModel>(error@),
        },
{
    match input {
        InputWritten::Panicked => {
            return Err(RunnerError::InputWriterPanicked);
        },
        InputWritten::Failed(error) => {
            if exit.success {
                return Err(RunnerError::WriteInput(error));
            }
        },
        InputWritten::Written => {},
    }
    if exit.success {
        Ok(RunOutcome::Succeeded)
    } else {
        Ok(RunOutcome::Failed { code: exit.code, status: exit.status })
    }
}

// ---------------------------------------------------------------------------
// Laws
// ---------------------------------------------------------------------------

/// A review counts as done only when its process ended well and was given all of
/// its input.
pub proof fn success_needs_input_and_exit(exit: ExitReport, input: InputWritten)
    ensures
        finished(exit, input) == Ok::<OutcomeModel, RunnerErrorModel>(OutcomeModel::Succeeded)
            <==> exit.success && input is Written,
{
}

/// Resolving changes the program at most, never the arguments; and a command
/// with an absolute program means the same in every directory.
pub proof fn resolving_keeps_arguments(
    argv: Seq<Seq<char>>,
    working_directory: Seq<char>,
    other_directory: Seq<char>,
)
    requires
        names_program(argv),
    ensures
        resolved(argv, candidate_of(argv[0], working_directory), true) matches Ok(command)
            ==> command.len() == argv.len() && command.skip(1) == argv.skip(1),
        path_absolute(argv[0]) ==> candidate_of(argv[0], working_directory) == candidate_of(
            argv[0],
            other_directory,
        ),
{
    let command = resolved(argv, candidate_of(argv[0], working_directory), true)->Ok_0;
    assert(command.skip(1) =~= argv.skip(1));
}

/// A command that ended with a failure has failed, with its code and status. One that
/// ended well has succeeded, unless its input could not be written. Where the writer of
/// the input itself failed, nothing is known of the command.
pub proof fn commands_end_as_they_exit(exit: ExitReport, input: InputWritten)
    ensures
        input is Panicked ==> finished(exit, input) == Err::<OutcomeModel, RunnerErrorModel>(
            RunnerErrorModel::InputWriterPanicked,
        ),
        !(input is Panicked) && !exit.success ==> (finished(exit, input) matches Ok(
            OutcomeModel::Failed { code, status },
        ) && code == exit.code && status == exit.status@),
        exit.success && (input matches InputWritten::Failed(error)) ==> (finished(
            exit,
            input,
        ) matches Err(RunnerErrorModel::WriteInput(told)) && (input matches InputWritten::Failed(
            error,
        ) && told == error@)),
{
}

/// A program with an absolute path and a bare name are run as they were given. A path
/// from the directory where the daemon was started is run from there. One that cannot
/// be executed is refused under the name that was looked for.
pub proof fn programs_are_found_where_the_daemon_started(
    argv: Seq<Seq<char>>,
    directory: Seq<char>,
    executable: bool,
)
    requires
        argv.len() > 0,
    ensures
        ({
            let candidate = candidate_of(argv[0], directory);
            let relative = !path_absolute(argv[0]) && path_components(argv[0]) > 1;
            let program = if relative {
                path_joined(directory, argv[0])
            } else {
                argv[0]
            };
            &&& candidate is OnPath <==> !path_absolute(argv[0]) && path_components(argv[0]) <= 1
            &&& candidate matches CandidateModel::File(path) ==> path == program
            &&& candidate matches CandidateModel::OnPath(name) ==> name == argv[0]
            &&& match resolved(argv, candidate, executable) {
                Ok(command) => executable && command.len() == argv.len() && command[0] == program
                    && forall|i: int|
                    1 <= i < argv.len() ==> #[trigger] command[i] == argv[i],
                Err(error) => !executable && error == RunnerErrorModel::ProgramNotFound(program),
            }
        }),
{
}

/// A command needs a program that has a name.
pub proof fn commands_need_a_program(program: Seq<char>, arguments: Seq<Seq<char>>)
    ensures
        names_program(seq![program] + arguments) <==> program.len() > 0,
        !names_program(seq![]),
{
    assert((seq![program] + arguments)[0] == program);
}

/// A command reads its JSON and one line feed behind it.
pub proof fn input_ends_with_a_line_feed(json: Seq<u8>)
    ensures
        framed(json).len() == json.len() + 1,
        framed(json).take(json.len() as int) == json,
        framed(json).last() == 0x0a,
{
    assert(framed(json).take(json.len() as int) =~= json);
}

/// A command is stopped as cancelled once it is, and as timed out once its time is up
/// before that; one without a limit is never timed out.
pub proof fn commands_are_stopped_in_time(
    cancelled: bool,
    timeout: Option<Duration>,
    elapsed: Duration,
)
    requires
        elapsed.nanos < 1_000_000_000,
        timeout matches Some(limit) ==> limit.nanos < 1_000_000_000,
    ensures
        ({
            let up = timeout matches Some(limit) && limit.seconds * 1_000_000_000 + limit.nanos
                <= elapsed.seconds * 1_000_000_000 + elapsed.nanos;
            &&& cancelled ==> watched(cancelled, timeout, elapsed) == Watch::Stop(
                RunOutcome::Cancelled,
            )
            &&& !cancelled && up ==> watched(cancelled, timeout, elapsed) == Watch::Stop(
                RunOutcome::TimedOut,
            )
            &&& !cancelled && !up ==> watched(cancelled, timeout, elapsed) is Wait
            &&& waited(timeout, elapsed) == if up {
                Some(RunOutcome::TimedOut)
            } else {
                None
            }
        }),
{
    crate::process::processes_are_looked_at_in_time(cancelled, timeout, elapsed);
}

/// The code of an outcome is zero for a success, and that of the process for a failure;
/// a command that was stopped has none.
pub proof fn codes_are_those_of_the_process(exit: ExitReport)
    ensures
        exit.success ==> (finished(exit, InputWritten::Written) matches Ok(outcome)
            && outcome.code() == Some(0i32)),
        !exit.success ==> (finished(exit, InputWritten::Written) matches Ok(outcome)
            && outcome.code() == exit.code),
        OutcomeModel::TimedOut.code() is None,
        OutcomeModel::Cancelled.code() is None,
{
}

} // verus!
