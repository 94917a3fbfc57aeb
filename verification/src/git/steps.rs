//! Discovering a repository and fetching a pull request, one command at a
//! time.
//!
//! Each function tells which command to run next. The program runs it and
//! hands its output back.

use vstd::prelude::*;
use crate::git::{
    alias_of, fetch_command, fetched_command, hostname_in, origin_of, parse_ssh_hostname,
    remaining, root_command, ssh_command, urls_command, valid_oid, valid_ref, validate_oid,
    validate_ref_component, verify_revision, CommandModel, FetchSpec, GitCommand, GitError,
    GitErrorModel, GitHubOrigin, GitTools, LocalRepository, OriginModel, RevisionKind,
    FETCH_TIMEOUT,
};
use crate::number::{decimal, u64_text};
use crate::paths::{path_eq, paths_equal};
use crate::text::{debug_text, lines, lower, str_lines, str_trim, texts, trim};
use crate::time::Duration;

verus! {

// ---------------------------------------------------------------------------
// Discovery
// ---------------------------------------------------------------------------

/// How far the discovery of a repository has come.
pub enum DiscoverState {
    Root,
    Urls { root: String },
    Alias { root: String, origin_url: String },
}

pub enum DiscoverModel {
    Root,
    Urls { root: Seq<char> },
    Alias { root: Seq<char>, origin_url: Seq<char> },
}

impl View for DiscoverState {
    type V = DiscoverModel;

    open spec fn view(&self) -> DiscoverModel {
        match self {
            DiscoverState::Root => DiscoverModel::Root,
            DiscoverState::Urls { root } => DiscoverModel::Urls { root: root@ },
            DiscoverState::Alias { root, origin_url } => DiscoverModel::Alias {
                root: root@,
                origin_url: origin_url@,
            },
        }
    }
}

#[verifier::ext_equal]
pub struct LocalModel {
    pub worktree_root: Seq<char>,
    pub origin_url: Seq<char>,
    pub origin: OriginModel,
}

impl View for LocalRepository {
    type V = LocalModel;

    open spec fn view(&self) -> LocalModel {
        LocalModel {
            worktree_root: self.worktree_root@,
            origin_url: self.origin_url@,
            origin: self.origin@,
        }
    }
}

/// The command to run next, or the end of the discovery.
pub enum DiscoverStep {
    Run(DiscoverState, GitCommand),
    Done(Result<LocalRepository, GitError>),
}

pub enum DiscoverStepModel {
    Run(DiscoverModel, CommandModel),
    Done(Result<LocalModel, GitErrorModel>),
}

impl View for DiscoverStep {
    type V = DiscoverStepModel;

    open spec fn view(&self) -> DiscoverStepModel {
        match self {
            DiscoverStep::Run(state, command) => DiscoverStepModel::Run(state@, command@),
            DiscoverStep::Done(result) => DiscoverStepModel::Done(GitError::result_model(*result)),
        }
    }
}

/// The first line from `from` on that is not blank, without white space around
/// it.
pub open spec fn first_line(found: Seq<Seq<char>>, from: int) -> Option<Seq<char>>
    decreases found.len() - from,
{
    if from < 0 || from >= found.len() {
        None
    } else if trim(found[from]).len() > 0 {
        Some(trim(found[from]))
    } else {
        first_line(found, from + 1)
    }
}

/// The repository that was found under `root`.
pub open spec fn found_at(
    root: Seq<char>,
    origin_url: Seq<char>,
    resolved: Option<Seq<char>>,
) -> Result<LocalModel, GitErrorModel> {
    match origin_of(origin_url, resolved) {
        Ok(origin) => Ok(LocalModel { worktree_root: root, origin_url, origin }),
        Err(error) => Err(error),
    }
}

/// The clone, where it still is the worktree of the expected repository.
pub open spec fn still_registered(
    discovered: LocalModel,
    expected_path: Seq<char>,
    actual_path: Seq<char>,
    expected_origin: OriginModel,
) -> Result<LocalModel, GitErrorModel> {
    if !paths_equal(expected_path, actual_path) {
        Err(GitErrorModel::WorktreeMismatch { expected: expected_path, actual: actual_path })
    } else if !discovered.origin.equivalent(expected_origin) {
        Err(
            GitErrorModel::OriginMismatch {
                expected: expected_origin.name(),
                actual: discovered.origin.name(),
            },
        )
    } else {
        Ok(discovered)
    }
}

/// What SSH says, where it answered with a host name.
pub open spec fn resolved_by(output: Result<Seq<char>, GitErrorModel>) -> Option<Seq<char>> {
    match output {
        Ok(text) => hostname_in(lines(text), 0),
        Err(_) => None,
    }
}

/// What follows the output of the command that was run in a state.
pub open spec fn after_command(
    git: Seq<char>,
    ssh: Seq<char>,
    state: DiscoverModel,
    output: Result<Seq<char>, GitErrorModel>,
) -> DiscoverStepModel {
    match (state, output) {
        (DiscoverModel::Root, Ok(text)) => DiscoverStepModel::Run(
            DiscoverModel::Urls { root: trim(text) },
            urls_command(git, trim(text)),
        ),
        (DiscoverModel::Urls { root }, Ok(text)) => match first_line(lines(text), 0) {
            None => DiscoverStepModel::Done(
                Err(
                    GitErrorModel::InvalidOutput {
                        operation: "read origin fetch URL"@,
                        detail: "origin has no fetch URL"@,
                    },
                ),
            ),
            Some(url) => match alias_of(url) {
                Some(host) => DiscoverStepModel::Run(
                    DiscoverModel::Alias { root, origin_url: url },
                    ssh_command(ssh, host),
                ),
                None => DiscoverStepModel::Done(found_at(root, url, None)),
            },
        },
        (DiscoverModel::Alias { root, origin_url }, _) => DiscoverStepModel::Done(
            found_at(root, origin_url, resolved_by(output)),
        ),
        (_, Err(error)) => DiscoverStepModel::Done(Err(error)),
    }
}

fn str_first_line(output: &str) -> (r: Option<String>)
    ensures
        crate::text::opt_text(r) == first_line(lines(output@), 0),
{
    let found = str_lines(output);
    assert(texts(found@).len() == found@.len());
    let mut i: usize = 0;
    while i < found.len()
        invariant
            i <= found@.len(),
            texts(found@) == lines(output@),
            texts(found@).len() == found@.len(),
            first_line(lines(output@), 0) == first_line(lines(output@), i as int),
        decreases found@.len() - i,
    {
        assert(texts(found@)[i as int] == found@[i as int]@);
        let line = str_trim(found[i].as_str());
        if line.as_str().unicode_len() > 0 {
            return Some(line);
        }
        i += 1;
    }
    None
}

impl GitTools {
    /// Starts to look for the worktree around `start` and its origin.
    pub fn discover(&self, start: &str) -> (r: DiscoverStep)
        ensures
            r@ == DiscoverStepModel::Run(DiscoverModel::Root, root_command(self.git@, start@)),
    {
        DiscoverStep::Run(DiscoverState::Root, self.make_root_command(start))
    }

    fn found(&self, root: String, origin_url: String, resolved: Option<&str>) -> (r: DiscoverStep)
        ensures
            r@ == DiscoverStepModel::Done(
                found_at(root@, origin_url@, crate::git::opt_borrowed(resolved)),
            ),
    {
        match self.parse_origin(origin_url.as_str(), resolved) {
            Ok(origin) => DiscoverStep::Done(
                Ok(LocalRepository { worktree_root: root, origin_url, origin }),
            ),
            Err(error) => DiscoverStep::Done(Err(error)),
        }
    }

    /// Goes on with the output of the command that was run last.
    pub fn discover_next(&self, state: DiscoverState, output: Result<String, GitError>) -> (r:
        DiscoverStep)
        ensures
            r@ == after_command(self.git@, self.ssh@, state@, GitError::result_model(output)),
    {
        match state {
            DiscoverState::Root => match output {
                Ok(text) => {
                    let root = str_trim(text.as_str());
                    let command = self.make_urls_command(root.as_str());
                    DiscoverStep::Run(DiscoverState::Urls { root }, command)
                },
                Err(error) => DiscoverStep::Done(Err(error)),
            },
            DiscoverState::Urls { root } => match output {
                Ok(text) => match str_first_line(text.as_str()) {
                    None => DiscoverStep::Done(
                        Err(
                            GitError::InvalidOutput {
                                operation: "read origin fetch URL".to_owned(),
                                detail: "origin has no fetch URL".to_owned(),
                            },
                        ),
                    ),
                    Some(url) => match self.ssh_alias(url.as_str()) {
                        Some(host) => {
                            let command = self.make_ssh_command(host.as_str());
                            DiscoverStep::Run(
                                DiscoverState::Alias { root, origin_url: url },
                                command,
                            )
                        },
                        None => self.found(root, url, None),
                    },
                },
                Err(error) => DiscoverStep::Done(Err(error)),
            },
            DiscoverState::Alias { root, origin_url } => match output {
                Ok(text) => match parse_ssh_hostname(text.as_str()) {
                    Ok(host) => self.found(root, origin_url, Some(host.as_str())),
                    Err(_) => self.found(root, origin_url, None),
                },
                Err(_) => self.found(root, origin_url, None),
            },
        }
    }

    /// A registered directory still is the worktree of the expected repository.
    /// The two paths are what the registered directory and the root that was
    /// discovered from it really are.
    pub fn validate_registered_path(
        &self,
        discovered: LocalRepository,
        expected_path: &str,
        actual_path: &str,
        expected_origin: &GitHubOrigin,
    ) -> (r: Result<LocalRepository, GitError>)
        ensures
            GitError::result_model(r) == still_registered(
                discovered@,
                expected_path@,
                actual_path@,
                expected_origin@,
            ),
            GitError::result_model(r) == if !paths_equal(expected_path@, actual_path@) {
                Err::<LocalModel, GitErrorModel>(
                    GitErrorModel::WorktreeMismatch {
                        expected: expected_path@,
                        actual: actual_path@,
                    },
                )
            } else if !discovered@.origin.equivalent(expected_origin@) {
                Err(
                    GitErrorModel::OriginMismatch {
                        expected: expected_origin@.name(),
                        actual: discovered@.origin.name(),
                    },
                )
            } else {
                Ok(discovered@)
            },
    {
        if !path_eq(expected_path, actual_path) {
            return Err(
                GitError::WorktreeMismatch {
                    expected: expected_path.to_owned(),
                    actual: actual_path.to_owned(),
                },
            );
        }
        if !discovered.origin.equivalent_to(expected_origin) {
            return Err(
                GitError::OriginMismatch {
                    expected: expected_origin.full_name(),
                    actual: discovered.origin.full_name(),
                },
            );
        }
        Ok(discovered)
    }
}

// ---------------------------------------------------------------------------
// Fetching
// ---------------------------------------------------------------------------

/// The command of a fetch that was run last.
#[derive(Clone, Copy, Debug, PartialEq, Eq, Structural)]
pub enum FetchState {
    FetchBase,
    ReadBase,
    FetchHead,
    ReadHead,
}

/// The command to run next, or the end of the fetch.
pub enum FetchStep {
    Run(FetchState, GitCommand),
    Done(Result<(), GitError>),
}

pub enum FetchStepModel {
    Run(FetchState, CommandModel),
    Done(Result<(), GitErrorModel>),
}

impl View for FetchStep {
    type V = FetchStepModel;

    open spec fn view(&self) -> FetchStepModel {
        match self {
            FetchStep::Run(state, command) => FetchStepModel::Run(*state, command@),
            FetchStep::Done(Ok(_)) => FetchStepModel::Done(Ok(())),
            FetchStep::Done(Err(error)) => FetchStepModel::Done(Err(error@)),
        }
    }
}

/// Nothing is left until the deadline.
pub open spec fn used_up(left: Duration) -> bool {
    left.seconds == 0 && left.nanos == 0
}

pub open spec fn out_of_time(operation: Seq<char>) -> FetchStepModel {
    FetchStepModel::Done(
        Err(
            GitErrorModel::CommandTimedOut {
                operation,
                timeout: Duration { seconds: FETCH_TIMEOUT, nanos: 0 },
            },
        ),
    )
}

pub open spec fn base_source(spec: FetchSpec) -> Seq<char> {
    "refs/heads/"@ + spec.base_ref@
}

pub open spec fn head_source(spec: FetchSpec) -> Seq<char> {
    "refs/pull/"@ + decimal(spec.pull_number as nat) + "/head"@
}

pub open spec fn invalid_oid(value: Seq<char>) -> FetchStepModel {
    FetchStepModel::Done(
        Err(
            GitErrorModel::InvalidOutput {
                operation: "verify fetched revision"@,
                detail: "invalid object ID "@ + debug_text(value),
            },
        ),
    )
}

/// The first step of a fetch: nothing is run on names that git must not see.
pub open spec fn fetch_start(
    git: Seq<char>,
    root: Seq<char>,
    spec: FetchSpec,
    left: Duration,
) -> FetchStepModel {
    if !valid_ref(spec.base_ref@) {
        FetchStepModel::Done(
            Err(
                GitErrorModel::InvalidOutput {
                    operation: "construct base ref"@,
                    detail: "invalid base ref "@ + debug_text(spec.base_ref@),
                },
            ),
        )
    } else if !valid_oid(spec.expected_base_oid@) {
        invalid_oid(spec.expected_base_oid@)
    } else if !valid_oid(spec.expected_head_oid@) {
        invalid_oid(spec.expected_head_oid@)
    } else if used_up(left) {
        out_of_time("fetch pull-request revisions"@)
    } else {
        FetchStepModel::Run(
            FetchState::FetchBase,
            fetch_command(git, root, base_source(spec), left),
        )
    }
}

pub open spec fn stale(kind: RevisionKind, expected: Seq<char>, fetched: Seq<char>) -> FetchStepModel {
    FetchStepModel::Done(Err(GitErrorModel::StaleRevision { kind, expected, fetched }))
}

/// What follows the output of a command of the fetch, with `left` until the
/// deadline.
pub open spec fn fetch_after(
    git: Seq<char>,
    root: Seq<char>,
    spec: FetchSpec,
    state: FetchState,
    output: Result<Seq<char>, GitErrorModel>,
    left: Duration,
) -> FetchStepModel {
    match output {
        Err(error) => FetchStepModel::Done(Err(error)),
        Ok(text) => match state {
            FetchState::FetchBase => if used_up(left) {
                out_of_time("fetch pull-request revision"@)
            } else {
                FetchStepModel::Run(FetchState::ReadBase, fetched_command(git, root, left))
            },
            FetchState::ReadBase => if lower(spec.expected_base_oid@) != lower(trim(text)) {
                stale(RevisionKind::Base, spec.expected_base_oid@, trim(text))
            } else if used_up(left) {
                out_of_time("fetch pull-request revisions"@)
            } else {
                FetchStepModel::Run(
                    FetchState::FetchHead,
                    fetch_command(git, root, head_source(spec), left),
                )
            },
            FetchState::FetchHead => if used_up(left) {
                out_of_time("fetch pull-request revision"@)
            } else {
                FetchStepModel::Run(FetchState::ReadHead, fetched_command(git, root, left))
            },
            FetchState::ReadHead => if lower(spec.expected_head_oid@) != lower(trim(text)) {
                stale(RevisionKind::Head, spec.expected_head_oid@, trim(text))
            } else {
                FetchStepModel::Done(Ok(()))
            },
        },
    }
}

impl GitTools {
    /// Starts to fetch the base and the head of a pull request. One deadline
    /// covers both fetches; `left` is what is left until it.
    pub fn fetch_pull_request(&self, root: &str, spec: &FetchSpec, left: Duration) -> (r: FetchStep)
        ensures
            r@ == fetch_start(self.git@, root@, *spec, left),
    {
        if let Err(error) = validate_ref_component(spec.base_ref.as_str()) {
            return FetchStep::Done(Err(error));
        }
        if let Err(error) = validate_oid(spec.expected_base_oid.as_str()) {
            return FetchStep::Done(Err(error));
        }
        if let Err(error) = validate_oid(spec.expected_head_oid.as_str()) {
            return FetchStep::Done(Err(error));
        }
        match remaining(left, "fetch pull-request revisions") {
            Err(error) => FetchStep::Done(Err(error)),
            Ok(timeout) => {
                let mut source = "refs/heads/".to_owned();
                source.append(spec.base_ref.as_str());
                FetchStep::Run(
                    FetchState::FetchBase,
                    self.make_fetch_command(root, source.as_str(), timeout),
                )
            },
        }
    }

    /// Goes on with the output of the command that was run last.
    pub fn fetch_next(
        &self,
        root: &str,
        spec: &FetchSpec,
        state: FetchState,
        output: Result<String, GitError>,
        left: Duration,
    ) -> (r: FetchStep)
        ensures
            r@ == fetch_after(
                self.git@,
                root@,
                *spec,
                state,
                GitError::result_model(output),
                left,
            ),
    {
        let text = match output {
            Ok(text) => text,
            Err(error) => {
                return FetchStep::Done(Err(error));
            },
        };
        match state {
            FetchState::FetchBase => match remaining(left, "fetch pull-request revision") {
                Err(error) => FetchStep::Done(Err(error)),
                Ok(timeout) => FetchStep::Run(
                    FetchState::ReadBase,
                    self.make_fetched_command(root, timeout),
                ),
            },
            FetchState::ReadBase => {
                let fetched = str_trim(text.as_str());
                if let Err(error) = verify_revision(
                    RevisionKind::Base,
                    spec.expected_base_oid.as_str(),
                    fetched.as_str(),
                ) {
                    return FetchStep::Done(Err(error));
                }
                match remaining(left, "fetch pull-request revisions") {
                    Err(error) => FetchStep::Done(Err(error)),
                    Ok(timeout) => {
                        let mut source = "refs/pull/".to_owned();
                        source.append(u64_text(spec.pull_number).as_str());
                        source.append("/head");
                        FetchStep::Run(
                            FetchState::FetchHead,
                            self.make_fetch_command(root, source.as_str(), timeout),
                        )
                    },
                }
            },
            FetchState::FetchHead => match remaining(left, "fetch pull-request revision") {
                Err(error) => FetchStep::Done(Err(error)),
                Ok(timeout) => FetchStep::Run(
                    FetchState::ReadHead,
                    self.make_fetched_command(root, timeout),
                ),
            },
            FetchState::ReadHead => {
                let fetched = str_trim(text.as_str());
                FetchStep::Done(
                    verify_revision(
                        RevisionKind::Head,
                        spec.expected_head_oid.as_str(),
                        fetched.as_str(),
                    ),
                )
            },
        }
    }
}

// ---------------------------------------------------------------------------
// Laws
// ---------------------------------------------------------------------------

/// The step that is reached from `step` when the commands print what `outputs`
/// says, each with the time that was left behind it.
pub open spec fn fetch_run(
    git: Seq<char>,
    root: Seq<char>,
    spec: FetchSpec,
    step: FetchStepModel,
    outputs: Seq<(Result<Seq<char>, GitErrorModel>, Duration)>,
) -> FetchStepModel
    decreases outputs.len(),
{
    match step {
        FetchStepModel::Run(state, _) => if outputs.len() == 0 {
            step
        } else {
            fetch_run(
                git,
                root,
                spec,
                fetch_after(git, root, spec, state, outputs[0].0, outputs[0].1),
                outputs.skip(1),
            )
        },
        FetchStepModel::Done(_) => step,
    }
}

proof fn head_decides(
    git: Seq<char>,
    root: Seq<char>,
    spec: FetchSpec,
    command: CommandModel,
    outputs: Seq<(Result<Seq<char>, GitErrorModel>, Duration)>,
)
    requires
        fetch_run(
            git,
            root,
            spec,
            FetchStepModel::Run(FetchState::FetchHead, command),
            outputs,
        ) == FetchStepModel::Done(Ok::<(), GitErrorModel>(())),
    ensures
        outputs.len() >= 2,
        outputs[1].0 matches Ok(text) && lower(spec.expected_head_oid@) == lower(trim(text)),
{
    reveal_with_fuel(fetch_run, 4);
    if outputs.len() > 1 {
        assert(outputs.skip(1)[0] == outputs[1]);
    }
}

/// A fetch succeeds only after four commands, of which the second printed the
/// expected base and the fourth the expected head, and only for names that git
/// may see.
pub proof fn fetch_verifies_both_revisions(
    git: Seq<char>,
    root: Seq<char>,
    spec: FetchSpec,
    left: Duration,
    outputs: Seq<(Result<Seq<char>, GitErrorModel>, Duration)>,
)
    requires
        fetch_run(git, root, spec, fetch_start(git, root, spec, left), outputs)
            == FetchStepModel::Done(Ok::<(), GitErrorModel>(())),
    ensures
        outputs.len() >= 4,
        outputs[1].0 matches Ok(text) && lower(spec.expected_base_oid@) == lower(trim(text)),
        outputs[3].0 matches Ok(text) && lower(spec.expected_head_oid@) == lower(trim(text)),
        valid_ref(spec.base_ref@),
        valid_oid(spec.expected_base_oid@),
        valid_oid(spec.expected_head_oid@),
{
    reveal_with_fuel(fetch_run, 3);
    let rest = outputs.skip(1).skip(1);
    if outputs.len() > 1 {
        assert(outputs.skip(1)[0] == outputs[1]);
    }
    if outputs.len() > 2 {
        let command = fetch_command(git, root, head_source(spec), outputs[1].1);
        head_decides(git, root, spec, command, rest);
        assert(rest[1] == outputs[3]);
    } else if outputs.len() == 2 {
        assert(rest.len() == 0);
    }
}

/// A discovery runs at most three commands.
pub proof fn discovery_ends(
    git: Seq<char>,
    ssh: Seq<char>,
    first: Result<Seq<char>, GitErrorModel>,
    second: Result<Seq<char>, GitErrorModel>,
    third: Result<Seq<char>, GitErrorModel>,
)
    ensures
        after_command(git, ssh, DiscoverModel::Root, first) matches DiscoverStepModel::Run(s1, _)
            ==> (after_command(git, ssh, s1, second) matches DiscoverStepModel::Run(s2, _)
            ==> after_command(git, ssh, s2, third) is Done),
{
}

} // verus!
