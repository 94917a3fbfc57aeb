//! Local repositories, and the pull request revisions fetched into them.
//!
//! A fetch writes `FETCH_HEAD` only: it neither checks anything out nor creates
//! a branch or a tracking ref.

pub mod laws;
pub mod steps;

use vstd::prelude::*;
use crate::process::Wait;
use crate::text::{
    char_is_control, char_is_hex_digit, chars_of, debug_text, ends_with, find, is_control,
    is_hex_digit, lines, lower, rsplit_once, split, split_once, starts_with, str_contains,
    push_text, str_contains_char, str_debug, str_ends_with, str_eq_ignore_case, str_lines,
    str_rsplit_once, str_split, str_split_once, str_starts_with, str_strip_prefix,
    str_strip_suffix, str_trim, str_trim_matches, str_words, strip_prefix, strip_suffix, texts,
    trim, trim_matches, words,
};
use crate::number::{decimal, u64_text};
use crate::time::Duration;

verus! {

/// The seconds that both fetches of a pull request may take together.
pub const FETCH_TIMEOUT: u64 = 300;

/// The seconds that one step of the discovery of a repository may take.
pub const DISCOVERY_TIMEOUT: u64 = 30;

/// The programs that are run.
#[derive(Debug, PartialEq, Eq)]
pub struct GitTools {
    pub git: String,
    pub ssh: String,
}

impl Clone for GitTools {
    fn clone(&self) -> (r: Self)
        ensures
            r == *self,
    {
        GitTools { git: self.git.clone(), ssh: self.ssh.clone() }
    }
}

impl Default for GitTools {
    fn default() -> (r: Self)
        ensures
            r.git@ == "git"@,
            r.ssh@ == "ssh"@,
    {
        GitTools { git: "git".to_owned(), ssh: "ssh".to_owned() }
    }
}

#[derive(Debug, PartialEq, Eq)]
pub struct GitHubOrigin {
    pub hostname: String,
    pub owner: String,
    pub repository: String,
}

#[verifier::ext_equal]
pub struct OriginModel {
    pub hostname: Seq<char>,
    pub owner: Seq<char>,
    pub repository: Seq<char>,
}

impl View for GitHubOrigin {
    type V = OriginModel;

    open spec fn view(&self) -> OriginModel {
        OriginModel {
            hostname: self.hostname@,
            owner: self.owner@,
            repository: self.repository@,
        }
    }
}

impl Clone for GitHubOrigin {
    fn clone(&self) -> (r: Self)
        ensures
            r@ == self@,
    {
        GitHubOrigin {
            hostname: self.hostname.clone(),
            owner: self.owner.clone(),
            repository: self.repository.clone(),
        }
    }
}

impl OriginModel {
    /// `OWNER/REPOSITORY`.
    pub open spec fn name(self) -> Seq<char> {
        self.owner + "/"@ + self.repository
    }

    /// The same repository: GitHub does not tell capitals from small letters.
    pub open spec fn equivalent(self, other: OriginModel) -> bool {
        lower(self.hostname) == lower(other.hostname) && lower(self.owner) == lower(other.owner)
            && lower(self.repository) == lower(other.repository)
    }
}

impl GitHubOrigin {
    pub fn full_name(&self) -> (r: String)
        ensures
            r@ == self@.name(),
    {
        let mut r = self.owner.clone();
        r.append("/");
        r.append(self.repository.as_str());
        r
    }

    pub fn equivalent_to(&self, other: &GitHubOrigin) -> (r: bool)
        ensures
            r == self@.equivalent(other@),
    {
        str_eq_ignore_case(self.hostname.as_str(), other.hostname.as_str()) && str_eq_ignore_case(
            self.owner.as_str(),
            other.owner.as_str(),
        ) && str_eq_ignore_case(self.repository.as_str(), other.repository.as_str())
    }
}

/// A worktree whose first fetch URL is on GitHub.
#[derive(Debug, PartialEq, Eq)]
pub struct LocalRepository {
    pub worktree_root: String,
    pub origin_url: String,
    pub origin: GitHubOrigin,
}

/// What has to be fetched for a review.
#[derive(Debug, PartialEq, Eq)]
pub struct FetchSpec {
    pub pull_number: u64,
    pub base_ref: String,
    pub expected_base_oid: String,
    pub expected_head_oid: String,
}

impl Clone for FetchSpec {
    fn clone(&self) -> (r: Self)
        ensures
            r == *self,
    {
        FetchSpec {
            pull_number: self.pull_number,
            base_ref: self.base_ref.clone(),
            expected_base_oid: self.expected_base_oid.clone(),
            expected_head_oid: self.expected_head_oid.clone(),
        }
    }
}

#[derive(Clone, Copy, Debug, PartialEq, Eq, Structural)]
pub enum RevisionKind {
    Base,
    Head,
}

impl RevisionKind {
    pub open spec fn text(self) -> Seq<char> {
        match self {
            RevisionKind::Base => "Base"@,
            RevisionKind::Head => "Head"@,
        }
    }

    pub fn as_str(self) -> (r: &'static str)
        ensures
            r@ == self.text(),
    {
        match self {
            RevisionKind::Base => "Base",
            RevisionKind::Head => "Head",
        }
    }
}

/// Why preparing a review failed.
#[derive(Debug, PartialEq, Eq)]
pub enum GitError {
    Io(String),
    CommandFailed { operation: String, status: String, stderr: String },
    CommandTimedOut { operation: String, timeout: Duration },
    Cancelled { operation: String },
    InvalidOutput { operation: String, detail: String },
    UnsupportedOrigin(String),
    OriginMismatch { expected: String, actual: String },
    WorktreeMismatch { expected: String, actual: String },
    /// The ref moved after GitHub was asked for the revision.
    StaleRevision { kind: RevisionKind, expected: String, fetched: String },
}

pub enum GitErrorModel {
    Io(Seq<char>),
    CommandFailed { operation: Seq<char>, status: Seq<char>, stderr: Seq<char> },
    CommandTimedOut { operation: Seq<char>, timeout: Duration },
    Cancelled { operation: Seq<char> },
    InvalidOutput { operation: Seq<char>, detail: Seq<char> },
    UnsupportedOrigin(Seq<char>),
    OriginMismatch { expected: Seq<char>, actual: Seq<char> },
    WorktreeMismatch { expected: Seq<char>, actual: Seq<char> },
    StaleRevision { kind: RevisionKind, expected: Seq<char>, fetched: Seq<char> },
}

impl View for GitError {
    type V = GitErrorModel;

    open spec fn view(&self) -> GitErrorModel {
        match self {
            GitError::Io(error) => GitErrorModel::Io(error@),
            GitError::CommandFailed { operation, status, stderr } => GitErrorModel::CommandFailed {
                operation: operation@,
                status: status@,
                stderr: stderr@,
            },
            GitError::CommandTimedOut { operation, timeout } => GitErrorModel::CommandTimedOut {
                operation: operation@,
                timeout: *timeout,
            },
            GitError::Cancelled { operation } => GitErrorModel::Cancelled {
                operation: operation@,
            },
            GitError::InvalidOutput { operation, detail } => GitErrorModel::InvalidOutput {
                operation: operation@,
                detail: detail@,
            },
            GitError::UnsupportedOrigin(url) => GitErrorModel::UnsupportedOrigin(url@),
            GitError::OriginMismatch { expected, actual } => GitErrorModel::OriginMismatch {
                expected: expected@,
                actual: actual@,
            },
            GitError::WorktreeMismatch { expected, actual } => GitErrorModel::WorktreeMismatch {
                expected: expected@,
                actual: actual@,
            },
            GitError::StaleRevision { kind, expected, fetched } => GitErrorModel::StaleRevision {
                kind: *kind,
                expected: expected@,
                fetched: fetched@,
            },
        }
    }
}

impl GitErrorModel {
    /// What the user reads.
    pub open spec fn text(self) -> Seq<char> {
        match self {
            GitErrorModel::Io(error) => "Git operation failed: "@ + error,
            GitErrorModel::CommandFailed { operation, status, stderr } => operation
                + " failed with "@ + status + ": "@ + trim(stderr),
            GitErrorModel::CommandTimedOut { operation, timeout } => operation
                + " timed out after "@ + decimal(timeout.seconds as nat) + "s"@,
            GitErrorModel::Cancelled { operation } => operation + " was cancelled"@,
            GitErrorModel::InvalidOutput { operation, detail } => operation
                + " returned invalid output: "@ + detail,
            GitErrorModel::UnsupportedOrigin(url) => "origin is not a supported GitHub.com URL: "@
                + url,
            GitErrorModel::OriginMismatch { expected, actual } => "registered origin is "@
                + expected + ", but local origin is "@ + actual,
            GitErrorModel::WorktreeMismatch { expected, actual } => "registered path "@ + expected
                + " resolves to worktree "@ + actual,
            GitErrorModel::StaleRevision { kind, expected, fetched } => "GitHub "@ + kind.text()
                + " revision moved while preparing review (expected "@ + expected + ", fetched "@
                + fetched + ")"@,
        }
    }
}

impl GitError {
    pub fn message(&self) -> (r: String)
        ensures
            r@ == self@.text(),
    {
        match self {
            GitError::Io(error) => {
                let mut r = "Git operation failed: ".to_owned();
                r.append(error.as_str());
                r
            },
            GitError::CommandFailed { operation, status, stderr } => {
                let mut r = operation.clone();
                r.append(" failed with ");
                r.append(status.as_str());
                r.append(": ");
                r.append(str_trim(stderr.as_str()).as_str());
                r
            },
            GitError::CommandTimedOut { operation, timeout } => {
                let mut r = operation.clone();
                r.append(" timed out after ");
                r.append(u64_text(timeout.seconds).as_str());
                r.append("s");
                r
            },
            GitError::Cancelled { operation } => {
                let mut r = operation.clone();
                r.append(" was cancelled");
                r
            },
            GitError::InvalidOutput { operation, detail } => {
                let mut r = operation.clone();
                r.append(" returned invalid output: ");
                r.append(detail.as_str());
                r
            },
            GitError::UnsupportedOrigin(url) => {
                let mut r = "origin is not a supported GitHub.com URL: ".to_owned();
                r.append(url.as_str());
                r
            },
            GitError::OriginMismatch { expected, actual } => {
                let mut r = "registered origin is ".to_owned();
                r.append(expected.as_str());
                r.append(", but local origin is ");
                r.append(actual.as_str());
                r
            },
            GitError::WorktreeMismatch { expected, actual } => {
                let mut r = "registered path ".to_owned();
                r.append(expected.as_str());
                r.append(" resolves to worktree ");
                r.append(actual.as_str());
                r
            },
            GitError::StaleRevision { kind, expected, fetched } => {
                let mut r = "GitHub ".to_owned();
                r.append(kind.as_str());
                r.append(" revision moved while preparing review (expected ");
                r.append(expected.as_str());
                r.append(", fetched ");
                r.append(fetched.as_str());
                r.append(")");
                r
            },
        }
    }

    /// The models of a result with a Git error.
    pub open spec fn result_model<T: View>(r: Result<T, GitError>) -> Result<T::V, GitErrorModel> {
        match r {
            Ok(value) => Ok(value@),
            Err(error) => Err(error@),
        }
    }
}

// ---------------------------------------------------------------------------
// Origins
// ---------------------------------------------------------------------------

/// The parts of a remote URL.
#[derive(Debug, PartialEq, Eq)]
pub struct ParsedOrigin {
    pub host: String,
    pub path: String,
    pub ssh: bool,
}

#[verifier::ext_equal]
pub struct ParsedModel {
    pub host: Seq<char>,
    pub path: Seq<char>,
    pub ssh: bool,
}

impl View for ParsedOrigin {
    type V = ParsedModel;

    open spec fn view(&self) -> ParsedModel {
        ParsedModel { host: self.host@, path: self.path@, ssh: self.ssh }
    }
}

/// What stands behind the last `@` of an authority.
pub open spec fn behind_user(authority: Seq<char>) -> Seq<char> {
    match rsplit_once(authority, '@') {
        Some((_, host)) => host,
        None => authority,
    }
}

/// What stands before the first `:`.
pub open spec fn before_port(host: Seq<char>) -> Seq<char> {
    split(host, ':')[0]
}

/// The parts of a URL with a scheme, behind the scheme.
pub open spec fn parts_of(rest: Seq<char>, ssh: bool) -> Option<ParsedModel> {
    match split_once(rest, '/') {
        Some((authority, path)) => Some(
            ParsedModel { host: before_port(behind_user(authority)), path, ssh },
        ),
        None => None,
    }
}

/// The parts of a remote URL: `https://HOST/PATH`, `ssh://HOST/PATH` or
/// `HOST:PATH`.
pub open spec fn parsed_origin(url: Seq<char>) -> Option<ParsedModel> {
    let url = trim(url);
    match strip_prefix(url, "https://"@) {
        Some(rest) => parts_of(rest, false),
        None => match strip_prefix(url, "ssh://"@) {
            Some(rest) => parts_of(rest, true),
            None => match split_once(url, ':') {
                None => None,
                Some((authority, path)) => if authority.contains('/') || starts_with(
                    path,
                    "/"@,
                ) {
                    None
                } else {
                    Some(ParsedModel { host: behind_user(authority), path, ssh: true })
                },
            },
        },
    }
}

fn str_behind_user(authority: &str) -> (r: String)
    ensures
        r@ == behind_user(authority@),
{
    match str_rsplit_once(authority, '@') {
        Some((_, host)) => host,
        None => authority.to_owned(),
    }
}

fn parse_parts(rest: &str, ssh: bool) -> (r: Option<ParsedOrigin>)
    ensures
        crate::model::opt_model(r) == parts_of(rest@, ssh),
{
    match str_split_once(rest, '/') {
        Some((authority, path)) => {
            let host = str_behind_user(authority.as_str());
            let pieces = str_split(host.as_str(), ':');
            assert(texts(pieces@)[0] == pieces@[0]@);
            Some(ParsedOrigin { host: pieces[0].clone(), path, ssh })
        },
        None => None,
    }
}

impl ParsedOrigin {
    pub fn parse(url: &str) -> (r: Option<ParsedOrigin>)
        ensures
            crate::model::opt_model(r) == parsed_origin(url@),
    {
        let url = str_trim(url);
        if let Some(rest) = str_strip_prefix(url.as_str(), "https://") {
            return parse_parts(rest.as_str(), false);
        }
        if let Some(rest) = str_strip_prefix(url.as_str(), "ssh://") {
            return parse_parts(rest.as_str(), true);
        }
        match str_split_once(url.as_str(), ':') {
            None => None,
            Some((authority, path)) => if str_contains_char(authority.as_str(), '/')
                || str_starts_with(path.as_str(), "/") {
                None
            } else {
                Some(ParsedOrigin { host: str_behind_user(authority.as_str()), path, ssh: true })
            },
        }
    }
}

/// The owner and the name in the path of a repository.
pub open spec fn repo_path(path: Seq<char>) -> Option<(Seq<char>, Seq<char>)> {
    let bare = trim_matches(path, '/');
    let short = match strip_suffix(bare, ".git"@) {
        Some(rest) => rest,
        None => bare,
    };
    let fields = split(short, '/');
    if fields.len() != 2 || fields[0].len() == 0 || fields[1].len() == 0 {
        None
    } else {
        Some((fields[0], fields[1]))
    }
}

pub fn split_repo_path(path: &str) -> (r: Option<(String, String)>)
    ensures
        match r {
            Some((owner, name)) => repo_path(path@) == Some((owner@, name@)),
            None => repo_path(path@) is None,
        },
{
    let bare = str_trim_matches(path, '/');
    let short = match str_strip_suffix(bare.as_str(), ".git") {
        Some(rest) => rest,
        None => bare,
    };
    let fields = str_split(short.as_str(), '/');
    assert(texts(fields@).len() == fields@.len());
    if fields.len() != 2 {
        return None;
    }
    assert(texts(fields@)[0] == fields@[0]@);
    assert(texts(fields@)[1] == fields@[1]@);
    if fields[0].as_str().unicode_len() == 0 || fields[1].as_str().unicode_len() == 0 {
        return None;
    }
    Some((fields[0].clone(), fields[1].clone()))
}

/// The host that SSH has to be asked about, where the URL names one by an
/// alias.
pub open spec fn alias_of(url: Seq<char>) -> Option<Seq<char>> {
    match parsed_origin(url) {
        Some(parsed) => if parsed.ssh && lower(parsed.host) != lower("github.com"@) {
            Some(parsed.host)
        } else {
            None
        },
        None => None,
    }
}

/// The repository on GitHub that a URL names, where `resolved` is what SSH says
/// of an alias. Without an answer of SSH the alias itself is taken.
pub open spec fn origin_of(url: Seq<char>, resolved: Option<Seq<char>>) -> Result<
    OriginModel,
    GitErrorModel,
> {
    match parsed_origin(url) {
        None => Err(GitErrorModel::UnsupportedOrigin(url)),
        Some(parsed) => {
            let hostname = if alias_of(url) is Some && resolved is Some {
                resolved->0
            } else {
                parsed.host
            };
            if lower(hostname) != lower("github.com"@) {
                Err(GitErrorModel::UnsupportedOrigin(url))
            } else {
                match repo_path(parsed.path) {
                    None => Err(GitErrorModel::UnsupportedOrigin(url)),
                    Some((owner, repository)) => Ok(
                        OriginModel { hostname: "github.com"@, owner, repository },
                    ),
                }
            }
        },
    }
}

/// The host name in the output of `ssh -G`: the second word of the first line
/// that starts with `hostname` and has one.
pub open spec fn hostname_in(found: Seq<Seq<char>>, from: int) -> Option<Seq<char>>
    decreases found.len() - from,
{
    if from < 0 || from >= found.len() {
        None
    } else {
        let fields = words(found[from]);
        if fields.len() >= 2 && lower(fields[0]) == lower("hostname"@) {
            Some(fields[1])
        } else {
            hostname_in(found, from + 1)
        }
    }
}

/// Reads the output of `ssh -G`.
pub fn parse_ssh_hostname(output: &str) -> (r: Result<String, GitError>)
    ensures
        match r {
            Ok(host) => hostname_in(lines(output@), 0) == Some(host@),
            Err(error) => hostname_in(lines(output@), 0) is None && error@
                == (GitErrorModel::InvalidOutput {
                operation: "resolve SSH host"@,
                detail: "ssh -G did not print a hostname"@,
            }),
        },
{
    let found = str_lines(output);
    assert(texts(found@).len() == found@.len());
    let mut i: usize = 0;
    while i < found.len()
        invariant
            i <= found@.len(),
            texts(found@) == lines(output@),
            texts(found@).len() == found@.len(),
            hostname_in(lines(output@), 0) == hostname_in(lines(output@), i as int),
        decreases found@.len() - i,
    {
        let fields = str_words(found[i].as_str());
        assert(texts(found@)[i as int] == found@[i as int]@);
        assert(texts(fields@).len() == fields@.len());
        if fields.len() >= 2 {
            assert(texts(fields@)[0] == fields@[0]@);
            assert(texts(fields@)[1] == fields@[1]@);
            if str_eq_ignore_case(fields[0].as_str(), "hostname") {
                return Ok(fields[1].clone());
            }
        }
        i += 1;
    }
    Err(
        GitError::InvalidOutput {
            operation: "resolve SSH host".to_owned(),
            detail: "ssh -G did not print a hostname".to_owned(),
        },
    )
}

/// The text that an optional borrowed string holds.
pub open spec fn opt_borrowed(o: Option<&str>) -> Option<Seq<char>> {
    match o {
        Some(s) => Some(s@),
        None => None,
    }
}

impl GitTools {
    /// The host that `ssh -G` has to be asked about before the URL can be read.
    pub fn ssh_alias(&self, url: &str) -> (r: Option<String>)
        ensures
            crate::text::opt_text(r) == alias_of(url@),
    {
        match ParsedOrigin::parse(url) {
            Some(parsed) => if parsed.ssh && !str_eq_ignore_case(
                parsed.host.as_str(),
                "github.com",
            ) {
                Some(parsed.host)
            } else {
                None
            },
            None => None,
        }
    }

    /// Reads the URL of a repository on GitHub. `resolved` is what SSH makes of
    /// the alias that the URL names, where it names one and SSH answered.
    pub fn parse_origin(&self, url: &str, resolved: Option<&str>) -> (r: Result<
        GitHubOrigin,
        GitError,
    >)
        ensures
            GitError::result_model(r) == origin_of(url@, opt_borrowed(resolved)),
    {
        let parsed = match ParsedOrigin::parse(url) {
            Some(parsed) => parsed,
            None => {
                return Err(GitError::UnsupportedOrigin(url.to_owned()));
            },
        };
        let is_alias = parsed.ssh && !str_eq_ignore_case(parsed.host.as_str(), "github.com");
        let hostname = match resolved {
            Some(name) => if is_alias {
                name.to_owned()
            } else {
                parsed.host.clone()
            },
            None => parsed.host.clone(),
        };
        if !str_eq_ignore_case(hostname.as_str(), "github.com") {
            return Err(GitError::UnsupportedOrigin(url.to_owned()));
        }
        match split_repo_path(parsed.path.as_str()) {
            None => Err(GitError::UnsupportedOrigin(url.to_owned())),
            Some((owner, repository)) => Ok(
                GitHubOrigin { hostname: "github.com".to_owned(), owner, repository },
            ),
        }
    }
}

/// A repository that is accepted is on GitHub, and has an owner and a name.
pub proof fn accepted_origin_is_on_github(url: Seq<char>, resolved: Option<Seq<char>>)
    ensures
        origin_of(url, resolved) matches Ok(origin) ==> origin.hostname == "github.com"@
            && origin.owner.len() > 0 && origin.repository.len() > 0,
{
}

// ---------------------------------------------------------------------------
// Names that are handed to git
// ---------------------------------------------------------------------------

/// A character that no ref name holds.
pub open spec fn forbidden_in_ref(c: char) -> bool {
    is_control(c) || " ~^:?*[\\"@.contains(c)
}

pub open spec fn valid_ref(value: Seq<char>) -> bool {
    &&& value.len() > 0
    &&& !starts_with(value, "."@)
    &&& !ends_with(value, "."@)
    &&& find(value, ".."@) is None
    &&& find(value, "@{"@) is None
    &&& forall|i: int| 0 <= i < value.len() ==> !forbidden_in_ref(#[trigger] value[i])
}

fn has_forbidden(value: &str) -> (r: bool)
    ensures
        r == (exists|i: int| 0 <= i < value@.len() && forbidden_in_ref(#[trigger] value@[i])),
{
    let x = chars_of(value);
    let mut i: usize = 0;
    while i < x.len()
        invariant
            x@ == value@,
            i <= x@.len(),
            forall|j: int| 0 <= j < i ==> !forbidden_in_ref(#[trigger] value@[j]),
        decreases x@.len() - i,
    {
        if char_is_control(x[i]) || str_contains_char(" ~^:?*[\\", x[i]) {
            assert(forbidden_in_ref(value@[i as int]));
            return true;
        }
        i += 1;
    }
    false
}

pub fn validate_ref_component(value: &str) -> (r: Result<(), GitError>)
    ensures
        r is Ok <==> valid_ref(value@),
        r matches Err(error) ==> error@ == (GitErrorModel::InvalidOutput {
            operation: "construct base ref"@,
            detail: "invalid base ref "@ + debug_text(value@),
        }),
{
    if value.unicode_len() == 0 || str_starts_with(value, ".") || str_ends_with(value, ".")
        || str_contains(value, "..") || str_contains(value, "@{") || has_forbidden(value) {
        let mut detail = "invalid base ref ".to_owned();
        detail.append(str_debug(value).as_str());
        return Err(GitError::InvalidOutput { operation: "construct base ref".to_owned(), detail });
    }
    Ok(())
}

/// Forty to sixty-four hexadecimal digits.
pub open spec fn valid_oid(value: Seq<char>) -> bool {
    40 <= value.len() <= 64 && forall|i: int|
        0 <= i < value.len() ==> is_hex_digit(#[trigger] value[i])
}

pub fn validate_oid(value: &str) -> (r: Result<(), GitError>)
    ensures
        r is Ok <==> valid_oid(value@),
        r matches Err(error) ==> error@ == (GitErrorModel::InvalidOutput {
            operation: "verify fetched revision"@,
            detail: "invalid object ID "@ + debug_text(value@),
        }),
{
    let x = chars_of(value);
    let mut valid = 40 <= x.len() && x.len() <= 64;
    let mut i: usize = 0;
    while valid && i < x.len()
        invariant
            x@ == value@,
            i <= x@.len(),
            valid ==> 40 <= x@.len() <= 64 && forall|j: int|
                0 <= j < i ==> is_hex_digit(#[trigger] value@[j]),
            !valid ==> !valid_oid(value@),
        decreases x@.len() - i,
    {
        if !char_is_hex_digit(x[i]) {
            assert(!is_hex_digit(value@[i as int]));
            valid = false;
        }
        i += 1;
    }
    if valid {
        return Ok(());
    }
    let mut detail = "invalid object ID ".to_owned();
    detail.append(str_debug(value).as_str());
    Err(GitError::InvalidOutput { operation: "verify fetched revision".to_owned(), detail })
}

/// The revision that was fetched is the one that was expected; case does not
/// matter.
pub fn verify_revision(kind: RevisionKind, expected: &str, fetched: &str) -> (r: Result<
    (),
    GitError,
>)
    ensures
        r is Ok <==> lower(expected@) == lower(fetched@),
        r matches Err(error) ==> error@ == (GitErrorModel::StaleRevision {
            kind,
            expected: expected@,
            fetched: fetched@,
        }),
{
    if str_eq_ignore_case(expected, fetched) {
        Ok(())
    } else {
        Err(
            GitError::StaleRevision {
                kind,
                expected: expected.to_owned(),
                fetched: fetched.to_owned(),
            },
        )
    }
}

/// What is left until a deadline: nothing left is a timeout.
pub fn remaining(left: Duration, operation: &str) -> (r: Result<Duration, GitError>)
    ensures
        r matches Ok(span) ==> span == left,
        r is Ok <==> !(left.seconds == 0 && left.nanos == 0),
        r matches Err(error) ==> error@ == (GitErrorModel::CommandTimedOut {
            operation: operation@,
            timeout: Duration { seconds: FETCH_TIMEOUT, nanos: 0 },
        }),
{
    if left.is_zero() {
        Err(
            GitError::CommandTimedOut {
                operation: operation.to_owned(),
                timeout: Duration::from_secs(FETCH_TIMEOUT),
            },
        )
    } else {
        Ok(left)
    }
}

// ---------------------------------------------------------------------------
// Commands
// ---------------------------------------------------------------------------

/// A command to run and what to call it in errors.
#[derive(Debug, PartialEq, Eq)]
pub struct GitCommand {
    pub program: String,
    pub args: Vec<String>,
    /// Git may ask for credentials on the terminal.
    pub may_prompt: bool,
    pub operation: String,
    pub timeout: Duration,
    /// The command is stopped when the daemon loses its lease.
    pub cancellable: bool,
}

#[verifier::ext_equal]
pub struct CommandModel {
    pub program: Seq<char>,
    pub args: Seq<Seq<char>>,
    pub may_prompt: bool,
    pub operation: Seq<char>,
    pub timeout: Duration,
    pub cancellable: bool,
}

impl View for GitCommand {
    type V = CommandModel;

    open spec fn view(&self) -> CommandModel {
        CommandModel {
            program: self.program@,
            args: texts(self.args@),
            may_prompt: self.may_prompt,
            operation: self.operation@,
            timeout: self.timeout,
            cancellable: self.cancellable,
        }
    }
}

/// The command that prints the root of the worktree around a directory.
pub open spec fn root_command(git: Seq<char>, start: Seq<char>) -> CommandModel {
    CommandModel {
        program: git,
        args: seq!["-C"@, start, "rev-parse"@, "--show-toplevel"@],
        may_prompt: true,
        operation: "discover Git worktree"@,
        timeout: Duration { seconds: DISCOVERY_TIMEOUT, nanos: 0 },
        cancellable: true,
    }
}

/// The command that prints the fetch URLs of `origin`.
pub open spec fn urls_command(git: Seq<char>, root: Seq<char>) -> CommandModel {
    CommandModel {
        program: git,
        args: seq!["-C"@, root, "remote"@, "get-url"@, "--all"@, "origin"@],
        may_prompt: true,
        operation: "read origin fetch URL"@,
        timeout: Duration { seconds: DISCOVERY_TIMEOUT, nanos: 0 },
        cancellable: true,
    }
}

/// The command that prints how SSH reads a host name.
pub open spec fn ssh_command(ssh: Seq<char>, host: Seq<char>) -> CommandModel {
    CommandModel {
        program: ssh,
        args: seq!["-G"@, host],
        may_prompt: true,
        operation: "resolve SSH host"@,
        timeout: Duration { seconds: DISCOVERY_TIMEOUT, nanos: 0 },
        cancellable: true,
    }
}

/// The command that fetches one ref into `FETCH_HEAD`, and into nothing else.
pub open spec fn fetch_command(
    git: Seq<char>,
    root: Seq<char>,
    source: Seq<char>,
    timeout: Duration,
) -> CommandModel {
    CommandModel {
        program: git,
        args: seq![
            "-C"@,
            root,
            "fetch"@,
            "--no-tags"@,
            "--refmap="@,
            "origin"@,
            source,
        ],
        may_prompt: false,
        operation: "fetch pull-request revision"@,
        timeout,
        cancellable: true,
    }
}

/// The command that prints the revision in `FETCH_HEAD`.
pub open spec fn fetched_command(
    git: Seq<char>,
    root: Seq<char>,
    timeout: Duration,
) -> CommandModel {
    CommandModel {
        program: git,
        args: seq!["-C"@, root, "rev-parse"@, "--verify"@, "FETCH_HEAD^{commit}"@],
        may_prompt: true,
        operation: "verify fetched revision"@,
        timeout,
        cancellable: false,
    }
}

fn in_directory(root: &str) -> (r: Vec<String>)
    ensures
        texts(r@) == seq!["-C"@, root@],
{
    let mut args: Vec<String> = Vec::new();
    assert(texts(args@) =~= seq![]);
    push_text(&mut args, "-C");
    push_text(&mut args, root);
    assert(texts(args@) =~= seq!["-C"@, root@]);
    args
}

impl GitTools {
    pub fn make_root_command(&self, start: &str) -> (r: GitCommand)
        ensures
            r@ == root_command(self.git@, start@),
    {
        let mut args = in_directory(start);
        push_text(&mut args, "rev-parse");
        push_text(&mut args, "--show-toplevel");
        assert(texts(args@) =~= root_command(self.git@, start@).args);
        GitCommand {
            program: self.git.clone(),
            args,
            may_prompt: true,
            operation: "discover Git worktree".to_owned(),
            timeout: Duration::from_secs(DISCOVERY_TIMEOUT),
            cancellable: true,
        }
    }

    pub fn make_urls_command(&self, root: &str) -> (r: GitCommand)
        ensures
            r@ == urls_command(self.git@, root@),
    {
        let mut args = in_directory(root);
        push_text(&mut args, "remote");
        push_text(&mut args, "get-url");
        push_text(&mut args, "--all");
        push_text(&mut args, "origin");
        assert(texts(args@) =~= urls_command(self.git@, root@).args);
        GitCommand {
            program: self.git.clone(),
            args,
            may_prompt: true,
            operation: "read origin fetch URL".to_owned(),
            timeout: Duration::from_secs(DISCOVERY_TIMEOUT),
            cancellable: true,
        }
    }

    pub fn make_ssh_command(&self, host: &str) -> (r: GitCommand)
        ensures
            r@ == ssh_command(self.ssh@, host@),
    {
        let mut args: Vec<String> = Vec::new();
        assert(texts(args@) =~= seq![]);
        push_text(&mut args, "-G");
        push_text(&mut args, host);
        assert(texts(args@) =~= ssh_command(self.ssh@, host@).args);
        GitCommand {
            program: self.ssh.clone(),
            args,
            may_prompt: true,
            operation: "resolve SSH host".to_owned(),
            timeout: Duration::from_secs(DISCOVERY_TIMEOUT),
            cancellable: true,
        }
    }

    pub fn make_fetch_command(&self, root: &str, source: &str, timeout: Duration) -> (r: GitCommand)
        ensures
            r@ == fetch_command(self.git@, root@, source@, timeout),
    {
        let mut args = in_directory(root);
        push_text(&mut args, "fetch");
        push_text(&mut args, "--no-tags");
        push_text(&mut args, "--refmap=");
        push_text(&mut args, "origin");
        push_text(&mut args, source);
        assert(texts(args@) =~= fetch_command(self.git@, root@, source@, timeout).args);
        GitCommand {
            program: self.git.clone(),
            args,
            may_prompt: false,
            operation: "fetch pull-request revision".to_owned(),
            timeout,
            cancellable: true,
        }
    }

    pub fn make_fetched_command(&self, root: &str, timeout: Duration) -> (r: GitCommand)
        ensures
            r@ == fetched_command(self.git@, root@, timeout),
    {
        let mut args = in_directory(root);
        push_text(&mut args, "rev-parse");
        push_text(&mut args, "--verify");
        push_text(&mut args, "FETCH_HEAD^{commit}");
        assert(texts(args@) =~= fetched_command(self.git@, root@, timeout).args);
        GitCommand {
            program: self.git.clone(),
            args,
            may_prompt: true,
            operation: "verify fetched revision".to_owned(),
            timeout,
            cancellable: false,
        }
    }
}

/// What to do about a command that is running: nothing more once it is
/// cancelled or its time is up.
pub fn command_stopped(command: &GitCommand, wait: &Wait) -> (r: Option<GitError>)
    ensures
        match wait {
            Wait::Cancelled => r matches Some(error) && error@ == (GitErrorModel::Cancelled {
                operation: command@.operation,
            }),
            Wait::TimedOut => r matches Some(error) && error@ == (GitErrorModel::CommandTimedOut {
                operation: command@.operation,
                timeout: command.timeout,
            }),
            Wait::Poll(_) => r is None,
        },
{
    match wait {
        Wait::Cancelled => Some(GitError::Cancelled { operation: command.operation.clone() }),
        Wait::TimedOut => Some(
            GitError::CommandTimedOut {
                operation: command.operation.clone(),
                timeout: command.timeout,
            },
        ),
        Wait::Poll(_) => None,
    }
}

/// What a command that ended gives.
pub open spec fn output_of(
    operation: Seq<char>,
    success: bool,
    status: Seq<char>,
    stdout: Result<Seq<char>, Seq<char>>,
    stderr: Seq<char>,
) -> Result<Seq<char>, GitErrorModel> {
    if !success {
        Err(GitErrorModel::CommandFailed { operation, status, stderr })
    } else {
        match stdout {
            Ok(text) => Ok(text),
            Err(detail) => Err(GitErrorModel::InvalidOutput { operation, detail }),
        }
    }
}

/// The output of a command that ended, or its error. `stdout` is the output as
/// text, or why it is no text.
pub fn command_output(
    command: &GitCommand,
    success: bool,
    status: &str,
    stdout: Result<String, String>,
    stderr: &str,
) -> (r: Result<String, GitError>)
    ensures
        GitError::result_model(r) == output_of(
            command@.operation,
            success,
            status@,
            match stdout {
                Ok(text) => Ok(text@),
                Err(detail) => Err(detail@),
            },
            stderr@,
        ),
        GitError::result_model(r) == if !success {
            Err::<Seq<char>, GitErrorModel>(
                GitErrorModel::CommandFailed {
                    operation: command@.operation,
                    status: status@,
                    stderr: stderr@,
                },
            )
        } else {
            match stdout {
                Ok(text) => Ok(text@),
                Err(detail) => Err(
                    GitErrorModel::InvalidOutput {
                        operation: command@.operation,
                        detail: detail@,
                    },
                ),
            }
        },
{
    if !success {
        return Err(
            GitError::CommandFailed {
                operation: command.operation.clone(),
                status: status.to_owned(),
                stderr: stderr.to_owned(),
            },
        );
    }
    match stdout {
        Ok(text) => Ok(text),
        Err(detail) => Err(
            GitError::InvalidOutput { operation: command.operation.clone(), detail },
        ),
    }
}

} // verus!
