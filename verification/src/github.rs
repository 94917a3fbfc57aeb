//! What is asked of GitHub through the `gh` program, and how its answers are
//! read.

pub mod client;
pub mod graph_laws;
pub mod graphql;
pub mod http;
pub mod laws;
pub mod pulls;
pub mod states;

use vstd::prelude::*;
use crate::model::{Notification, NotificationModel};
use crate::number::{decimal, parse_u64, read_unsigned, u64_text};
use crate::text::{
    opt_clone, opt_text, split, split_once, str_eq, str_split, str_split_once, str_starts_with,
    str_strip_prefix, str_trim, str_trim_matches, starts_with, strip_prefix, texts, trim,
    trim_matches,
};
use crate::time::{Duration, Timestamp};

verus! {

pub const API_HOST: &'static str = "github.com";

pub const API_URL_PREFIX: &'static str = "https://api.github.com";

pub const ACCEPT_HEADER: &'static str = "Accept: application/vnd.github+json";

pub const API_VERSION_HEADER: &'static str = "X-GitHub-Api-Version: 2022-11-28";

/// The seconds that one call of `gh` may take.
pub const GH_COMMAND_TIMEOUT: u64 = 45;

/// The seconds before the high-water mark that are read again.
pub const OVERLAP_SECONDS: i64 = 60;

// ---------------------------------------------------------------------------
// Metadata
// ---------------------------------------------------------------------------

/// What a response says about polling, paging and rate limits.
#[derive(Debug, PartialEq, Eq)]
pub struct ResponseMetadata {
    pub status: u16,
    pub last_modified: Option<String>,
    pub poll_interval: Option<Duration>,
    pub retry_after: Option<Duration>,
    pub rate_limit_remaining: Option<u64>,
    pub rate_limit_reset: Option<u64>,
    pub next: Option<String>,
}

#[verifier::ext_equal]
pub struct MetadataModel {
    pub status: u16,
    pub last_modified: Option<Seq<char>>,
    pub poll_interval: Option<Duration>,
    pub retry_after: Option<Duration>,
    pub rate_limit_remaining: Option<u64>,
    pub rate_limit_reset: Option<u64>,
    pub next: Option<Seq<char>>,
}

impl View for ResponseMetadata {
    type V = MetadataModel;

    open spec fn view(&self) -> MetadataModel {
        MetadataModel {
            status: self.status,
            last_modified: opt_text(self.last_modified),
            poll_interval: self.poll_interval,
            retry_after: self.retry_after,
            rate_limit_remaining: self.rate_limit_remaining,
            rate_limit_reset: self.rate_limit_reset,
            next: opt_text(self.next),
        }
    }
}

impl Default for ResponseMetadata {
    fn default() -> (r: Self)
        ensures
            r@ == (MetadataModel {
                status: 0,
                last_modified: None,
                poll_interval: None,
                retry_after: None,
                rate_limit_remaining: None,
                rate_limit_reset: None,
                next: None,
            }),
    {
        ResponseMetadata {
            status: 0,
            last_modified: None,
            poll_interval: None,
            retry_after: None,
            rate_limit_remaining: None,
            rate_limit_reset: None,
            next: None,
        }
    }
}

impl Clone for ResponseMetadata {
    fn clone(&self) -> (r: Self)
        ensures
            r@ == self@,
    {
        ResponseMetadata {
            status: self.status,
            last_modified: opt_clone(&self.last_modified),
            poll_interval: self.poll_interval,
            retry_after: self.retry_after,
            rate_limit_remaining: self.rate_limit_remaining,
            rate_limit_reset: self.rate_limit_reset,
            next: opt_clone(&self.next),
        }
    }
}

impl MetadataModel {
    /// With the rate limit that a later page reports: the smaller remainder,
    /// and the later word on the rest.
    pub open spec fn merged(self, page: MetadataModel) -> MetadataModel {
        MetadataModel {
            rate_limit_remaining: match (self.rate_limit_remaining, page.rate_limit_remaining) {
                (Some(current), Some(remaining)) => Some(
                    if current <= remaining {
                        current
                    } else {
                        remaining
                    },
                ),
                (None, Some(remaining)) => Some(remaining),
                (current, None) => current,
            },
            rate_limit_reset: if page.rate_limit_reset is Some {
                page.rate_limit_reset
            } else {
                self.rate_limit_reset
            },
            retry_after: if page.retry_after is Some {
                page.retry_after
            } else {
                self.retry_after
            },
            ..self
        }
    }
}

pub fn merge_rate_metadata(target: &mut ResponseMetadata, page: &ResponseMetadata)
    ensures
        final(target)@ == old(target)@.merged(page@),
{
    if let Some(remaining) = page.rate_limit_remaining {
        let least: u64 = match target.rate_limit_remaining {
            Some(current) => if current <= remaining {
                current
            } else {
                remaining
            },
            None => remaining,
        };
        target.rate_limit_remaining = Some(least);
    }
    if page.rate_limit_reset.is_some() {
        target.rate_limit_reset = page.rate_limit_reset;
    }
    if page.retry_after.is_some() {
        target.retry_after = page.retry_after;
    }
}

/// Merging never raises the number of requests that remain.
pub proof fn merge_takes_the_least(a: MetadataModel, page: MetadataModel)
    ensures
        a.rate_limit_remaining matches Some(n) ==> (a.merged(page).rate_limit_remaining matches Some(
            m,
        ) && m <= n),
        page.rate_limit_remaining matches Some(n) ==> (a.merged(
            page,
        ).rate_limit_remaining matches Some(m) && m <= n),
        a.merged(page).merged(page) == a.merged(page),
{
}

// ---------------------------------------------------------------------------
// Errors
// ---------------------------------------------------------------------------

/// Why GitHub gave no answer.
#[derive(Debug, PartialEq, Eq)]
pub enum GhError {
    Spawn { executable: String, source: String },
    Protocol(String),
    Decode { endpoint: String, source: String, body: String },
    Status { endpoint: String, metadata: ResponseMetadata, body: String, stderr: String },
    Timeout { endpoint: String },
    Cancelled { endpoint: String },
    NotFound { what: String },
}

pub enum GhErrorModel {
    Spawn { executable: Seq<char>, source: Seq<char> },
    Protocol(Seq<char>),
    Decode { endpoint: Seq<char>, source: Seq<char>, body: Seq<char> },
    Status {
        endpoint: Seq<char>,
        metadata: MetadataModel,
        body: Seq<char>,
        stderr: Seq<char>,
    },
    Timeout { endpoint: Seq<char> },
    Cancelled { endpoint: Seq<char> },
    NotFound { what: Seq<char> },
}

impl View for GhError {
    type V = GhErrorModel;

    open spec fn view(&self) -> GhErrorModel {
        match self {
            GhError::Spawn { executable, source } => GhErrorModel::Spawn {
                executable: executable@,
                source: source@,
            },
            GhError::Protocol(message) => GhErrorModel::Protocol(message@),
            GhError::Decode { endpoint, source, body } => GhErrorModel::Decode {
                endpoint: endpoint@,
                source: source@,
                body: body@,
            },
            GhError::Status { endpoint, metadata, body, stderr } => GhErrorModel::Status {
                endpoint: endpoint@,
                metadata: metadata@,
                body: body@,
                stderr: stderr@,
            },
            GhError::Timeout { endpoint } => GhErrorModel::Timeout { endpoint: endpoint@ },
            GhError::Cancelled { endpoint } => GhErrorModel::Cancelled { endpoint: endpoint@ },
            GhError::NotFound { what } => GhErrorModel::NotFound { what: what@ },
        }
    }
}

impl GhErrorModel {
    /// The repository or pull request does not exist, or the viewer may not see
    /// it.
    pub open spec fn not_found(self) -> bool {
        match self {
            GhErrorModel::NotFound { .. } => true,
            GhErrorModel::Status { metadata, .. } => metadata.status == 404,
            _ => false,
        }
    }

    /// GitHub answered with this status.
    pub open spec fn has_status(self, status: u16) -> bool {
        self.metadata() matches Some(metadata) && metadata.status == status
    }

    pub open spec fn metadata(self) -> Option<MetadataModel> {
        match self {
            GhErrorModel::Status { metadata, .. } => Some(metadata),
            _ => None,
        }
    }

    /// What the user reads.
    pub open spec fn text(self) -> Seq<char> {
        match self {
            GhErrorModel::Spawn { executable, source } => "could not run "@ + executable + ": "@
                + source,
            GhErrorModel::Protocol(message) => "invalid response from gh: "@ + message,
            GhErrorModel::Decode { endpoint, source, .. } =>
                "could not decode GitHub response from "@ + endpoint + ": "@ + source,
            GhErrorModel::Status { endpoint, metadata, stderr, .. } => {
                let head = "GitHub API request to "@ + endpoint + " returned HTTP "@ + decimal(
                    metadata.status as nat,
                );
                if trim(stderr).len() > 0 {
                    head + ": "@ + trim(stderr)
                } else {
                    head
                }
            },
            GhErrorModel::Timeout { endpoint } => "gh API request "@ + endpoint
                + " timed out after 45 seconds"@,
            GhErrorModel::Cancelled { endpoint } => "gh API request "@ + endpoint
                + " was cancelled"@,
            GhErrorModel::NotFound { what } => "GitHub could not find "@ + what,
        }
    }
}

impl GhError {
    /// What GitHub said about rate limits when it refused a request.
    pub fn metadata(&self) -> (r: Option<&ResponseMetadata>)
        ensures
            match r {
                Some(metadata) => self@.metadata() == Some(metadata@),
                None => self@.metadata() is None,
            },
    {
        match self {
            GhError::Status { metadata, .. } => Some(metadata),
            _ => None,
        }
    }

    pub fn has_status(&self, status: u16) -> (r: bool)
        ensures
            r == self@.has_status(status),
    {
        match self.metadata() {
            Some(metadata) => metadata.status == status,
            None => false,
        }
    }

    pub fn is_not_found(&self) -> (r: bool)
        ensures
            r == self@.not_found(),
    {
        match self {
            GhError::NotFound { .. } => true,
            GhError::Status { metadata, .. } => metadata.status == 404,
            _ => false,
        }
    }

    pub fn message(&self) -> (r: String)
        ensures
            r@ == self@.text(),
    {
        match self {
            GhError::Spawn { executable, source } => {
                let mut r = "could not run ".to_owned();
                r.append(executable.as_str());
                r.append(": ");
                r.append(source.as_str());
                r
            },
            GhError::Protocol(message) => {
                let mut r = "invalid response from gh: ".to_owned();
                r.append(message.as_str());
                r
            },
            GhError::Decode { endpoint, source, body: _ } => {
                let mut r = "could not decode GitHub response from ".to_owned();
                r.append(endpoint.as_str());
                r.append(": ");
                r.append(source.as_str());
                r
            },
            GhError::Status { endpoint, metadata, stderr, body: _ } => {
                let mut r = "GitHub API request to ".to_owned();
                r.append(endpoint.as_str());
                r.append(" returned HTTP ");
                r.append(u64_text(metadata.status as u64).as_str());
                let detail = str_trim(stderr.as_str());
                if detail.as_str().unicode_len() > 0 {
                    r.append(": ");
                    r.append(detail.as_str());
                }
                r
            },
            GhError::Timeout { endpoint } => {
                let mut r = "gh API request ".to_owned();
                r.append(endpoint.as_str());
                r.append(" timed out after 45 seconds");
                r
            },
            GhError::Cancelled { endpoint } => {
                let mut r = "gh API request ".to_owned();
                r.append(endpoint.as_str());
                r.append(" was cancelled");
                r
            },
            GhError::NotFound { what } => {
                let mut r = "GitHub could not find ".to_owned();
                r.append(what.as_str());
                r
            },
        }
    }

    /// The models of a result with a GitHub error.
    pub open spec fn result_model<T: View>(r: Result<T, GhError>) -> Result<T::V, GhErrorModel> {
        match r {
            Ok(value) => Ok(value@),
            Err(error) => Err(error@),
        }
    }
}

/// An error of `gh` itself, with a message of two parts.
pub(crate) fn protocol_error(start: &str, rest: &str) -> (r: GhError)
    ensures
        r@ == GhErrorModel::Protocol(start@ + rest@),
{
    let mut message = start.to_owned();
    message.append(rest);
    GhError::Protocol(message)
}

// ---------------------------------------------------------------------------
// Names and URLs
// ---------------------------------------------------------------------------

/// A name of two parts, neither of them empty.
pub open spec fn valid_full_name(full_name: Seq<char>) -> bool {
    let parts = split(full_name, '/');
    parts.len() == 2 && parts[0].len() > 0 && parts[1].len() > 0
}

pub fn validate_full_name(full_name: &str) -> (r: Result<(), GhError>)
    ensures
        r is Ok <==> valid_full_name(full_name@),
        r matches Err(error) ==> error@ == GhErrorModel::Protocol(
            "invalid GitHub repository name: "@ + full_name@,
        ),
{
    let parts = str_split(full_name, '/');
    assert(texts(parts@).len() == parts@.len());
    if parts.len() == 2 {
        assert(texts(parts@)[0] == parts@[0]@);
        assert(texts(parts@)[1] == parts@[1]@);
        if parts[0].as_str().unicode_len() > 0 && parts[1].as_str().unicode_len() > 0 {
            return Ok(());
        }
    }
    Err(protocol_error("invalid GitHub repository name: ", full_name))
}

/// The path of an API URL, without host and query.
pub open spec fn api_path(url: Seq<char>) -> Seq<char> {
    let path = match strip_prefix(url, "https://api.github.com"@) {
        Some(rest) => rest,
        None => url,
    };
    match split_once(path, '?') {
        Some((before, _)) => before,
        None => path,
    }
}

/// The repository and the number in the API URL of a pull request.
pub open spec fn pull_request_of(url: Seq<char>) -> Result<(Seq<char>, nat), GhErrorModel> {
    let parts = split(trim_matches(api_path(url), '/'), '/');
    if parts.len() == 5 && parts[0] == "repos"@ && parts[3] == "pulls"@ {
        match read_unsigned(parts[4], u64::MAX as nat) {
            Ok(number) => Ok((parts[1] + "/"@ + parts[2], number)),
            Err(_) => Err(
                GhErrorModel::Protocol("invalid pull request number in URL: "@ + url),
            ),
        }
    } else {
        Err(GhErrorModel::Protocol("not a GitHub pull request API URL: "@ + url))
    }
}

/// Reads the repository and the number from the API URL of a pull request.
pub fn parse_pull_request_api_url(url: &str) -> (r: Result<(String, u64), GhError>)
    ensures
        match r {
            Ok((full_name, number)) => pull_request_of(url@) == Ok::<
                (Seq<char>, nat),
                GhErrorModel,
            >((full_name@, number as nat)),
            Err(error) => pull_request_of(url@) == Err::<(Seq<char>, nat), GhErrorModel>(error@),
        },
{
    let path = match str_strip_prefix(url, API_URL_PREFIX) {
        Some(rest) => rest,
        None => url.to_owned(),
    };
    let path = match str_split_once(path.as_str(), '?') {
        Some((before, _)) => before,
        None => path,
    };
    let bare = str_trim_matches(path.as_str(), '/');
    let parts = str_split(bare.as_str(), '/');
    assert(texts(parts@).len() == parts@.len());
    if parts.len() == 5 {
        assert(texts(parts@)[0] == parts@[0]@);
        assert(texts(parts@)[1] == parts@[1]@);
        assert(texts(parts@)[2] == parts@[2]@);
        assert(texts(parts@)[3] == parts@[3]@);
        assert(texts(parts@)[4] == parts@[4]@);
        if str_eq(parts[0].as_str(), "repos") && str_eq(parts[3].as_str(), "pulls") {
            return match parse_u64(parts[4].as_str()) {
                Ok(number) => {
                    let mut full_name = parts[1].clone();
                    full_name.append("/");
                    full_name.append(parts[2].as_str());
                    Ok((full_name, number))
                },
                Err(_) => Err(protocol_error("invalid pull request number in URL: ", url)),
            };
        }
    }
    Err(protocol_error("not a GitHub pull request API URL: ", url))
}

/// Reads the number from the API URL of a pull request.
pub fn parse_pull_request_number(url: &str) -> (r: Result<u64, GhError>)
    ensures
        match r {
            Ok(number) => pull_request_of(url@) matches Ok((_, n)) && n == number,
            Err(error) => pull_request_of(url@) == Err::<(Seq<char>, nat), GhErrorModel>(error@),
        },
{
    match parse_pull_request_api_url(url) {
        Ok((_, number)) => Ok(number),
        Err(error) => Err(error),
    }
}

/// The endpoint that a link to another page names. Only pages of the API are
/// followed.
pub open spec fn endpoint_of(link: Seq<char>) -> Result<Seq<char>, GhErrorModel> {
    match strip_prefix(link, "https://api.github.com"@) {
        Some(endpoint) => if starts_with(endpoint, "/"@) {
            Ok(endpoint)
        } else {
            Err(
                GhErrorModel::Protocol(
                    "refusing pagination URL outside api.github.com: "@ + link,
                ),
            )
        },
        None => if starts_with(link, "/"@) {
            Ok(link)
        } else {
            Err(
                GhErrorModel::Protocol(
                    "refusing pagination URL outside api.github.com: "@ + link,
                ),
            )
        },
    }
}

pub fn endpoint_from_link(link: &str) -> (r: Result<String, GhError>)
    ensures
        GhError::result_model(r) == endpoint_of(link@),
{
    if let Some(endpoint) = str_strip_prefix(link, API_URL_PREFIX) {
        if str_starts_with(endpoint.as_str(), "/") {
            return Ok(endpoint);
        }
        assert(!starts_with(link@, "/"@)) by {
            reveal_strlit("https://api.github.com");
            reveal_strlit("/");
            assert(link@.take(22)[0] == link@[0]);
            if starts_with(link@, "/"@) {
                assert(link@.take(1)[0] == link@[0]);
                assert("/"@[0] == '/');
            }
        }
    }
    if str_starts_with(link, "/") {
        return Ok(link.to_owned());
    }
    Err(protocol_error("refusing pagination URL outside api.github.com: ", link))
}

/// An endpoint that is followed is a path on the API's own host.
pub proof fn followed_endpoint_is_a_path(link: Seq<char>)
    ensures
        endpoint_of(link) matches Ok(endpoint) ==> starts_with(endpoint, "/"@) && (link == endpoint
            || link == "https://api.github.com"@ + endpoint),
{
    if let Some(rest) = strip_prefix(link, "https://api.github.com"@) {
        assert(link =~= "https://api.github.com"@ + rest);
    }
}

// ---------------------------------------------------------------------------
// Overlap
// ---------------------------------------------------------------------------

/// Some notification of the page is as old as the overlap before the high-water
/// mark.
pub open spec fn crosses_overlap(
    page: Seq<NotificationModel>,
    high_water: Option<Timestamp>,
) -> bool {
    match high_water {
        None => false,
        Some(mark) => exists|i: int|
            0 <= i < page.len() && (#[trigger] page[i]).updated_at.no_later_than(
                mark.back(OVERLAP_SECONDS as int),
            ),
    }
}

/// Pages come newest first. One minute before the high-water mark is read
/// again, so that equal times and close races are seen; then paging stops.
pub fn page_crosses_overlap(page: &Vec<Notification>, high_water: Option<Timestamp>) -> (r: bool)
    requires
        high_water matches Some(mark) ==> mark.wf(),
    ensures
        r == crosses_overlap(crate::order::models(page@), high_water),
{
    let mark = match high_water {
        Some(mark) => mark,
        None => {
            return false;
        },
    };
    let boundary = mark.minus_seconds(OVERLAP_SECONDS);
    let ghost all = crate::order::models(page@);
    let mut i: usize = 0;
    while i < page.len()
        invariant
            i <= page@.len(),
            all == crate::order::models(page@),
            high_water == Some(mark),
            boundary == mark.back(OVERLAP_SECONDS as int),
            forall|j: int| 0 <= j < i ==> !(#[trigger] all[j]).updated_at.no_later_than(boundary),
        decreases page@.len() - i,
    {
        assert(all[i as int].updated_at == page@[i as int].updated_at);
        if page[i].updated_at.at_most(&boundary) {
            return true;
        }
        i += 1;
    }
    false
}

} // verus!
