//! The requests of a client, and the pages that answer them.

use vstd::prelude::*;
use crate::github::http::{
    ensure_success, refused, succeeded, ApiModel, ApiResponse,
};
use crate::github::{
    crosses_overlap, endpoint_from_link, endpoint_of, followed_endpoint_is_a_path,
    merge_rate_metadata, page_crosses_overlap, protocol_error, valid_full_name,
    validate_full_name, GhError, GhErrorModel, MetadataModel, ResponseMetadata, ACCEPT_HEADER,
    API_HOST, API_VERSION_HEADER,
};
use crate::model::{Notification, NotificationModel};
use crate::number::{decimal, u64_text};
use crate::order::models;
use crate::process::{next_wait, wait, Wait};
use crate::text::{list_contains, opt_text, push_text, starts_with, texts};
use crate::time::{Duration, Timestamp};

verus! {

// ---------------------------------------------------------------------------
// Requests
// ---------------------------------------------------------------------------

/// A client that asks GitHub through a program, `gh` by default.
#[derive(Debug, PartialEq, Eq)]
pub struct GhClient {
    pub executable: String,
}

impl Default for GhClient {
    fn default() -> (r: Self)
        ensures
            r.executable@ == "gh"@,
    {
        GhClient::new()
    }
}

/// The extra headers as arguments.
pub open spec fn header_args(headers: Seq<Seq<char>>) -> Seq<Seq<char>>
    decreases headers.len(),
{
    if headers.len() == 0 {
        seq![]
    } else {
        header_args(headers.drop_last()).push("-H"@).push(headers.last())
    }
}

/// The arguments of `gh` for a request to read `endpoint`.
pub open spec fn request_args(endpoint: Seq<char>, headers: Seq<Seq<char>>) -> Seq<Seq<char>> {
    (seq![
        "api"@,
        "--hostname"@,
        "github.com"@,
        "--include"@,
        "--method"@,
        "GET"@,
        "-H"@,
        "Accept: application/vnd.github+json"@,
        "-H"@,
        "X-GitHub-Api-Version: 2022-11-28"@,
    ] + header_args(headers)).push(endpoint)
}

/// The arguments of `gh` for a request to read `endpoint`, with extra headers.
pub fn get_request(endpoint: &str, headers: &Vec<String>) -> (r: Vec<String>)
    ensures
        texts(r@) == request_args(endpoint@, texts(headers@)),
{
    let ghost fixed = seq![
        "api"@,
        "--hostname"@,
        "github.com"@,
        "--include"@,
        "--method"@,
        "GET"@,
        "-H"@,
        "Accept: application/vnd.github+json"@,
        "-H"@,
        "X-GitHub-Api-Version: 2022-11-28"@,
    ];
    let ghost extra = texts(headers@);
    let mut args: Vec<String> = Vec::new();
    assert(texts(args@) =~= seq![]);
    push_text(&mut args, "api");
    push_text(&mut args, "--hostname");
    push_text(&mut args, API_HOST);
    push_text(&mut args, "--include");
    push_text(&mut args, "--method");
    push_text(&mut args, "GET");
    push_text(&mut args, "-H");
    push_text(&mut args, ACCEPT_HEADER);
    push_text(&mut args, "-H");
    push_text(&mut args, API_VERSION_HEADER);
    assert(texts(args@) =~= fixed + header_args(extra.take(0)));
    let mut i: usize = 0;
    while i < headers.len()
        invariant
            i <= headers@.len(),
            extra == texts(headers@),
            texts(args@) == fixed + header_args(extra.take(i as int)),
        decreases headers@.len() - i,
    {
        assert(extra.len() == headers@.len());
        assert(extra[i as int] == headers@[i as int]@);
        assert(extra.take(i as int + 1).drop_last() =~= extra.take(i as int));
        push_text(&mut args, "-H");
        push_text(&mut args, headers[i].as_str());
        assert(texts(args@) =~= fixed + header_args(extra.take(i as int + 1)));
        i += 1;
    }
    assert(extra.take(i as int) =~= extra);
    push_text(&mut args, endpoint);
    args
}

/// What to do about a request that `gh` has not answered, with `left` until its
/// time is up: wait so long, or give up.
pub fn request_wait(endpoint: &str, cancelled: bool, left: Duration) -> (r: Result<
    Duration,
    GhError,
>)
    ensures
        match wait(cancelled, left) {
            Wait::Poll(span) => r == Ok::<Duration, GhError>(span),
            Wait::Cancelled => r matches Err(error) && error@ == (GhErrorModel::Cancelled {
                endpoint: endpoint@,
            }),
            Wait::TimedOut => r matches Err(error) && error@ == (GhErrorModel::Timeout {
                endpoint: endpoint@,
            }),
        },
{
    match next_wait(cancelled, left) {
        Wait::Poll(span) => Ok(span),
        Wait::Cancelled => Err(GhError::Cancelled { endpoint: endpoint.to_owned() }),
        Wait::TimedOut => Err(GhError::Timeout { endpoint: endpoint.to_owned() }),
    }
}

// ---------------------------------------------------------------------------
// Links to further pages
// ---------------------------------------------------------------------------

/// The endpoint that a link leads to, where it is not one of `visited`.
pub open spec fn followed(link: Seq<char>, visited: Seq<Seq<char>>) -> Result<
    Seq<char>,
    GhErrorModel,
> {
    match endpoint_of(link) {
        Ok(endpoint) => if visited.contains(endpoint) {
            Err(GhErrorModel::Protocol("pagination loop at "@ + endpoint))
        } else {
            Ok(endpoint)
        },
        Err(error) => Err(error),
    }
}

fn follow(link: &str, visited: &mut Vec<String>) -> (r: Result<String, GhError>)
    ensures
        GhError::result_model(r) == followed(link@, texts(old(visited)@)),
        match r {
            Ok(endpoint) => texts(final(visited)@) == texts(old(visited)@).push(endpoint@),
            Err(_) => *final(visited) == *old(visited),
        },
{
    let endpoint = match endpoint_from_link(link) {
        Ok(endpoint) => endpoint,
        Err(error) => {
            return Err(error);
        },
    };
    if list_contains(visited, endpoint.as_str()) {
        return Err(protocol_error("pagination loop at ", endpoint.as_str()));
    }
    push_text(visited, endpoint.as_str());
    Ok(endpoint)
}

// ---------------------------------------------------------------------------
// Lists of identifiers
// ---------------------------------------------------------------------------

/// A list that is read page by page.
pub struct PageWalk {
    pub endpoint: String,
    pub visited: Vec<String>,
    pub ids: Vec<i64>,
}

#[verifier::ext_equal]
pub struct WalkModel {
    pub endpoint: Seq<char>,
    pub visited: Seq<Seq<char>>,
    pub ids: Seq<i64>,
}

impl View for PageWalk {
    type V = WalkModel;

    open spec fn view(&self) -> WalkModel {
        WalkModel { endpoint: self.endpoint@, visited: texts(self.visited@), ids: self.ids@ }
    }
}

/// What follows a page of a list.
pub enum WalkStep {
    /// The next page is to be read.
    Request(PageWalk),
    /// The list is complete.
    Done(Vec<i64>),
}

pub enum WalkStepModel {
    Request(WalkModel),
    Done(Seq<i64>),
}

impl View for WalkStep {
    type V = WalkStepModel;

    open spec fn view(&self) -> WalkStepModel {
        match self {
            WalkStep::Request(walk) => WalkStepModel::Request(walk@),
            WalkStep::Done(ids) => WalkStepModel::Done(ids@),
        }
    }
}

impl WalkModel {
    /// With one more page, whose response links to `next`.
    pub open spec fn advanced(self, page: Seq<i64>, next: Option<Seq<char>>) -> Result<
        WalkStepModel,
        GhErrorModel,
    > {
        match next {
            None => Ok(WalkStepModel::Done(self.ids + page)),
            Some(link) => match followed(link, self.visited) {
                Ok(endpoint) => Ok(
                    WalkStepModel::Request(
                        WalkModel {
                            endpoint,
                            visited: self.visited.push(endpoint),
                            ids: self.ids + page,
                        },
                    ),
                ),
                Err(error) => Err(error),
            },
        }
    }
}

impl PageWalk {
    /// A walk that starts at an endpoint.
    pub fn new(endpoint: &str) -> (r: Self)
        ensures
            r@ == (WalkModel { endpoint: endpoint@, visited: seq![endpoint@], ids: seq![] }),
    {
        let mut visited: Vec<String> = Vec::new();
        assert(texts(visited@) =~= seq![]);
        push_text(&mut visited, endpoint);
        assert(texts(visited@) =~= seq![endpoint@]);
        let ids: Vec<i64> = Vec::new();
        assert(ids@ =~= seq![]);
        PageWalk { endpoint: endpoint.to_owned(), visited, ids }
    }

    /// The arguments of `gh` for the page to read.
    pub fn request(&self) -> (r: Vec<String>)
        ensures
            texts(r@) == request_args(self@.endpoint, seq![]),
    {
        let none: Vec<String> = Vec::new();
        assert(texts(none@) =~= Seq::<Seq<char>>::empty());
        get_request(self.endpoint.as_str(), &none)
    }

    /// Takes in a page, whose response links to `next`.
    pub fn advance(self, page: Vec<i64>, next: Option<String>) -> (r: Result<WalkStep, GhError>)
        ensures
            GhError::result_model(r) == self@.advanced(page@, opt_text(next)),
    {
        let mut ids = self.ids;
        let mut page = page;
        ids.append(&mut page);
        match next {
            None => Ok(WalkStep::Done(ids)),
            Some(link) => {
                let mut visited = self.visited;
                match follow(link.as_str(), &mut visited) {
                    Ok(endpoint) => Ok(WalkStep::Request(PageWalk { endpoint, visited, ids })),
                    Err(error) => Err(error),
                }
            },
        }
    }
}

// ---------------------------------------------------------------------------
// Notifications
// ---------------------------------------------------------------------------

/// The outcome of a poll for notifications.
#[derive(Debug, PartialEq, Eq)]
pub struct NotificationPoll {
    pub not_modified: bool,
    pub notifications: Vec<Notification>,
    pub metadata: ResponseMetadata,
}

#[verifier::ext_equal]
pub struct PollModel {
    pub not_modified: bool,
    pub notifications: Seq<NotificationModel>,
    pub metadata: MetadataModel,
}

impl View for NotificationPoll {
    type V = PollModel;

    open spec fn view(&self) -> PollModel {
        PollModel {
            not_modified: self.not_modified,
            notifications: models(self.notifications@),
            metadata: self.metadata@,
        }
    }
}

/// A poll that is under way. `found` holds what the pages read so far gave.
pub struct NotificationPolling {
    pub endpoint: String,
    pub headers: Vec<String>,
    pub allow_not_modified: bool,
    pub high_water: Option<Timestamp>,
    pub visited: Vec<String>,
    pub found: Option<NotificationPoll>,
}

#[verifier::ext_equal]
pub struct PollingModel {
    pub endpoint: Seq<char>,
    pub headers: Seq<Seq<char>>,
    pub allow_not_modified: bool,
    pub high_water: Option<Timestamp>,
    pub visited: Seq<Seq<char>>,
    pub found: Option<PollModel>,
}

impl View for NotificationPolling {
    type V = PollingModel;

    open spec fn view(&self) -> PollingModel {
        PollingModel {
            endpoint: self.endpoint@,
            headers: texts(self.headers@),
            allow_not_modified: self.allow_not_modified,
            high_water: self.high_water,
            visited: texts(self.visited@),
            found: crate::model::opt_model(self.found),
        }
    }
}

/// What a response to a poll is.
pub enum Received {
    /// Nothing has changed: the poll is over.
    NotModified(NotificationPoll),
    /// The body holds a page of notifications.
    Page,
}

pub enum ReceivedModel {
    NotModified(PollModel),
    Page,
}

impl View for Received {
    type V = ReceivedModel;

    open spec fn view(&self) -> ReceivedModel {
        match self {
            Received::NotModified(poll) => ReceivedModel::NotModified(poll@),
            Received::Page => ReceivedModel::Page,
        }
    }
}

/// What follows a page of notifications.
pub enum PollStep {
    /// The next page is to be read.
    Request(NotificationPolling),
    /// The poll is over.
    Done(NotificationPoll),
}

pub enum PollStepModel {
    Request(PollingModel),
    Done(PollModel),
}

impl View for PollStep {
    type V = PollStepModel;

    open spec fn view(&self) -> PollStepModel {
        match self {
            PollStep::Request(polling) => PollStepModel::Request(polling@),
            PollStep::Done(poll) => PollStepModel::Done(poll@),
        }
    }
}

impl PollingModel {
    /// A poll that starts at an endpoint.
    pub open spec fn start(
        endpoint: Seq<char>,
        headers: Seq<Seq<char>>,
        allow_not_modified: bool,
        high_water: Option<Timestamp>,
    ) -> PollingModel {
        PollingModel {
            endpoint,
            headers,
            allow_not_modified,
            high_water,
            visited: seq![endpoint],
            found: None,
        }
    }

    /// The arguments of `gh` for the page to read. Conditional headers belong
    /// to the first page only.
    pub open spec fn request(self) -> Seq<Seq<char>> {
        request_args(
            self.endpoint,
            if self.found is None {
                self.headers
            } else {
                seq![]
            },
        )
    }

    /// What a response is.
    pub open spec fn received(self, response: ApiModel) -> Result<ReceivedModel, GhErrorModel> {
        if self.found is None && response.metadata.status == 304 && self.allow_not_modified {
            Ok(
                ReceivedModel::NotModified(
                    PollModel {
                        not_modified: true,
                        notifications: seq![],
                        metadata: response.metadata,
                    },
                ),
            )
        } else if succeeded(response) {
            Ok(ReceivedModel::Page)
        } else {
            Err(refused(self.endpoint, response))
        }
    }

    /// What was found, with a further page.
    pub open spec fn with_page(
        self,
        page: Seq<NotificationModel>,
        metadata: MetadataModel,
    ) -> PollModel {
        match self.found {
            None => PollModel { not_modified: false, notifications: page, metadata },
            Some(found) => PollModel {
                not_modified: found.not_modified,
                notifications: found.notifications + page,
                metadata: found.metadata.merged(metadata),
            },
        }
    }

    /// With one more page. Paging ends at the last page, and at one that reaches
    /// back over the overlap.
    pub open spec fn advanced(
        self,
        page: Seq<NotificationModel>,
        metadata: MetadataModel,
    ) -> Result<PollStepModel, GhErrorModel> {
        let found = self.with_page(page, metadata);
        if crosses_overlap(page, self.high_water) || metadata.next is None {
            Ok(PollStepModel::Done(found))
        } else {
            match followed(metadata.next->0, self.visited) {
                Ok(endpoint) => Ok(
                    PollStepModel::Request(
                        PollingModel {
                            endpoint,
                            visited: self.visited.push(endpoint),
                            found: Some(found),
                            ..self
                        },
                    ),
                ),
                Err(error) => Err(error),
            }
        }
    }
}

impl NotificationPolling {
    pub open spec fn wf(self) -> bool {
        self.high_water matches Some(mark) ==> mark.wf()
    }

    fn start(
        endpoint: String,
        headers: Vec<String>,
        allow_not_modified: bool,
        high_water: Option<Timestamp>,
    ) -> (r: Self)
        ensures
            r@ == PollingModel::start(endpoint@, texts(headers@), allow_not_modified, high_water),
    {
        let mut visited: Vec<String> = Vec::new();
        assert(texts(visited@) =~= seq![]);
        push_text(&mut visited, endpoint.as_str());
        assert(texts(visited@) =~= seq![endpoint@]);
        NotificationPolling {
            endpoint,
            headers,
            allow_not_modified,
            high_water,
            visited,
            found: None,
        }
    }

    /// The arguments of `gh` for the page to read.
    pub fn request(&self) -> (r: Vec<String>)
        ensures
            texts(r@) == self@.request(),
    {
        if self.found.is_none() {
            return get_request(self.endpoint.as_str(), &self.headers);
        }
        let none: Vec<String> = Vec::new();
        assert(texts(none@) =~= Seq::<Seq<char>>::empty());
        get_request(self.endpoint.as_str(), &none)
    }

    /// Decides what a response is.
    pub fn receive(&self, response: &ApiResponse) -> (r: Result<Received, GhError>)
        ensures
            GhError::result_model(r) == self@.received(response@),
    {
        if self.found.is_none() && response.metadata.status == 304 && self.allow_not_modified {
            let notifications: Vec<Notification> = Vec::new();
            assert(models(notifications@) =~= Seq::<NotificationModel>::empty());
            return Ok(
                Received::NotModified(
                    NotificationPoll {
                        not_modified: true,
                        notifications,
                        metadata: response.metadata.clone(),
                    },
                ),
            );
        }
        match ensure_success(self.endpoint.as_str(), response) {
            Ok(_) => Ok(Received::Page),
            Err(error) => Err(error),
        }
    }

    /// Takes in a page.
    pub fn advance(self, page: Vec<Notification>, metadata: ResponseMetadata) -> (r: Result<
        PollStep,
        GhError,
    >)
        requires
            self.wf(),
        ensures
            GhError::result_model(r) == self@.advanced(models(page@), metadata@),
            r matches Ok(PollStep::Request(next)) ==> next.wf(),
    {
        let ghost before = self@;
        let ghost page_models = models(page@);
        let crossed = page_crosses_overlap(&page, self.high_water);
        let next = crate::text::opt_clone(&metadata.next);
        let found = match self.found {
            None => NotificationPoll { not_modified: false, notifications: page, metadata },
            Some(so_far) => {
                let ghost earlier = so_far.notifications@;
                let ghost added = page@;
                let mut page = page;
                let mut notifications = so_far.notifications;
                notifications.append(&mut page);
                assert(models(notifications@) =~= models(earlier) + models(added));
                let mut merged = so_far.metadata;
                merge_rate_metadata(&mut merged, &metadata);
                NotificationPoll {
                    not_modified: so_far.not_modified,
                    notifications,
                    metadata: merged,
                }
            },
        };
        assert(found@ == before.with_page(page_models, metadata@));
        if crossed {
            return Ok(PollStep::Done(found));
        }
        match next {
            None => Ok(PollStep::Done(found)),
            Some(link) => {
                let mut visited = self.visited;
                match follow(link.as_str(), &mut visited) {
                    Ok(endpoint) => Ok(
                        PollStep::Request(
                            NotificationPolling {
                                endpoint,
                                headers: self.headers,
                                allow_not_modified: self.allow_not_modified,
                                high_water: self.high_water,
                                visited,
                                found: Some(found),
                            },
                        ),
                    ),
                    Err(error) => Err(error),
                }
            },
        }
    }
}

// ---------------------------------------------------------------------------
// Client
// ---------------------------------------------------------------------------

/// The endpoint of a repository.
pub open spec fn repository_endpoint(full_name: Seq<char>) -> Seq<char> {
    "/repos/"@ + full_name
}

/// The endpoint of the notifications of a repository.
pub open spec fn bootstrap_endpoint(full_name: Seq<char>) -> Seq<char> {
    "/repos/"@ + full_name + "/notifications?all=true&per_page=100"@
}

/// The poll of the notifications of all repositories.
pub open spec fn global_poll(
    last_modified: Option<Seq<char>>,
    high_water: Option<Timestamp>,
) -> PollingModel {
    PollingModel::start(
        "/notifications?all=true&per_page=50"@,
        match last_modified {
            Some(value) => seq!["If-Modified-Since: "@ + value],
            None => seq![],
        },
        true,
        high_water,
    )
}

/// The poll of the notifications of a repository that was registered.
pub open spec fn bootstrap_poll(full_name: Seq<char>) -> PollingModel {
    PollingModel::start(bootstrap_endpoint(full_name), seq![], false, None)
}

impl GhClient {
    pub fn new() -> (r: Self)
        ensures
            r.executable@ == "gh"@,
    {
        GhClient::with_executable("gh".to_owned())
    }

    pub fn with_executable(executable: String) -> (r: Self)
        ensures
            r.executable == executable,
    {
        GhClient { executable }
    }

    /// The endpoint that names the authenticated user.
    pub fn viewer(&self) -> (r: String)
        ensures
            r@ == "/user"@,
    {
        "/user".to_owned()
    }

    /// A walk over the teams that the authenticated user can see.
    pub fn viewer_team_ids(&self) -> (r: PageWalk)
        ensures
            r@ == (WalkModel {
                endpoint: "/user/teams?per_page=100"@,
                visited: seq!["/user/teams?per_page=100"@],
                ids: seq![],
            }),
    {
        PageWalk::new("/user/teams?per_page=100")
    }

    /// The endpoint that identifies a repository.
    pub fn resolve_repository(&self, full_name: &str) -> (r: Result<String, GhError>)
        ensures
            r is Ok <==> valid_full_name(full_name@),
            r matches Ok(endpoint) ==> endpoint@ == repository_endpoint(full_name@),
            r matches Err(error) ==> error@ == GhErrorModel::Protocol(
                "invalid GitHub repository name: "@ + full_name@,
            ),
    {
        match validate_full_name(full_name) {
            Err(error) => Err(error),
            Ok(_) => {
                let mut endpoint = "/repos/".to_owned();
                endpoint.append(full_name);
                Ok(endpoint)
            },
        }
    }

    /// The endpoint with the core of a pull request, without its reviews and
    /// requests.
    pub fn refresh_pull_request_core(&self, full_name: &str, number: u64) -> (r: Result<
        String,
        GhError,
    >)
        ensures
            r is Ok <==> valid_full_name(full_name@),
            r matches Ok(endpoint) ==> endpoint@ == repository_endpoint(full_name@) + "/pulls/"@
                + decimal(number as nat),
            r matches Err(error) ==> error@ == GhErrorModel::Protocol(
                "invalid GitHub repository name: "@ + full_name@,
            ),
    {
        match self.resolve_repository(full_name) {
            Err(error) => Err(error),
            Ok(start) => {
                let mut endpoint = start;
                endpoint.append("/pulls/");
                endpoint.append(u64_text(number).as_str());
                Ok(endpoint)
            },
        }
    }

    /// A poll of the notifications of all repositories. `last_modified` is sent
    /// as GitHub gave it with the preceding complete poll.
    pub fn poll_global_notifications(
        &self,
        last_modified: Option<&str>,
        high_water: Option<Timestamp>,
    ) -> (r: NotificationPolling)
        ensures
            r@ == global_poll(
                match last_modified {
                    Some(value) => Some(value@),
                    None => None,
                },
                high_water,
            ),
            r@ == PollingModel::start(
                "/notifications?all=true&per_page=50"@,
                match last_modified {
                    Some(value) => seq!["If-Modified-Since: "@ + value@],
                    None => seq![],
                },
                true,
                high_water,
            ),
    {
        let mut headers: Vec<String> = Vec::new();
        assert(texts(headers@) =~= Seq::<Seq<char>>::empty());
        if let Some(value) = last_modified {
            let mut header = "If-Modified-Since: ".to_owned();
            header.append(value);
            push_text(&mut headers, header.as_str());
            assert(texts(headers@) =~= seq!["If-Modified-Since: "@ + value@]);
        }
        NotificationPolling::start(
            "/notifications?all=true&per_page=50".to_owned(),
            headers,
            true,
            high_water,
        )
    }

    /// The one poll of the notifications of a repository that was registered.
    pub fn bootstrap_notifications(&self, full_name: &str) -> (r: Result<
        NotificationPolling,
        GhError,
    >)
        ensures
            r is Ok <==> valid_full_name(full_name@),
            r matches Ok(polling) ==> polling@ == bootstrap_poll(full_name@),
            r matches Ok(polling) ==> polling.wf() && polling@ == PollingModel::start(
                bootstrap_endpoint(full_name@),
                seq![],
                false,
                None,
            ),
            r matches Err(error) ==> error@ == GhErrorModel::Protocol(
                "invalid GitHub repository name: "@ + full_name@,
            ),
    {
        match validate_full_name(full_name) {
            Err(error) => Err(error),
            Ok(_) => {
                let mut endpoint = "/repos/".to_owned();
                endpoint.append(full_name);
                endpoint.append("/notifications?all=true&per_page=100");
                let headers: Vec<String> = Vec::new();
                assert(texts(headers@) =~= Seq::<Seq<char>>::empty());
                Ok(NotificationPolling::start(endpoint, headers, false, None))
            },
        }
    }
}

// ---------------------------------------------------------------------------
// Laws
// ---------------------------------------------------------------------------

/// A page that is asked for was not asked for before in the poll, lies on
/// GitHub, and is asked for without conditional headers.
pub proof fn further_pages_are_new(
    polling: PollingModel,
    page: Seq<NotificationModel>,
    metadata: MetadataModel,
)
    ensures
        polling.advanced(page, metadata) matches Ok(PollStepModel::Request(next)) ==> {
            &&& !polling.visited.contains(next.endpoint)
            &&& next.visited == polling.visited.push(next.endpoint)
            &&& starts_with(next.endpoint, "/"@)
            &&& next.request() == request_args(next.endpoint, seq![])
        },
{
    if metadata.next is Some {
        followed_endpoint_is_a_path(metadata.next->0);
    }
}

/// The same of a list.
pub proof fn further_list_pages_are_new(walk: WalkModel, page: Seq<i64>, next: Option<Seq<char>>)
    ensures
        walk.advanced(page, next) matches Ok(WalkStepModel::Request(n)) ==> {
            &&& !walk.visited.contains(n.endpoint)
            &&& n.visited == walk.visited.push(n.endpoint)
            &&& starts_with(n.endpoint, "/"@)
        },
{
    if next is Some {
        followed_endpoint_is_a_path(next->0);
    }
}

/// A poll without a high-water mark reads every page, and one that is not
/// conditional takes no answer that nothing has changed.
pub proof fn bootstrap_reads_every_page(
    polling: PollingModel,
    page: Seq<NotificationModel>,
    metadata: MetadataModel,
    response: ApiModel,
)
    requires
        polling.high_water is None,
        !polling.allow_not_modified,
    ensures
        polling.advanced(page, metadata) matches Ok(PollStepModel::Done(_)) ==> metadata.next
            is None,
        polling.received(response) matches Ok(received) ==> received is Page,
{
}

/// The validator belongs to the address of the first page: further pages are
/// asked for without it, and only the first can be answered with no change.
pub proof fn validator_is_for_the_first_page(
    polling: PollingModel,
    page: Seq<NotificationModel>,
    metadata: MetadataModel,
    response: ApiModel,
)
    ensures
        polling.advanced(page, metadata) matches Ok(PollStepModel::Request(next)) ==> {
            &&& next.request() == request_args(next.endpoint, seq![])
            &&& next.received(response) matches Ok(received) ==> received is Page
        },
{
}

} // verus!
