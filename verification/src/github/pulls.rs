//! Pull requests as GraphQL reports them, and the state that follows.

pub mod laws;

use std::collections::HashSet;
use vstd::prelude::*;
use crate::github::{GhError, GhErrorModel};
use crate::model::{
    contains_id, opt_model, OpinionatedReview, PullModel, PullRequestState, RequestModel,
    ReviewModel, ReviewRequestEvent, ReviewRequestKind, ReviewState, Viewer, ViewerModel,
};
use crate::number::{i64_text, int_text};
use crate::order::models;
use crate::text::{
    opt_clone, opt_text, str_eq, str_le, text_le, text_le_total, text_le_transitive,
};
use crate::time::Timestamp;

verus! {

broadcast use vstd::std_specs::hash::group_hash_axioms;

/// REST shows the author of a deleted account as this user; GraphQL shows no
/// author.
pub const GHOST_USER_ID: i64 = 10137;

/// The results of `f` that are there, in order.
pub open spec fn filter_map<A, B>(s: Seq<A>, f: spec_fn(A) -> Option<B>) -> Seq<B>
    decreases s.len(),
{
    if s.len() == 0 {
        seq![]
    } else {
        let front = filter_map(s.drop_last(), f);
        match f(s.last()) {
            Some(b) => front.push(b),
            None => front,
        }
    }
}

proof fn filter_map_next<A, B>(s: Seq<A>, f: spec_fn(A) -> Option<B>, i: int)
    requires
        0 <= i < s.len(),
    ensures
        filter_map(s.take(i + 1), f) == match f(s[i]) {
            Some(b) => filter_map(s.take(i), f).push(b),
            None => filter_map(s.take(i), f),
        },
{
    assert(s.take(i + 1).drop_last() =~= s.take(i));
    assert(s.take(i + 1).last() == s[i]);
}

// ---------------------------------------------------------------------------
// GraphQL
// ---------------------------------------------------------------------------

/// Where a page of a connection ends.
#[derive(Debug, PartialEq, Eq)]
pub struct PageInfo {
    pub has_next_page: bool,
    pub end_cursor: Option<String>,
}

/// The nodes of a connection that were read so far.
#[derive(Debug, PartialEq, Eq)]
pub struct Connection<T> {
    pub page_info: PageInfo,
    pub nodes: Vec<Option<T>>,
}

pub struct EndModel {
    pub has_next_page: bool,
    pub end_cursor: Option<Seq<char>>,
}

impl View for PageInfo {
    type V = EndModel;

    open spec fn view(&self) -> EndModel {
        EndModel { has_next_page: self.has_next_page, end_cursor: opt_text(self.end_cursor) }
    }
}

pub struct ConnectionModel<T> {
    pub end: EndModel,
    pub nodes: Seq<Option<T>>,
}

impl<T: View> View for Connection<T> {
    type V = ConnectionModel<T::V>;

    open spec fn view(&self) -> ConnectionModel<T::V> {
        ConnectionModel { end: self.page_info@, nodes: node_models(self.nodes@) }
    }
}

#[derive(Debug, PartialEq, Eq)]
pub struct GraphActor {
    pub typename: String,
    pub login: String,
    pub database_id: Option<i64>,
}

#[derive(Debug, PartialEq, Eq)]
pub struct GraphReviewer {
    pub typename: String,
    pub database_id: Option<i64>,
    pub login: Option<String>,
}

#[derive(Debug, PartialEq, Eq)]
pub struct GraphReviewRequest {
    pub requested_reviewer: Option<GraphReviewer>,
}

#[derive(Debug, PartialEq, Eq)]
pub struct GraphReviewAuthor {
    pub login: String,
    pub database_id: Option<i64>,
}

#[derive(Debug, PartialEq, Eq)]
pub struct GraphReview {
    pub database_id: Option<i64>,
    pub state: String,
    pub submitted_at: Option<Timestamp>,
    pub commit_oid: Option<String>,
    pub author: Option<GraphReviewAuthor>,
}

#[derive(Debug, PartialEq, Eq)]
pub struct GraphReviewRequestedEvent {
    pub id: String,
    pub created_at: Timestamp,
    pub requested_reviewer: Option<GraphReviewer>,
}

#[derive(Debug, PartialEq, Eq)]
pub struct GraphPullRequest {
    pub database_id: i64,
    pub number: u64,
    pub url: String,
    pub title: String,
    pub state: String,
    pub is_draft: bool,
    pub merged: bool,
    pub head_ref_oid: String,
    pub head_ref_name: String,
    pub base_ref_oid: String,
    pub base_ref_name: String,
    pub author: Option<GraphActor>,
    pub review_requests: Connection<GraphReviewRequest>,
    pub reviews: Connection<GraphReview>,
    pub timeline_items: Connection<GraphReviewRequestedEvent>,
}

pub struct ActorModel {
    pub typename: Seq<char>,
    pub login: Seq<char>,
    pub database_id: Option<i64>,
}

impl View for GraphActor {
    type V = ActorModel;

    open spec fn view(&self) -> ActorModel {
        ActorModel {
            typename: self.typename@,
            login: self.login@,
            database_id: self.database_id,
        }
    }
}

pub struct ReviewerModel {
    pub typename: Seq<char>,
    pub database_id: Option<i64>,
    pub login: Option<Seq<char>>,
}

impl View for GraphReviewer {
    type V = ReviewerModel;

    open spec fn view(&self) -> ReviewerModel {
        ReviewerModel {
            typename: self.typename@,
            database_id: self.database_id,
            login: opt_text(self.login),
        }
    }
}

pub struct RequestedModel {
    pub requested_reviewer: Option<ReviewerModel>,
}

impl View for GraphReviewRequest {
    type V = RequestedModel;

    open spec fn view(&self) -> RequestedModel {
        RequestedModel { requested_reviewer: opt_model(self.requested_reviewer) }
    }
}

pub struct ReviewAuthorModel {
    pub login: Seq<char>,
    pub database_id: Option<i64>,
}

impl View for GraphReviewAuthor {
    type V = ReviewAuthorModel;

    open spec fn view(&self) -> ReviewAuthorModel {
        ReviewAuthorModel { login: self.login@, database_id: self.database_id }
    }
}

pub struct GraphReviewModel {
    pub database_id: Option<i64>,
    pub state: Seq<char>,
    pub submitted_at: Option<Timestamp>,
    pub commit_oid: Option<Seq<char>>,
    pub author: Option<ReviewAuthorModel>,
}

impl View for GraphReview {
    type V = GraphReviewModel;

    open spec fn view(&self) -> GraphReviewModel {
        GraphReviewModel {
            database_id: self.database_id,
            state: self.state@,
            submitted_at: self.submitted_at,
            commit_oid: opt_text(self.commit_oid),
            author: opt_model(self.author),
        }
    }
}

pub struct GraphEventModel {
    pub id: Seq<char>,
    pub created_at: Timestamp,
    pub requested_reviewer: Option<ReviewerModel>,
}

impl View for GraphReviewRequestedEvent {
    type V = GraphEventModel;

    open spec fn view(&self) -> GraphEventModel {
        GraphEventModel {
            id: self.id@,
            created_at: self.created_at,
            requested_reviewer: opt_model(self.requested_reviewer),
        }
    }
}

/// The models of nodes, of which some may be missing.
pub open spec fn node_models<T: View>(nodes: Seq<Option<T>>) -> Seq<Option<T::V>> {
    nodes.map_values(|n: Option<T>| opt_model(n))
}

pub struct GraphPullModel {
    pub database_id: i64,
    pub number: u64,
    pub url: Seq<char>,
    pub title: Seq<char>,
    pub state: Seq<char>,
    pub is_draft: bool,
    pub merged: bool,
    pub head_ref_oid: Seq<char>,
    pub head_ref_name: Seq<char>,
    pub base_ref_oid: Seq<char>,
    pub base_ref_name: Seq<char>,
    pub author: Option<ActorModel>,
    pub review_requests: Seq<Option<RequestedModel>>,
    pub reviews: Seq<Option<GraphReviewModel>>,
    pub timeline_items: Seq<Option<GraphEventModel>>,
}

impl View for GraphPullRequest {
    type V = GraphPullModel;

    open spec fn view(&self) -> GraphPullModel {
        GraphPullModel {
            database_id: self.database_id,
            number: self.number,
            url: self.url@,
            title: self.title@,
            state: self.state@,
            is_draft: self.is_draft,
            merged: self.merged,
            head_ref_oid: self.head_ref_oid@,
            head_ref_name: self.head_ref_name@,
            base_ref_oid: self.base_ref_oid@,
            base_ref_name: self.base_ref_name@,
            author: opt_model(self.author),
            review_requests: node_models(self.review_requests.nodes@),
            reviews: node_models(self.reviews.nodes@),
            timeline_items: node_models(self.timeline_items.nodes@),
        }
    }
}

/// Where the connections of a pull request were read to.
pub struct EndsModel {
    pub review_requests: EndModel,
    pub reviews: EndModel,
    pub timeline_items: EndModel,
}

/// A pull request of which some pages were read.
pub struct PagedModel {
    pub pull: GraphPullModel,
    pub ends: EndsModel,
}

impl GraphPullRequest {
    pub open spec fn paged(self) -> PagedModel {
        PagedModel {
            pull: self@,
            ends: EndsModel {
                review_requests: self.review_requests.page_info@,
                reviews: self.reviews.page_info@,
                timeline_items: self.timeline_items.page_info@,
            },
        }
    }
}

// ---------------------------------------------------------------------------
// The shapes of REST
// ---------------------------------------------------------------------------

#[derive(Clone, Copy, Debug, PartialEq, Eq, Structural)]
pub struct TeamId {
    pub id: i64,
}

#[derive(Debug, PartialEq, Eq)]
pub struct PullRevision {
    pub sha: String,
    pub reference: String,
}

#[derive(Debug, PartialEq, Eq)]
pub struct PullResponse {
    pub id: i64,
    pub number: u64,
    pub html_url: String,
    pub title: String,
    pub user: Viewer,
    pub state: String,
    pub draft: bool,
    pub merged: bool,
    pub head: PullRevision,
    pub base: PullRevision,
}

pub struct PullResponseModel {
    pub id: i64,
    pub number: u64,
    pub html_url: Seq<char>,
    pub title: Seq<char>,
    pub user: ViewerModel,
    pub state: Seq<char>,
    pub draft: bool,
    pub merged: bool,
    pub head_sha: Seq<char>,
    pub head_ref: Seq<char>,
    pub base_sha: Seq<char>,
    pub base_ref: Seq<char>,
}

impl View for PullResponse {
    type V = PullResponseModel;

    open spec fn view(&self) -> PullResponseModel {
        PullResponseModel {
            id: self.id,
            number: self.number,
            html_url: self.html_url@,
            title: self.title@,
            user: self.user@,
            state: self.state@,
            draft: self.draft,
            merged: self.merged,
            head_sha: self.head.sha@,
            head_ref: self.head.reference@,
            base_sha: self.base.sha@,
            base_ref: self.base.reference@,
        }
    }
}

#[derive(Debug, PartialEq, Eq)]
pub struct RequestedReviewers {
    pub users: Vec<Viewer>,
    pub teams: Vec<TeamId>,
}

#[derive(Debug, PartialEq, Eq)]
pub struct ReviewResponse {
    pub id: i64,
    pub user: Viewer,
    pub state: String,
    pub commit_id: Option<String>,
    pub submitted_at: Option<Timestamp>,
}

#[verifier::ext_equal]
pub struct ReviewResponseModel {
    pub id: i64,
    pub user: ViewerModel,
    pub state: Seq<char>,
    pub commit_id: Option<Seq<char>>,
    pub submitted_at: Option<Timestamp>,
}

impl View for ReviewResponse {
    type V = ReviewResponseModel;

    open spec fn view(&self) -> ReviewResponseModel {
        ReviewResponseModel {
            id: self.id,
            user: self.user@,
            state: self.state@,
            commit_id: opt_text(self.commit_id),
            submitted_at: self.submitted_at,
        }
    }
}

/// An event of a pull request's timeline.
#[derive(Debug, PartialEq, Eq)]
pub enum TimelineEvent {
    ReviewRequested {
        id: i64,
        node_id: Option<String>,
        created_at: Timestamp,
        requested_reviewer: Option<Viewer>,
        requested_team: Option<TeamId>,
    },
    Other,
}

pub enum TimelineModel {
    ReviewRequested {
        id: i64,
        node_id: Option<Seq<char>>,
        created_at: Timestamp,
        requested_reviewer: Option<ViewerModel>,
        requested_team: Option<TeamId>,
    },
    Other,
}

impl View for TimelineEvent {
    type V = TimelineModel;

    open spec fn view(&self) -> TimelineModel {
        match self {
            TimelineEvent::ReviewRequested {
                id,
                node_id,
                created_at,
                requested_reviewer,
                requested_team,
            } => TimelineModel::ReviewRequested {
                id: *id,
                node_id: opt_text(*node_id),
                created_at: *created_at,
                requested_reviewer: opt_model(*requested_reviewer),
                requested_team: *requested_team,
            },
            TimelineEvent::Other => TimelineModel::Other,
        }
    }
}

// ---------------------------------------------------------------------------
// From GraphQL to REST
// ---------------------------------------------------------------------------

impl ReviewerModel {
    pub open spec fn user(self) -> Option<ViewerModel> {
        if self.typename == "User"@ && self.database_id is Some && self.login is Some {
            Some(ViewerModel { id: self.database_id->0, login: self.login->0 })
        } else {
            None
        }
    }

    pub open spec fn team(self) -> Option<TeamId> {
        if self.typename == "Team"@ && self.database_id is Some {
            Some(TeamId { id: self.database_id->0 })
        } else {
            None
        }
    }
}

/// Who is asked by a request, where there is someone.
pub open spec fn reviewer_in(node: Option<RequestedModel>) -> Option<ReviewerModel> {
    match node {
        Some(request) => request.requested_reviewer,
        None => None,
    }
}

/// The review in a node, where its author and number are known.
pub open spec fn review_in(node: Option<GraphReviewModel>) -> Option<ReviewResponseModel> {
    match node {
        Some(review) => match review.author {
            Some(author) => if review.database_id is Some && author.database_id is Some {
                Some(
                    ReviewResponseModel {
                        id: review.database_id->0,
                        user: ViewerModel { id: author.database_id->0, login: author.login },
                        state: review.state,
                        commit_id: review.commit_oid,
                        submitted_at: review.submitted_at,
                    },
                )
            } else {
                None
            },
            None => None,
        },
        None => None,
    }
}

/// The event in a node. GraphQL gives it no number; its node id is what REST
/// calls the node id too.
pub open spec fn event_in(node: Option<GraphEventModel>) -> Option<TimelineModel> {
    match node {
        Some(event) => Some(
            TimelineModel::ReviewRequested {
                id: 0,
                node_id: Some(event.id),
                created_at: event.created_at,
                requested_reviewer: match event.requested_reviewer {
                    Some(reviewer) => reviewer.user(),
                    None => None,
                },
                requested_team: match event.requested_reviewer {
                    Some(reviewer) => reviewer.team(),
                    None => None,
                },
            },
        ),
        None => None,
    }
}

impl GraphPullModel {
    /// The author as REST shows them: an absent one as the ghost, a bot with a
    /// suffix.
    pub open spec fn rest_author(self) -> Result<ViewerModel, GhErrorModel> {
        match self.author {
            None => Ok(ViewerModel { id: GHOST_USER_ID, login: "ghost"@ }),
            Some(actor) => match actor.database_id {
                None => Err(
                    GhErrorModel::Protocol(
                        self.url + ": author "@ + actor.login + " ("@ + actor.typename
                            + ") has no database ID"@,
                    ),
                ),
                Some(id) => Ok(
                    ViewerModel {
                        id,
                        login: if actor.typename == "Bot"@ {
                            actor.login + "[bot]"@
                        } else {
                            actor.login
                        },
                    },
                ),
            },
        }
    }

    /// The pull request as REST shows it: one that was merged is closed.
    pub open spec fn rest_pull(self, user: ViewerModel) -> PullResponseModel {
        PullResponseModel {
            id: self.database_id,
            number: self.number,
            html_url: self.url,
            title: self.title,
            user,
            state: if self.state == "OPEN"@ {
                "open"@
            } else {
                "closed"@
            },
            draft: self.is_draft,
            merged: self.merged,
            head_sha: self.head_ref_oid,
            head_ref: self.head_ref_name,
            base_sha: self.base_ref_oid,
            base_ref: self.base_ref_name,
        }
    }

    pub open spec fn reviewers(self) -> Seq<ReviewerModel> {
        filter_map(self.review_requests, |n: Option<RequestedModel>| reviewer_in(n))
    }

    pub open spec fn users(self) -> Seq<ViewerModel> {
        filter_map(self.reviewers(), |r: ReviewerModel| r.user())
    }

    pub open spec fn teams(self) -> Seq<TeamId> {
        filter_map(self.reviewers(), |r: ReviewerModel| r.team())
    }

    pub open spec fn rest_reviews(self) -> Seq<ReviewResponseModel> {
        filter_map(self.reviews, |n: Option<GraphReviewModel>| review_in(n))
    }

    pub open spec fn rest_timeline(self) -> Seq<TimelineModel> {
        filter_map(self.timeline_items, |n: Option<GraphEventModel>| event_in(n))
    }
}

impl GraphReviewer {
    pub fn user(&self) -> (r: Option<Viewer>)
        ensures
            opt_model(r) == self@.user(),
    {
        if !str_eq(self.typename.as_str(), "User") {
            return None;
        }
        match (self.database_id, &self.login) {
            (Some(id), Some(login)) => Some(Viewer { id, login: login.clone() }),
            _ => None,
        }
    }

    pub fn team(&self) -> (r: Option<TeamId>)
        ensures
            r == self@.team(),
    {
        if !str_eq(self.typename.as_str(), "Team") {
            return None;
        }
        match self.database_id {
            Some(id) => Some(TeamId { id }),
            None => None,
        }
    }
}

fn collect_requests(nodes: &Vec<Option<GraphReviewRequest>>) -> (r: RequestedReviewers)
    ensures
        models(r.users@) == filter_map(
            filter_map(node_models(nodes@), |n: Option<RequestedModel>| reviewer_in(n)),
            |r: ReviewerModel| r.user(),
        ),
        r.teams@ == filter_map(
            filter_map(node_models(nodes@), |n: Option<RequestedModel>| reviewer_in(n)),
            |r: ReviewerModel| r.team(),
        ),
{
    let ghost all = node_models(nodes@);
    let ghost f = |n: Option<RequestedModel>| reviewer_in(n);
    let ghost to_user = |r: ReviewerModel| r.user();
    let ghost to_team = |r: ReviewerModel| r.team();
    let mut users: Vec<Viewer> = Vec::new();
    let mut teams: Vec<TeamId> = Vec::new();
    let mut i: usize = 0;
    assert(models(users@) =~= filter_map(filter_map(all.take(0), f), to_user));
    assert(teams@ =~= filter_map(filter_map(all.take(0), f), to_team));
    while i < nodes.len()
        invariant
            i <= nodes@.len(),
            all == node_models(nodes@),
            f == (|n: Option<RequestedModel>| reviewer_in(n)),
            to_user == (|r: ReviewerModel| r.user()),
            to_team == (|r: ReviewerModel| r.team()),
            models(users@) == filter_map(filter_map(all.take(i as int), f), to_user),
            teams@ == filter_map(filter_map(all.take(i as int), f), to_team),
        decreases nodes@.len() - i,
    {
        let ghost found = filter_map(all.take(i as int), f);
        assert(all[i as int] == opt_model(nodes@[i as int]));
        proof {
            filter_map_next(all, f, i as int);
        }
        if let Some(request) = &nodes[i] {
            if let Some(reviewer) = &request.requested_reviewer {
                proof {
                    let next = found.push(reviewer@);
                    assert(next.drop_last() =~= found);
                    assert(next.last() == reviewer@);
                }
                if let Some(user) = reviewer.user() {
                    let ghost before = users@;
                    users.push(user);
                    assert(models(users@) =~= models(before).push(user@));
                }
                if let Some(team) = reviewer.team() {
                    teams.push(team);
                }
            }
        }
        i += 1;
    }
    assert(all.take(i as int) =~= all);
    RequestedReviewers { users, teams }
}

fn collect_reviews(nodes: &Vec<Option<GraphReview>>) -> (r: Vec<ReviewResponse>)
    ensures
        models(r@) == filter_map(
            node_models(nodes@),
            |n: Option<GraphReviewModel>| review_in(n),
        ),
{
    let ghost all = node_models(nodes@);
    let ghost f = |n: Option<GraphReviewModel>| review_in(n);
    let mut r: Vec<ReviewResponse> = Vec::new();
    let mut i: usize = 0;
    assert(models(r@) =~= filter_map(all.take(0), f));
    while i < nodes.len()
        invariant
            i <= nodes@.len(),
            all == node_models(nodes@),
            f == (|n: Option<GraphReviewModel>| review_in(n)),
            models(r@) == filter_map(all.take(i as int), f),
        decreases nodes@.len() - i,
    {
        assert(all[i as int] == opt_model(nodes@[i as int]));
        proof {
            filter_map_next(all, f, i as int);
        }
        if let Some(review) = &nodes[i] {
            if let Some(author) = &review.author {
                if let (Some(id), Some(user_id)) = (review.database_id, author.database_id) {
                    let ghost before = r@;
                    let response = ReviewResponse {
                        id,
                        user: Viewer { id: user_id, login: author.login.clone() },
                        state: review.state.clone(),
                        commit_id: opt_clone(&review.commit_oid),
                        submitted_at: review.submitted_at,
                    };
                    assert(Some(response@) == review_in(all[i as int]));
                    r.push(response);
                    assert(models(r@) =~= models(before).push(response@));
                }
            }
        }
        i += 1;
    }
    assert(all.take(i as int) =~= all);
    r
}

fn collect_timeline(nodes: &Vec<Option<GraphReviewRequestedEvent>>) -> (r: Vec<TimelineEvent>)
    ensures
        models(r@) == filter_map(node_models(nodes@), |n: Option<GraphEventModel>| event_in(n)),
{
    let ghost all = node_models(nodes@);
    let ghost f = |n: Option<GraphEventModel>| event_in(n);
    let mut r: Vec<TimelineEvent> = Vec::new();
    let mut i: usize = 0;
    assert(models(r@) =~= filter_map(all.take(0), f));
    while i < nodes.len()
        invariant
            i <= nodes@.len(),
            all == node_models(nodes@),
            f == (|n: Option<GraphEventModel>| event_in(n)),
            models(r@) == filter_map(all.take(i as int), f),
        decreases nodes@.len() - i,
    {
        assert(all[i as int] == opt_model(nodes@[i as int]));
        proof {
            filter_map_next(all, f, i as int);
        }
        if let Some(event) = &nodes[i] {
            let ghost before = r@;
            let entry = TimelineEvent::ReviewRequested {
                id: 0,
                node_id: Some(event.id.clone()),
                created_at: event.created_at,
                requested_reviewer: match &event.requested_reviewer {
                    Some(reviewer) => reviewer.user(),
                    None => None,
                },
                requested_team: match &event.requested_reviewer {
                    Some(reviewer) => reviewer.team(),
                    None => None,
                },
            };
            assert(Some(entry@) == event_in(all[i as int]));
            r.push(entry);
            assert(models(r@) =~= models(before).push(entry@));
        }
        i += 1;
    }
    assert(all.take(i as int) =~= all);
    r
}

impl GraphPullRequest {
    /// Turns the answer of GraphQL into the shapes of REST, whose numbers,
    /// logins and states are stored and handed to the review command.
    pub fn into_rest(self) -> (r: Result<
        (PullResponse, RequestedReviewers, Vec<ReviewResponse>, Vec<TimelineEvent>),
        GhError,
    >)
        ensures
            match r {
                Ok((pull, requests, reviews, timeline)) => {
                    &&& self@.rest_author() matches Ok(user) && pull@ == self@.rest_pull(user)
                    &&& models(requests.users@) == self@.users()
                    &&& requests.teams@ == self@.teams()
                    &&& models(reviews@) == self@.rest_reviews()
                    &&& models(timeline@) == self@.rest_timeline()
                },
                Err(error) => self@.rest_author() == Err::<ViewerModel, GhErrorModel>(error@),
            },
    {
        let user = match &self.author {
            None => Viewer { id: GHOST_USER_ID, login: "ghost".to_owned() },
            Some(actor) => match actor.database_id {
                None => {
                    let mut message = self.url.clone();
                    message.append(": author ");
                    message.append(actor.login.as_str());
                    message.append(" (");
                    message.append(actor.typename.as_str());
                    message.append(") has no database ID");
                    return Err(GhError::Protocol(message));
                },
                Some(id) => {
                    let mut login = actor.login.clone();
                    if str_eq(actor.typename.as_str(), "Bot") {
                        login.append("[bot]");
                    }
                    Viewer { id, login }
                },
            },
        };
        let pull = PullResponse {
            id: self.database_id,
            number: self.number,
            html_url: self.url.clone(),
            title: self.title.clone(),
            user,
            state: if str_eq(self.state.as_str(), "OPEN") {
                "open".to_owned()
            } else {
                "closed".to_owned()
            },
            draft: self.is_draft,
            merged: self.merged,
            head: PullRevision {
                sha: self.head_ref_oid.clone(),
                reference: self.head_ref_name.clone(),
            },
            base: PullRevision {
                sha: self.base_ref_oid.clone(),
                reference: self.base_ref_name.clone(),
            },
        };
        let requests = collect_requests(&self.review_requests.nodes);
        let reviews = collect_reviews(&self.reviews.nodes);
        let timeline = collect_timeline(&self.timeline_items.nodes);
        Ok((pull, requests, reviews, timeline))
    }
}

// ---------------------------------------------------------------------------
// Reviews and requests that count
// ---------------------------------------------------------------------------

impl ReviewResponseModel {
    /// The opinion of a review, where it holds one.
    pub open spec fn opinion(self) -> Option<ReviewModel> {
        if self.state == "APPROVED"@ {
            Some(
                ReviewModel {
                    id: self.id,
                    state: ReviewState::Approved,
                    commit_sha: self.commit_id,
                    submitted_at: self.submitted_at,
                },
            )
        } else if self.state == "CHANGES_REQUESTED"@ {
            Some(
                ReviewModel {
                    id: self.id,
                    state: ReviewState::ChangesRequested,
                    commit_sha: self.commit_id,
                    submitted_at: self.submitted_at,
                },
            )
        } else {
            None
        }
    }
}

impl ReviewResponse {
    pub fn into_opinionated(self) -> (r: Option<OpinionatedReview>)
        ensures
            opt_model(r) == self@.opinion(),
    {
        opinion_of(&self)
    }
}

fn opinion_of(review: &ReviewResponse) -> (r: Option<OpinionatedReview>)
    ensures
        opt_model(r) == review@.opinion(),
{
    proof {
        reveal_strlit("APPROVED");
        reveal_strlit("CHANGES_REQUESTED");
    }
    let state = if str_eq(review.state.as_str(), "APPROVED") {
        ReviewState::Approved
    } else if str_eq(review.state.as_str(), "CHANGES_REQUESTED") {
        ReviewState::ChangesRequested
    } else {
        return None;
    };
    Some(
        OpinionatedReview {
            id: review.id,
            state,
            commit_sha: opt_clone(&review.commit_id),
            submitted_at: review.submitted_at,
        },
    )
}

impl TimelineModel {
    /// The request that an event makes of the viewer: of themselves, of a team
    /// of theirs, or of a team that is requested now where a notification is
    /// trusted to be about it.
    pub open spec fn request(
        self,
        viewer_id: i64,
        viewer_team_ids: Seq<i64>,
        trust_team_notification: bool,
        requested_team_ids: Set<i64>,
    ) -> Option<RequestModel> {
        match self {
            TimelineModel::Other => None,
            TimelineModel::ReviewRequested {
                id,
                node_id,
                created_at,
                requested_reviewer,
                requested_team,
            } => {
                let event_id = match node_id {
                    Some(node) => node,
                    None => int_text(id as int),
                };
                if requested_reviewer matches Some(user) && user.id == viewer_id {
                    Some(
                        RequestModel {
                            event_id,
                            created_at,
                            kind: ReviewRequestKind::User,
                            requested_id: viewer_id,
                        },
                    )
                } else {
                    match requested_team {
                        Some(team) => if viewer_team_ids.contains(team.id) || (
                        trust_team_notification && requested_team_ids.contains(team.id)) {
                            Some(
                                RequestModel {
                                    event_id,
                                    created_at,
                                    kind: ReviewRequestKind::Team,
                                    requested_id: team.id,
                                },
                            )
                        } else {
                            None
                        },
                        None => None,
                    }
                }
            },
        }
    }
}

impl TimelineEvent {
    pub fn into_review_request(
        self,
        viewer: &Viewer,
        viewer_team_ids: &[i64],
        trust_team_notification: bool,
        currently_requested_team_ids: &HashSet<i64>,
    ) -> (r: Option<ReviewRequestEvent>)
        ensures
            opt_model(r) == self@.request(
                viewer.id,
                viewer_team_ids@,
                trust_team_notification,
                currently_requested_team_ids@,
            ),
    {
        request_of(
            &self,
            viewer,
            viewer_team_ids,
            trust_team_notification,
            currently_requested_team_ids,
        )
    }
}

fn request_of(
    event: &TimelineEvent,
    viewer: &Viewer,
    viewer_team_ids: &[i64],
    trust_team_notification: bool,
    currently_requested_team_ids: &HashSet<i64>,
) -> (r: Option<ReviewRequestEvent>)
    ensures
        opt_model(r) == event@.request(
            viewer.id,
            viewer_team_ids@,
            trust_team_notification,
            currently_requested_team_ids@,
        ),
{
    match event {
        TimelineEvent::Other => None,
        TimelineEvent::ReviewRequested {
            id,
            node_id,
            created_at,
            requested_reviewer,
            requested_team,
        } => {
            let for_viewer = match requested_reviewer {
                Some(user) => user.id == viewer.id,
                None => false,
            };
            let event_id = match node_id {
                Some(node) => node.clone(),
                None => i64_text(*id),
            };
            if for_viewer {
                return Some(
                    ReviewRequestEvent {
                        event_id,
                        created_at: *created_at,
                        kind: ReviewRequestKind::User,
                        requested_id: viewer.id,
                    },
                );
            }
            match requested_team {
                Some(team) => if contains_id(viewer_team_ids, team.id) || (trust_team_notification
                    && currently_requested_team_ids.contains(&team.id)) {
                    Some(
                        ReviewRequestEvent {
                            event_id,
                            created_at: *created_at,
                            kind: ReviewRequestKind::Team,
                            requested_id: team.id,
                        },
                    )
                } else {
                    None
                },
                None => None,
            }
        },
    }
}

/// `a` was not submitted after `b`: by time, where an unknown one comes first,
/// and by number.
pub open spec fn review_le(a: ReviewModel, b: ReviewModel) -> bool {
    match (a.submitted_at, b.submitted_at) {
        (Some(x), Some(y)) => if x == y {
            a.id <= b.id
        } else {
            x.no_later_than(y)
        },
        (None, Some(_)) => true,
        (Some(_), None) => false,
        (None, None) => a.id <= b.id,
    }
}

/// `a` was not made after `b`: by time and by id.
pub open spec fn request_le(a: RequestModel, b: RequestModel) -> bool {
    if a.created_at == b.created_at {
        text_le(a.event_id, b.event_id)
    } else {
        a.created_at.no_later_than(b.created_at)
    }
}

/// The latest review.
pub open spec fn latest_review(s: Seq<ReviewModel>) -> Option<ReviewModel>
    decreases s.len(),
{
    if s.len() == 0 {
        None
    } else {
        match latest_review(s.drop_last()) {
            Some(best) => if review_le(best, s.last()) {
                Some(s.last())
            } else {
                Some(best)
            },
            None => Some(s.last()),
        }
    }
}

/// The latest request.
pub open spec fn latest_request(s: Seq<RequestModel>) -> Option<RequestModel>
    decreases s.len(),
{
    if s.len() == 0 {
        None
    } else {
        match latest_request(s.drop_last()) {
            Some(best) => if request_le(best, s.last()) {
                Some(s.last())
            } else {
                Some(best)
            },
            None => Some(s.last()),
        }
    }
}

/// The opinions of the viewer, in the order of the reviews.
pub open spec fn opinions(reviews: Seq<ReviewResponseModel>, viewer_id: i64) -> Seq<ReviewModel> {
    filter_map(
        reviews,
        |r: ReviewResponseModel|
            if r.user.id == viewer_id {
                r.opinion()
            } else {
                None
            },
    )
}

/// The requests of the viewer, in the order of the timeline.
pub open spec fn requests_for(
    timeline: Seq<TimelineModel>,
    viewer_id: i64,
    viewer_team_ids: Seq<i64>,
    trust_team_notification: bool,
    requested_team_ids: Set<i64>,
) -> Seq<RequestModel> {
    filter_map(
        timeline,
        |e: TimelineModel|
            e.request(viewer_id, viewer_team_ids, trust_team_notification, requested_team_ids),
    )
}

/// The viewer submitted a review without an opinion at or after a time.
pub open spec fn commented_since(
    reviews: Seq<ReviewResponseModel>,
    viewer_id: i64,
    since: Timestamp,
) -> bool {
    exists|i: int|
        0 <= i < reviews.len() && (#[trigger] reviews[i]).user.id == viewer_id
            && reviews[i].opinion() is None && (reviews[i].submitted_at matches Some(submitted)
            && since.no_later_than(submitted))
}

/// The numbers of teams.
pub open spec fn team_ids(teams: Seq<TeamId>) -> Seq<i64> {
    teams.map_values(|t: TeamId| t.id)
}

/// The state that follows from what GitHub reports.
pub open spec fn assembled(
    pull: PullResponseModel,
    users: Seq<ViewerModel>,
    teams: Seq<TeamId>,
    reviews: Seq<ReviewResponseModel>,
    timeline: Seq<TimelineModel>,
    viewer_id: i64,
    viewer_team_ids: Seq<i64>,
    trust_team_notification: bool,
) -> PullModel {
    let request = latest_request(
        requests_for(
            timeline,
            viewer_id,
            viewer_team_ids,
            trust_team_notification,
            team_ids(teams).to_set(),
        ),
    );
    PullModel {
        id: pull.id,
        number: pull.number,
        url: pull.html_url,
        title: pull.title,
        author: pull.user,
        state: pull.state,
        draft: pull.draft,
        merged: pull.merged,
        head_sha: pull.head_sha,
        head_ref: pull.head_ref,
        base_sha: pull.base_sha,
        base_ref: pull.base_ref,
        directly_requested: exists|i: int|
            0 <= i < users.len() && (#[trigger] users[i]).id == viewer_id,
        requested_team_ids: team_ids(teams),
        latest_review: latest_review(opinions(reviews, viewer_id)),
        latest_request: request,
        non_opinionated_review_after_request: match request {
            Some(r) => commented_since(reviews, viewer_id, r.created_at),
            None => false,
        },
    }
}

fn same_time(a: &Timestamp, b: &Timestamp) -> (r: bool)
    ensures
        r == (*a == *b),
{
    a.seconds == b.seconds && a.nanos == b.nanos
}

fn is_review_le(a: &OpinionatedReview, b: &OpinionatedReview) -> (r: bool)
    ensures
        r == review_le(a@, b@),
{
    match (&a.submitted_at, &b.submitted_at) {
        (Some(x), Some(y)) => if same_time(x, y) {
            a.id <= b.id
        } else {
            x.at_most(y)
        },
        (None, Some(_)) => true,
        (Some(_), None) => false,
        (None, None) => a.id <= b.id,
    }
}

fn is_request_le(a: &ReviewRequestEvent, b: &ReviewRequestEvent) -> (r: bool)
    ensures
        r == request_le(a@, b@),
{
    if same_time(&a.created_at, &b.created_at) {
        str_le(a.event_id.as_str(), b.event_id.as_str())
    } else {
        a.created_at.at_most(&b.created_at)
    }
}

fn find_latest_review(reviews: &Vec<ReviewResponse>, viewer: &Viewer) -> (r: Option<
    OpinionatedReview,
>)
    ensures
        opt_model(r) == latest_review(opinions(models(reviews@), viewer.id)),
{
    let ghost all = models(reviews@);
    let ghost f = |r: ReviewResponseModel|
        if r.user.id == viewer.id {
            r.opinion()
        } else {
            None
        };
    let mut found: Option<OpinionatedReview> = None;
    let mut i: usize = 0;
    while i < reviews.len()
        invariant
            i <= reviews@.len(),
            all == models(reviews@),
            f == (|r: ReviewResponseModel|
                if r.user.id == viewer.id {
                    r.opinion()
                } else {
                    None
                }),
            opt_model(found) == latest_review(filter_map(all.take(i as int), f)),
        decreases reviews@.len() - i,
    {
        let ghost before = filter_map(all.take(i as int), f);
        assert(all[i as int] == reviews@[i as int]@);
        proof {
            filter_map_next(all, f, i as int);
        }
        let review = &reviews[i];
        if review.user.id == viewer.id {
            if let Some(opinion) = opinion_of(review) {
                proof {
                    let next = before.push(opinion@);
                    assert(next.drop_last() =~= before);
                    assert(next.last() == opinion@);
                }
                let better = match &found {
                    Some(best) => is_review_le(best, &opinion),
                    None => true,
                };
                if better {
                    found = Some(opinion);
                }
            }
        }
        i += 1;
    }
    assert(all.take(i as int) =~= all);
    found
}

fn find_latest_request(
    timeline: &Vec<TimelineEvent>,
    viewer: &Viewer,
    viewer_team_ids: &[i64],
    trust_team_notification: bool,
    requested: &HashSet<i64>,
) -> (r: Option<ReviewRequestEvent>)
    ensures
        opt_model(r) == latest_request(
            requests_for(
                models(timeline@),
                viewer.id,
                viewer_team_ids@,
                trust_team_notification,
                requested@,
            ),
        ),
{
    let ghost all = models(timeline@);
    let ghost f = |e: TimelineModel|
        e.request(viewer.id, viewer_team_ids@, trust_team_notification, requested@);
    let mut found: Option<ReviewRequestEvent> = None;
    let mut i: usize = 0;
    while i < timeline.len()
        invariant
            i <= timeline@.len(),
            all == models(timeline@),
            f == (|e: TimelineModel|
                e.request(viewer.id, viewer_team_ids@, trust_team_notification, requested@)),
            opt_model(found) == latest_request(filter_map(all.take(i as int), f)),
        decreases timeline@.len() - i,
    {
        let ghost before = filter_map(all.take(i as int), f);
        assert(all[i as int] == timeline@[i as int]@);
        proof {
            filter_map_next(all, f, i as int);
        }
        if let Some(request) = request_of(
            &timeline[i],
            viewer,
            viewer_team_ids,
            trust_team_notification,
            requested,
        ) {
            proof {
                let next = before.push(request@);
                assert(next.drop_last() =~= before);
                assert(next.last() == request@);
            }
            let better = match &found {
                Some(best) => is_request_le(best, &request),
                None => true,
            };
            if better {
                found = Some(request);
            }
        }
        i += 1;
    }
    assert(all.take(i as int) =~= all);
    found
}

fn has_commented_since(reviews: &Vec<ReviewResponse>, viewer: &Viewer, since: &Timestamp) -> (r:
    bool)
    ensures
        r == commented_since(models(reviews@), viewer.id, *since),
{
    let ghost all = models(reviews@);
    let mut i: usize = 0;
    while i < reviews.len()
        invariant
            i <= reviews@.len(),
            all == models(reviews@),
            forall|j: int|
                0 <= j < i ==> !((#[trigger] all[j]).user.id == viewer.id && all[j].opinion() is None
                    && (all[j].submitted_at matches Some(submitted) && since.no_later_than(
                    submitted,
                ))),
        decreases reviews@.len() - i,
    {
        assert(all[i as int] == reviews@[i as int]@);
        let review = &reviews[i];
        if review.user.id == viewer.id && opinion_of(review).is_none() {
            if let Some(submitted) = &review.submitted_at {
                if since.at_most(submitted) {
                    return true;
                }
            }
        }
        i += 1;
    }
    false
}

fn has_user(users: &Vec<Viewer>, viewer: &Viewer) -> (r: bool)
    ensures
        r == (exists|i: int|
            0 <= i < models(users@).len() && (#[trigger] models(users@)[i]).id == viewer.id),
{
    let ghost all = models(users@);
    let mut i: usize = 0;
    while i < users.len()
        invariant
            i <= users@.len(),
            all == models(users@),
            forall|j: int| 0 <= j < i ==> (#[trigger] all[j]).id != viewer.id,
        decreases users@.len() - i,
    {
        assert(all[i as int] == users@[i as int]@);
        if users[i].id == viewer.id {
            return true;
        }
        i += 1;
    }
    false
}

fn list_team_ids(teams: &Vec<TeamId>) -> (r: (Vec<i64>, HashSet<i64>))
    ensures
        r.0@ == team_ids(teams@),
        r.1@ == team_ids(teams@).to_set(),
{
    let ghost all = team_ids(teams@);
    let mut list: Vec<i64> = Vec::new();
    let mut set: HashSet<i64> = HashSet::new();
    let mut i: usize = 0;
    assert(set@ =~= all.take(0).to_set());
    while i < teams.len()
        invariant
            i <= teams@.len(),
            all == team_ids(teams@),
            list@ == all.take(i as int),
            set@ == all.take(i as int).to_set(),
        decreases teams@.len() - i,
    {
        let id: i64 = teams[i].id;
        assert(all[i as int] == id);
        let ghost before = all.take(i as int);
        list.push(id);
        set.insert(id);
        assert(all.take(i as int + 1) =~= before.push(id));
        assert(before.push(id).to_set() =~= before.to_set().insert(id)) by {
            assert forall|x: i64| #[trigger]
                before.push(id).to_set().contains(x) <==> before.to_set().insert(id).contains(
                    x,
                ) by {
                if before.to_set().contains(x) {
                    let k = choose|k: int| 0 <= k < before.len() && before[k] == x;
                    assert(before.push(id)[k] == x);
                }
                if x == id {
                    assert(before.push(id)[before.len() as int] == id);
                }
                if before.push(id).contains(x) {
                    let k = choose|k: int|
                        0 <= k < before.push(id).len() && before.push(id)[k] == x;
                    if k < before.len() {
                        assert(before[k] == x);
                    }
                }
            }
        }
        i += 1;
    }
    assert(all.take(i as int) =~= all);
    (list, set)
}

/// Puts together what is needed to decide whether the pull request asks
/// something of the viewer.
pub fn assemble_pull_request_state(
    pull: PullResponse,
    requests: RequestedReviewers,
    reviews: Vec<ReviewResponse>,
    timeline: Vec<TimelineEvent>,
    viewer: &Viewer,
    viewer_team_ids: &[i64],
    trust_team_notification: bool,
) -> (r: PullRequestState)
    ensures
        r@ == assembled(
            pull@,
            models(requests.users@),
            requests.teams@,
            models(reviews@),
            models(timeline@),
            viewer.id,
            viewer_team_ids@,
            trust_team_notification,
        ),
{
    let (requested_team_ids, requested) = list_team_ids(&requests.teams);
    let latest_review = find_latest_review(&reviews, viewer);
    let latest_request = find_latest_request(
        &timeline,
        viewer,
        viewer_team_ids,
        trust_team_notification,
        &requested,
    );
    let non_opinionated_review_after_request = match &latest_request {
        Some(request) => has_commented_since(&reviews, viewer, &request.created_at),
        None => false,
    };
    let directly_requested = has_user(&requests.users, viewer);
    PullRequestState {
        id: pull.id,
        number: pull.number,
        url: pull.html_url,
        title: pull.title,
        author: pull.user,
        state: pull.state,
        draft: pull.draft,
        merged: pull.merged,
        head_sha: pull.head.sha,
        head_ref: pull.head.reference,
        base_sha: pull.base.sha,
        base_ref: pull.base.reference,
        directly_requested,
        requested_team_ids,
        latest_review,
        latest_request,
        non_opinionated_review_after_request,
    }
}

/// The state of a pull request as GraphQL reports it.
pub open spec fn graph_state(
    pull: GraphPullModel,
    viewer_id: i64,
    viewer_team_ids: Seq<i64>,
    trust_team_notification: bool,
) -> Result<PullModel, GhErrorModel> {
    match pull.rest_author() {
        Ok(user) => Ok(
            assembled(
                pull.rest_pull(user),
                pull.users(),
                pull.teams(),
                pull.rest_reviews(),
                pull.rest_timeline(),
                viewer_id,
                viewer_team_ids,
                trust_team_notification,
            ),
        ),
        Err(error) => Err(error),
    }
}

impl GraphPullRequest {
    /// The state of a pull request whose connections were read to their end.
    pub fn into_state(
        self,
        viewer: &Viewer,
        viewer_team_ids: &[i64],
        trust_team_notification: bool,
    ) -> (r: Result<PullRequestState, GhError>)
        ensures
            GhError::result_model(r) == graph_state(
                self@,
                viewer.id,
                viewer_team_ids@,
                trust_team_notification,
            ),
    {
        match self.into_rest() {
            Ok((pull, requests, reviews, timeline)) => Ok(
                assemble_pull_request_state(
                    pull,
                    requests,
                    reviews,
                    timeline,
                    viewer,
                    viewer_team_ids,
                    trust_team_notification,
                ),
            ),
            Err(error) => Err(error),
        }
    }
}

// ---------------------------------------------------------------------------
// Laws
// ---------------------------------------------------------------------------

/// The latest review is one of the reviews, and none is later.
pub proof fn latest_review_is_latest(s: Seq<ReviewModel>)
    ensures
        latest_review(s) is Some <==> s.len() > 0,
        latest_review(s) matches Some(best) ==> s.contains(best) && forall|i: int|
            0 <= i < s.len() ==> review_le(#[trigger] s[i], best),
    decreases s.len(),
{
    if s.len() > 0 {
        let front = s.drop_last();
        latest_review_is_latest(front);
        let best = latest_review(s)->0;
        assert(s[s.len() - 1] == s.last());
        if let Some(old) = latest_review(front) {
            let k = choose|k: int| 0 <= k < front.len() && front[k] == old;
            assert(s[k] == old);
        }
        assert forall|i: int| 0 <= i < s.len() implies review_le(#[trigger] s[i], best) by {
            if i < front.len() {
                assert(front[i] == s[i]);
            }
        }
    }
}

/// The latest request is one of the requests, and none is later.
pub proof fn latest_request_is_latest(s: Seq<RequestModel>)
    ensures
        latest_request(s) is Some <==> s.len() > 0,
        latest_request(s) matches Some(best) ==> s.contains(best) && forall|i: int|
            0 <= i < s.len() ==> request_le(#[trigger] s[i], best),
    decreases s.len(),
{
    if s.len() > 0 {
        let front = s.drop_last();
        latest_request_is_latest(front);
        let best = latest_request(s)->0;
        let last = s.last();
        assert(s[s.len() - 1] == last);
        text_le_total(last.event_id, last.event_id);
        if let Some(old) = latest_request(front) {
            let k = choose|k: int| 0 <= k < front.len() && front[k] == old;
            assert(s[k] == old);
            text_le_total(old.event_id, last.event_id);
            text_le_total(old.event_id, old.event_id);
        }
        assert forall|i: int| 0 <= i < s.len() implies request_le(#[trigger] s[i], best) by {
            if i < front.len() {
                assert(front[i] == s[i]);
                let old = latest_request(front)->0;
                if best == last && s[i].created_at == old.created_at && old.created_at
                    == last.created_at {
                    text_le_transitive(s[i].event_id, old.event_id, last.event_id);
                }
            }
        }
    }
}

/// A review without an opinion is never the latest review.
pub proof fn comments_hold_no_opinion(r: ReviewResponseModel)
    requires
        r.state != "APPROVED"@,
        r.state != "CHANGES_REQUESTED"@,
    ensures
        r.opinion() is None,
{
}

/// A request for a team that the viewer does not belong to counts only where a
/// notification is trusted and the team is requested now.
pub proof fn foreign_team_needs_trust(
    event: TimelineModel,
    viewer_id: i64,
    viewer_team_ids: Seq<i64>,
    trust: bool,
    requested: Set<i64>,
)
    ensures
        event.request(viewer_id, viewer_team_ids, trust, requested) matches Some(request)
            && request.kind == ReviewRequestKind::Team ==> viewer_team_ids.contains(
            event.request(viewer_id, viewer_team_ids, trust, requested)->0.requested_id,
        ) || (trust && requested.contains(
            event.request(viewer_id, viewer_team_ids, trust, requested)->0.requested_id,
        )),
{
}

} // verus!
