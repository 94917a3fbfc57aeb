//! What the state of a pull request says of the answer that it was made from.

use vstd::prelude::*;
use crate::github::pulls::{
    commented_since, filter_map, graph_state, latest_request, latest_request_is_latest,
    latest_review, latest_review_is_latest, opinions, request_le, requests_for, review_in,
    reviewer_in, team_ids, event_in, GraphEventModel, GraphPullModel, GraphReviewModel,
    RequestedModel, ReviewResponseModel, ReviewerModel, TeamId, TimelineModel,
};
use crate::model::{RequestModel, ReviewModel, ReviewRequestKind, ReviewState, ViewerModel};
use crate::text::text_le;
use crate::time::Timestamp;

verus! {

/// The results of `f` that are there are those of the members.
pub proof fn filter_map_has<A, B>(s: Seq<A>, f: spec_fn(A) -> Option<B>)
    ensures
        forall|b: B|
            #[trigger] filter_map(s, f).contains(b) <==> exists|i: int|
                0 <= i < s.len() && f(#[trigger] s[i]) == Some(b),
    decreases s.len(),
{
    if s.len() > 0 {
        let front = s.drop_last();
        filter_map_has(front, f);
        let all = filter_map(s, f);
        let before = filter_map(front, f);
        assert forall|b: B| #[trigger] all.contains(b) <==> exists|i: int|
            0 <= i < s.len() && f(#[trigger] s[i]) == Some(b) by {
            if all.contains(b) {
                let k = choose|k: int| 0 <= k < all.len() && all[k] == b;
                if k < before.len() {
                    assert(before[k] == b);
                    assert(before.contains(b));
                    let i = choose|i: int| 0 <= i < front.len() && f(#[trigger] front[i]) == Some(b);
                    assert(s[i] == front[i]);
                } else {
                    assert(f(s[s.len() - 1]) == Some(b));
                }
            }
            if exists|i: int| 0 <= i < s.len() && f(#[trigger] s[i]) == Some(b) {
                let i = choose|i: int| 0 <= i < s.len() && f(#[trigger] s[i]) == Some(b);
                if i < front.len() {
                    assert(front[i] == s[i]);
                    assert(before.contains(b));
                    let k = choose|k: int| 0 <= k < before.len() && before[k] == b;
                    assert(all[k] == b);
                } else {
                    assert(all[all.len() - 1] == b);
                }
            }
        }
    }
}

/// A node of the review requests lists the user with the number `id`.
pub open spec fn lists_user(node: Option<RequestedModel>, id: i64) -> bool {
    &&& node matches Some(request)
    &&& request.requested_reviewer matches Some(who)
    &&& who.typename == "User"@
    &&& who.database_id == Some(id)
    &&& who.login is Some
}

/// A node of the review requests lists the team with the number `id`.
pub open spec fn lists_team(node: Option<RequestedModel>, id: i64) -> bool {
    &&& node matches Some(request)
    &&& request.requested_reviewer matches Some(who)
    &&& who.typename == "Team"@
    &&& who.database_id == Some(id)
}

/// A node of the reviews holds one that the user with the number `id` wrote.
pub open spec fn written_by(node: Option<GraphReviewModel>, id: i64) -> bool {
    &&& node matches Some(review)
    &&& review.database_id is Some
    &&& review.author matches Some(author)
    &&& author.database_id == Some(id)
}

/// The review in a node approves, or asks for changes.
pub open spec fn opinionated(node: Option<GraphReviewModel>) -> bool {
    node matches Some(review) && (review.state == "APPROVED"@ || review.state
        == "CHANGES_REQUESTED"@)
}

/// An event of the timeline asked the viewer, or a team that counts as theirs:
/// one of `teams`, or where a notification is trusted, one that is listed.
pub open spec fn asked(
    node: Option<GraphEventModel>,
    viewer_id: i64,
    teams: Seq<i64>,
    trust: bool,
    listed: Seq<Option<RequestedModel>>,
) -> bool {
    &&& node matches Some(event)
    &&& event.requested_reviewer matches Some(who)
    &&& who.database_id matches Some(id)
    &&& (who.typename == "User"@ && id == viewer_id && who.login is Some) || (who.typename
        == "Team"@ && (teams.contains(id) || (trust && exists|k: int|
        0 <= k < listed.len() && lists_team(#[trigger] listed[k], id))))
}

proof fn users_are_listed(pull: GraphPullModel, id: i64)
    ensures
        (exists|i: int| 0 <= i < pull.users().len() && (#[trigger] pull.users()[i]).id == id)
            <==> exists|i: int|
            0 <= i < pull.review_requests.len() && lists_user(#[trigger] pull.review_requests[i], id),
{
    let nodes = pull.review_requests;
    let f = |n: Option<RequestedModel>| reviewer_in(n);
    let g = |r: ReviewerModel| r.user();
    filter_map_has(nodes, f);
    filter_map_has(pull.reviewers(), g);
    if exists|i: int| 0 <= i < pull.users().len() && (#[trigger] pull.users()[i]).id == id {
        let i = choose|i: int| 0 <= i < pull.users().len() && (#[trigger] pull.users()[i]).id == id;
        let user = pull.users()[i];
        assert(filter_map(pull.reviewers(), g).contains(user));
        let k = choose|k: int|
            0 <= k < pull.reviewers().len() && g(#[trigger] pull.reviewers()[k]) == Some(user);
        let who = pull.reviewers()[k];
        assert(filter_map(nodes, f).contains(who));
        let j = choose|j: int| 0 <= j < nodes.len() && f(#[trigger] nodes[j]) == Some(who);
        assert(lists_user(nodes[j], id));
    }
    if exists|i: int| 0 <= i < nodes.len() && lists_user(#[trigger] nodes[i], id) {
        let j = choose|j: int| 0 <= j < nodes.len() && lists_user(#[trigger] nodes[j], id);
        let who = nodes[j]->0.requested_reviewer->0;
        assert(f(nodes[j]) == Some(who));
        assert(filter_map(nodes, f).contains(who));
        let k = choose|k: int| 0 <= k < pull.reviewers().len() && pull.reviewers()[k] == who;
        let user = ViewerModel { id, login: who.login->0 };
        assert(g(pull.reviewers()[k]) == Some(user));
        assert(pull.users().contains(user));
        let i = choose|i: int| 0 <= i < pull.users().len() && pull.users()[i] == user;
        assert(pull.users()[i].id == id);
    }
}

proof fn teams_are_listed(pull: GraphPullModel, id: i64)
    ensures
        team_ids(pull.teams()).contains(id) <==> exists|i: int|
            0 <= i < pull.review_requests.len() && lists_team(#[trigger] pull.review_requests[i], id),
{
    let nodes = pull.review_requests;
    let f = |n: Option<RequestedModel>| reviewer_in(n);
    let g = |r: ReviewerModel| r.team();
    filter_map_has(nodes, f);
    filter_map_has(pull.reviewers(), g);
    let ids = team_ids(pull.teams());
    if ids.contains(id) {
        let i = choose|i: int| 0 <= i < ids.len() && ids[i] == id;
        let team = pull.teams()[i];
        assert(team.id == id);
        assert(filter_map(pull.reviewers(), g).contains(team));
        let k = choose|k: int|
            0 <= k < pull.reviewers().len() && g(#[trigger] pull.reviewers()[k]) == Some(team);
        let who = pull.reviewers()[k];
        assert(filter_map(nodes, f).contains(who));
        let j = choose|j: int| 0 <= j < nodes.len() && f(#[trigger] nodes[j]) == Some(who);
        assert(lists_team(nodes[j], id));
    }
    if exists|i: int| 0 <= i < nodes.len() && lists_team(#[trigger] nodes[i], id) {
        let j = choose|j: int| 0 <= j < nodes.len() && lists_team(#[trigger] nodes[j], id);
        let who = nodes[j]->0.requested_reviewer->0;
        assert(f(nodes[j]) == Some(who));
        assert(filter_map(nodes, f).contains(who));
        let k = choose|k: int| 0 <= k < pull.reviewers().len() && pull.reviewers()[k] == who;
        reveal_strlit("User");
        reveal_strlit("Team");
        let team = TeamId { id };
        assert(g(pull.reviewers()[k]) == Some(team));
        assert(pull.teams().contains(team));
        let i = choose|i: int| 0 <= i < pull.teams().len() && pull.teams()[i] == team;
        assert(ids[i] == id);
    }
}

/// A pull request asks the viewer directly exactly where GitHub lists them among
/// those that are asked, and it asks exactly the teams that GitHub lists. Users
/// and teams that are someone else do not count.
pub proof fn listed_users_and_teams_are_asked(
    pull: GraphPullModel,
    viewer_id: i64,
    teams: Seq<i64>,
    trust: bool,
    team: i64,
)
    ensures
        graph_state(pull, viewer_id, teams, trust) matches Ok(state) ==> {
            &&& state.directly_requested <==> exists|i: int|
                0 <= i < pull.review_requests.len() && lists_user(
                    #[trigger] pull.review_requests[i],
                    viewer_id,
                )
            &&& state.requested_team_ids.contains(team) <==> exists|i: int|
                0 <= i < pull.review_requests.len() && lists_team(
                    #[trigger] pull.review_requests[i],
                    team,
                )
        },
{
    users_are_listed(pull, viewer_id);
    teams_are_listed(pull, team);
}

proof fn opinion_is_in(pull: GraphPullModel, viewer_id: i64, opinion: ReviewModel)
    ensures
        opinions(pull.rest_reviews(), viewer_id).contains(opinion) <==> exists|i: int|
            0 <= i < pull.reviews.len() && gives_opinion(
                #[trigger] pull.reviews[i],
                viewer_id,
                opinion,
            ),
{
    let nodes = pull.reviews;
    let f = |n: Option<GraphReviewModel>| review_in(n);
    let g = |r: ReviewResponseModel|
        if r.user.id == viewer_id {
            r.opinion()
        } else {
            None
        };
    reveal_strlit("APPROVED");
    reveal_strlit("CHANGES_REQUESTED");
    assert("APPROVED"@.len() != "CHANGES_REQUESTED"@.len());
    filter_map_has(nodes, f);
    filter_map_has(pull.rest_reviews(), g);
    let all = filter_map(pull.rest_reviews(), g);
    assert(opinions(pull.rest_reviews(), viewer_id) == all);
    if all.contains(opinion) {
        let k = choose|k: int|
            0 <= k < pull.rest_reviews().len() && g(#[trigger] pull.rest_reviews()[k]) == Some(
                opinion,
            );
        let response = pull.rest_reviews()[k];
        assert(filter_map(nodes, f).contains(response));
        let j = choose|j: int| 0 <= j < nodes.len() && f(#[trigger] nodes[j]) == Some(response);
        assert(gives_opinion(nodes[j], viewer_id, opinion));
    }
    if exists|i: int| 0 <= i < nodes.len() && gives_opinion(#[trigger] nodes[i], viewer_id, opinion) {
        let j = choose|j: int|
            0 <= j < nodes.len() && gives_opinion(#[trigger] nodes[j], viewer_id, opinion);
        let response = f(nodes[j])->0;
        assert(f(nodes[j]) == Some(response));
        assert(filter_map(nodes, f).contains(response));
        let k = choose|k: int|
            0 <= k < pull.rest_reviews().len() && pull.rest_reviews()[k] == response;
        assert(g(pull.rest_reviews()[k]) == Some(opinion));
        assert(all.contains(opinion));
    }
}

/// The review in a node is one of the viewer's and holds this opinion.
pub open spec fn gives_opinion(
    node: Option<GraphReviewModel>,
    viewer_id: i64,
    opinion: ReviewModel,
) -> bool {
    &&& written_by(node, viewer_id)
    &&& opinionated(node)
    &&& opinion.id == node->0.database_id->0
    &&& opinion.commit_sha == node->0.commit_oid
    &&& opinion.submitted_at == node->0.submitted_at
    &&& opinion.state == ReviewState::Approved <==> node->0.state == "APPROVED"@
}

/// The latest review of a state is the viewer's last one that approves or asks
/// for changes, as GitHub reports it: none of theirs that holds an opinion was
/// submitted later, and of two at the same time it has the larger number. Reviews
/// of others and comments do not count. There is none exactly where the viewer
/// gave no opinion.
pub proof fn latest_opinion_is_the_viewers_last(
    pull: GraphPullModel,
    viewer_id: i64,
    teams: Seq<i64>,
    trust: bool,
)
    ensures
        graph_state(pull, viewer_id, teams, trust) matches Ok(state) ==> {
            &&& state.latest_review is None <==> forall|i: int|
                0 <= i < pull.reviews.len() ==> !(written_by(
                    #[trigger] pull.reviews[i],
                    viewer_id,
                ) && opinionated(pull.reviews[i]))
            &&& state.latest_review matches Some(latest) ==> {
                &&& exists|i: int|
                    0 <= i < pull.reviews.len() && gives_opinion(
                        #[trigger] pull.reviews[i],
                        viewer_id,
                        latest,
                    )
                &&& forall|i: int|
                    0 <= i < pull.reviews.len() && written_by(#[trigger] pull.reviews[i], viewer_id)
                        && opinionated(pull.reviews[i]) ==> {
                        let review = pull.reviews[i]->0;
                        &&& review.submitted_at matches Some(at) ==> (
                        latest.submitted_at matches Some(last) && (at.seconds < last.seconds || (
                        at.seconds == last.seconds && at.nanos <= last.nanos)))
                        &&& review.submitted_at == latest.submitted_at ==> review.database_id->0
                            <= latest.id
                    }
            }
        },
{
    let found = opinions(pull.rest_reviews(), viewer_id);
    latest_review_is_latest(found);
    assert forall|i: int|
        0 <= i < pull.reviews.len() && written_by(#[trigger] pull.reviews[i], viewer_id)
            && opinionated(pull.reviews[i]) implies found.len() > 0 && ({
        let review = pull.reviews[i]->0;
        let latest = latest_review(found)->0;
        &&& review.submitted_at matches Some(at) ==> (latest.submitted_at matches Some(last) && (
        at.seconds < last.seconds || (at.seconds == last.seconds && at.nanos <= last.nanos)))
        &&& review.submitted_at == latest.submitted_at ==> review.database_id->0 <= latest.id
    }) by {
        let review = pull.reviews[i]->0;
        let opinion = ReviewModel {
            id: review.database_id->0,
            state: if review.state == "APPROVED"@ {
                ReviewState::Approved
            } else {
                ReviewState::ChangesRequested
            },
            commit_sha: review.commit_oid,
            submitted_at: review.submitted_at,
        };
        assert(gives_opinion(pull.reviews[i], viewer_id, opinion));
        opinion_is_in(pull, viewer_id, opinion);
        let k = choose|k: int| 0 <= k < found.len() && found[k] == opinion;
        assert(found[k] == opinion);
    }
    if let Some(latest) = latest_review(found) {
        opinion_is_in(pull, viewer_id, latest);
    }
}

/// An event of the timeline makes this request.
pub open spec fn makes_request(
    node: Option<GraphEventModel>,
    viewer_id: i64,
    teams: Seq<i64>,
    trust: bool,
    listed: Seq<Option<RequestedModel>>,
    request: RequestModel,
) -> bool {
    &&& asked(node, viewer_id, teams, trust, listed)
    &&& request.event_id == node->0.id
    &&& request.created_at == node->0.created_at
    &&& node->0.requested_reviewer->0.database_id == Some(request.requested_id)
    &&& request.kind == ReviewRequestKind::User <==> node->0.requested_reviewer->0.typename
        == "User"@
}

proof fn request_is_in(
    pull: GraphPullModel,
    viewer_id: i64,
    teams: Seq<i64>,
    trust: bool,
    request: RequestModel,
)
    ensures
        requests_for(
            pull.rest_timeline(),
            viewer_id,
            teams,
            trust,
            team_ids(pull.teams()).to_set(),
        ).contains(request) <==> exists|i: int|
            0 <= i < pull.timeline_items.len() && makes_request(
                #[trigger] pull.timeline_items[i],
                viewer_id,
                teams,
                trust,
                pull.review_requests,
                request,
            ),
{
    let nodes = pull.timeline_items;
    let listed = team_ids(pull.teams()).to_set();
    let f = |n: Option<GraphEventModel>| event_in(n);
    let g = |e: TimelineModel| e.request(viewer_id, teams, trust, listed);
    reveal_strlit("User");
    reveal_strlit("Team");
    assert("User"@[0] == 'U' && "Team"@[0] == 'T');
    filter_map_has(nodes, f);
    filter_map_has(pull.rest_timeline(), g);
    teams_are_listed(pull, request.requested_id);
    let all = filter_map(pull.rest_timeline(), g);
    if all.contains(request) {
        let k = choose|k: int|
            0 <= k < pull.rest_timeline().len() && g(#[trigger] pull.rest_timeline()[k]) == Some(
                request,
            );
        let event = pull.rest_timeline()[k];
        assert(filter_map(nodes, f).contains(event));
        let j = choose|j: int| 0 <= j < nodes.len() && f(#[trigger] nodes[j]) == Some(event);
        assert(makes_request(nodes[j], viewer_id, teams, trust, pull.review_requests, request));
    }
    if exists|i: int|
        0 <= i < nodes.len() && makes_request(
            #[trigger] nodes[i],
            viewer_id,
            teams,
            trust,
            pull.review_requests,
            request,
        ) {
        let j = choose|j: int|
            0 <= j < nodes.len() && makes_request(
                #[trigger] nodes[j],
                viewer_id,
                teams,
                trust,
                pull.review_requests,
                request,
            );
        let event = f(nodes[j])->0;
        assert(f(nodes[j]) == Some(event));
        assert(filter_map(nodes, f).contains(event));
        let k = choose|k: int| 0 <= k < pull.rest_timeline().len() && pull.rest_timeline()[k] == event;
        assert(g(pull.rest_timeline()[k]) == Some(request));
        assert(all.contains(request));
    }
}

/// The latest request of a state is the last event that asked the viewer, or a
/// team that counts as theirs. None such was made later, and of two at the same
/// time it has the greater id. There is none exactly where no event asked them.
pub proof fn latest_request_is_the_viewers_last(
    pull: GraphPullModel,
    viewer_id: i64,
    teams: Seq<i64>,
    trust: bool,
)
    ensures
        graph_state(pull, viewer_id, teams, trust) matches Ok(state) ==> {
            &&& state.latest_request is None <==> forall|i: int|
                0 <= i < pull.timeline_items.len() ==> !asked(
                    #[trigger] pull.timeline_items[i],
                    viewer_id,
                    teams,
                    trust,
                    pull.review_requests,
                )
            &&& state.latest_request matches Some(latest) ==> {
                &&& exists|i: int|
                    0 <= i < pull.timeline_items.len() && makes_request(
                        #[trigger] pull.timeline_items[i],
                        viewer_id,
                        teams,
                        trust,
                        pull.review_requests,
                        latest,
                    )
                &&& forall|i: int|
                    0 <= i < pull.timeline_items.len() && asked(
                        #[trigger] pull.timeline_items[i],
                        viewer_id,
                        teams,
                        trust,
                        pull.review_requests,
                    ) ==> {
                        let event = pull.timeline_items[i]->0;
                        let last = latest.created_at;
                        &&& event.created_at.seconds < last.seconds || (event.created_at.seconds
                            == last.seconds && event.created_at.nanos <= last.nanos)
                        &&& event.created_at == last ==> text_le(event.id, latest.event_id)
                    }
            }
        },
{
    let found = requests_for(
        pull.rest_timeline(),
        viewer_id,
        teams,
        trust,
        team_ids(pull.teams()).to_set(),
    );
    latest_request_is_latest(found);
    assert forall|i: int|
        0 <= i < pull.timeline_items.len() && asked(
            #[trigger] pull.timeline_items[i],
            viewer_id,
            teams,
            trust,
            pull.review_requests,
        ) implies found.len() > 0 && ({
        let event = pull.timeline_items[i]->0;
        let latest = latest_request(found)->0;
        let last = latest.created_at;
        &&& event.created_at.seconds < last.seconds || (event.created_at.seconds == last.seconds
            && event.created_at.nanos <= last.nanos)
        &&& event.created_at == last ==> text_le(event.id, latest.event_id)
    }) by {
        let event = pull.timeline_items[i]->0;
        let who = event.requested_reviewer->0;
        let request = RequestModel {
            event_id: event.id,
            created_at: event.created_at,
            kind: if who.typename == "User"@ {
                ReviewRequestKind::User
            } else {
                ReviewRequestKind::Team
            },
            requested_id: who.database_id->0,
        };
        assert(makes_request(
            pull.timeline_items[i],
            viewer_id,
            teams,
            trust,
            pull.review_requests,
            request,
        ));
        request_is_in(pull, viewer_id, teams, trust, request);
        let k = choose|k: int| 0 <= k < found.len() && found[k] == request;
        assert(request_le(found[k], latest_request(found)->0));
    }
    if let Some(latest) = latest_request(found) {
        request_is_in(pull, viewer_id, teams, trust, latest);
    }
}

/// The viewer only commented on a request exactly where they submitted a review
/// without an opinion at the time of the latest request or later.
pub proof fn comments_follow_the_latest_request(
    pull: GraphPullModel,
    viewer_id: i64,
    teams: Seq<i64>,
    trust: bool,
)
    ensures
        graph_state(pull, viewer_id, teams, trust) matches Ok(state) ==> (
        state.non_opinionated_review_after_request <==> {
            &&& state.latest_request matches Some(request)
            &&& exists|i: int|
                0 <= i < pull.reviews.len() && comments_since(
                    #[trigger] pull.reviews[i],
                    viewer_id,
                    request.created_at,
                )
        }),
{
    if let Ok(state) = graph_state(pull, viewer_id, teams, trust) {
        if let Some(request) = state.latest_request {
            let nodes = pull.reviews;
            let f = |n: Option<GraphReviewModel>| review_in(n);
            let since = request.created_at;
            filter_map_has(nodes, f);
            let reviews = pull.rest_reviews();
            if commented_since(reviews, viewer_id, since) {
                let k = choose|k: int|
                    0 <= k < reviews.len() && (#[trigger] reviews[k]).user.id == viewer_id
                        && reviews[k].opinion() is None && (
                    reviews[k].submitted_at matches Some(submitted) && since.no_later_than(
                        submitted,
                    ));
                assert(filter_map(nodes, f).contains(reviews[k]));
                let j = choose|j: int|
                    0 <= j < nodes.len() && f(#[trigger] nodes[j]) == Some(reviews[k]);
                assert(comments_since(nodes[j], viewer_id, since));
            }
            if exists|i: int|
                0 <= i < nodes.len() && comments_since(#[trigger] nodes[i], viewer_id, since) {
                let j = choose|j: int|
                    0 <= j < nodes.len() && comments_since(#[trigger] nodes[j], viewer_id, since);
                let response = f(nodes[j])->0;
                assert(f(nodes[j]) == Some(response));
                assert(filter_map(nodes, f).contains(response));
                let k = choose|k: int| 0 <= k < reviews.len() && reviews[k] == response;
                assert(reviews[k].user.id == viewer_id);
            }
        }
    }
}

/// The review in a node is a comment of the viewer, not before `since`.
pub open spec fn comments_since(
    node: Option<GraphReviewModel>,
    viewer_id: i64,
    since: Timestamp,
) -> bool {
    &&& written_by(node, viewer_id)
    &&& !opinionated(node)
    &&& node->0.submitted_at matches Some(at)
    &&& since.seconds < at.seconds || (since.seconds == at.seconds && since.nanos <= at.nanos)
}

/// A state has the own fields of the pull request as GitHub reports them. It is
/// open exactly where GitHub says so.
pub proof fn states_keep_what_github_reports(
    pull: GraphPullModel,
    viewer_id: i64,
    teams: Seq<i64>,
    trust: bool,
)
    ensures
        graph_state(pull, viewer_id, teams, trust) matches Ok(state) ==> {
            &&& state.id == pull.database_id
            &&& state.number == pull.number
            &&& state.url == pull.url
            &&& state.title == pull.title
            &&& state.draft == pull.is_draft
            &&& state.merged == pull.merged
            &&& state.head_sha == pull.head_ref_oid
            &&& state.head_ref == pull.head_ref_name
            &&& state.base_sha == pull.base_ref_oid
            &&& state.base_ref == pull.base_ref_name
            &&& state.state == "open"@ <==> pull.state == "OPEN"@
            &&& state.state != "open"@ ==> state.state == "closed"@
        },
{
    reveal_strlit("open");
    reveal_strlit("closed");
    assert("open"@.len() != "closed"@.len());
}

/// The author of a state is the one that GitHub reports, a bot with a suffix to
/// its login, and a deleted account the ghost. An author without a number is the
/// only thing that leaves a pull request without a state.
pub proof fn authors_are_those_github_reports(
    pull: GraphPullModel,
    viewer_id: i64,
    teams: Seq<i64>,
    trust: bool,
)
    ensures
        graph_state(pull, viewer_id, teams, trust) is Ok <==> (pull.author matches Some(author)
            ==> author.database_id is Some),
        graph_state(pull, viewer_id, teams, trust) matches Ok(state) ==> match pull.author {
            Some(author) => state.author.id == author.database_id->0 && state.author.login
                == author.login + if author.typename == "Bot"@ {
                "[bot]"@
            } else {
                seq![]
            },
            None => state.author == (ViewerModel { id: 10137, login: "ghost"@ }),
        },
        graph_state(pull, viewer_id, teams, trust) matches Err(error)
            ==> error is Protocol,
{
    if let Some(author) = pull.author {
        assert(author.login + seq![] =~= author.login);
    }
}

} // verus!
