//! What the queries for pull requests ask for, and what is made of their answers.

use vstd::prelude::*;
use crate::github::graphql::{
    alias_leads_to_repository, aliases_of, batch_text, declarations, distinct_names, fields_text,
    messages_at, next_page, outcome_at, path_of, pending_page, pulls_text, query_fails,
    repositories_text, variables_for, AnswerModel, GraphErrorModel, PageModel, PullConnection,
    QueryModel, ReaderModel,
};
use crate::github::pulls::{EndsModel, GraphPullModel, PagedModel};
use crate::github::states::{batch_query, names_of, numbers_of, ReadingModel, StepModel};
use crate::github::GhErrorModel;
use crate::number::decimal;
use crate::text::laws::texts_are_cut_at_a_separator;
use crate::text::split_once;

verus! {

// ---------------------------------------------------------------------------
// Queries
// ---------------------------------------------------------------------------

/// The names of a batch are taken once each.
pub proof fn names_are_taken_once(names: Seq<Seq<char>>, name: Seq<char>)
    ensures
        distinct_names(names).contains(name) <==> names.contains(name),
        distinct_names(names).no_duplicates(),
    decreases names.len(),
{
    if names.len() > 0 {
        let front = names.drop_last();
        let last = names.last();
        names_are_taken_once(front, name);
        names_are_taken_once(front, last);
        let few = distinct_names(front);
        let all = distinct_names(names);
        assert(names.contains(name) <==> front.contains(name) || last == name) by {
            if names.contains(name) {
                let k = names.index_of(name);
                if k < front.len() {
                    assert(front[k] == name);
                }
            }
            if front.contains(name) {
                let k = front.index_of(name);
                assert(names[k] == name);
            }
            assert(names[names.len() - 1] == last);
        }
        if !few.contains(last) {
            assert(all == few.push(last));
            assert(all[all.len() - 1] == last);
            if few.contains(name) {
                let k = few.index_of(name);
                assert(all[k] == name);
            }
            if all.contains(name) {
                let k = all.index_of(name);
                if k < few.len() {
                    assert(few[k] == name);
                }
            }
            assert forall|i: int, j: int|
                0 <= i < all.len() && 0 <= j < all.len() && i != j implies all[i] != all[j] by {
                if i < few.len() && j < few.len() {
                    assert(few[i] == all[i] && few[j] == all[j]);
                } else if i < few.len() {
                    assert(few[i] == all[i]);
                    assert(few.contains(few[i]));
                } else {
                    assert(few[j] == all[j]);
                    assert(few.contains(few[j]));
                }
            }
        }
    }
}

/// The variable with that name holds the value.
pub open spec fn holds_variable(
    variables: Seq<(Seq<char>, Seq<char>)>,
    i: int,
    name: Seq<char>,
    value: Seq<char>,
) -> bool {
    0 <= i < variables.len() && variables[i].0 == name && variables[i].1 == value
}

/// The variables of a batch hold the login of the viewer, and the owner and the name of
/// each repository under its number.
pub proof fn variables_hold_owner_and_name(
    names: Seq<Seq<char>>,
    viewer_login: Seq<char>,
    n: nat,
    k: int,
    owner: Seq<char>,
    name: Seq<char>,
)
    requires
        0 <= k < n <= names.len(),
        names[k] == owner + seq!['/'] + name,
        !owner.contains('/'),
    ensures
        ({
            let variables = variables_for(names, viewer_login, n);
            &&& variables.len() == 1 + 2 * n
            &&& holds_variable(variables, 0, "viewer"@, viewer_login)
            &&& holds_variable(variables, 1 + 2 * k, "o"@ + decimal(k as nat), owner)
            &&& holds_variable(variables, 2 + 2 * k, "n"@ + decimal(k as nat), name)
        }),
    decreases n,
{
    variable_count(names, viewer_login, n);
    variable_count(names, viewer_login, (n - 1) as nat);
    let before = variables_for(names, viewer_login, (n - 1) as nat);
    let after = variables_for(names, viewer_login, n);
    first_cut(names[k], owner, name);
    if k < n - 1 {
        variables_hold_owner_and_name(
            names,
            viewer_login,
            (n - 1) as nat,
            k,
            owner,
            name,
        );
        assert(after[1 + 2 * k] == before[1 + 2 * k]);
        assert(after[2 + 2 * k] == before[2 + 2 * k]);
    }
}

proof fn variable_count(names: Seq<Seq<char>>, viewer_login: Seq<char>, n: nat)
    ensures
        variables_for(names, viewer_login, n).len() == 1 + 2 * n,
        holds_variable(variables_for(names, viewer_login, n), 0, "viewer"@, viewer_login),
    decreases n,
{
    if n > 0 {
        variable_count(names, viewer_login, (n - 1) as nat);
    }
}

proof fn first_cut(full: Seq<char>, owner: Seq<char>, name: Seq<char>)
    requires
        full == owner + seq!['/'] + name,
        !owner.contains('/'),
    ensures
        split_once(full, '/') == Some((owner, name)),
{
    let n = owner.len() as int;
    assert(full[n] == '/');
    assert(full.contains('/'));
    texts_are_cut_at_a_separator(full, '/');
    let (a, b) = split_once(full, '/')->0;
    let t = a + seq!['/'] + b;
    let k = a.len() as int;
    assert(t[k] == '/');
    if k < n {
        assert(owner[k] == full[k]);
    } else if n < k {
        assert(a[n] == t[n]);
    }
    assert(a =~= t.take(k));
    assert(b =~= t.skip(k + 1));
    assert(full.take(n) =~= owner);
    assert(full.skip(n + 1) =~= name);
}

/// A further page of a connection is asked for exactly where there is one, with the
/// cursor at which the last one ended. One without a cursor, or with one that was used
/// before, is an error.
pub proof fn further_pages_start_at_the_cursor(
    owner: Seq<char>,
    name: Seq<char>,
    number: u64,
    viewer_login: Seq<char>,
    kind: PullConnection,
    more: bool,
    cursor: Option<Seq<char>>,
    visited: Seq<Seq<char>>,
)
    requires
        !owner.contains('/'),
    ensures
        match next_page(
            owner + seq!['/'] + name,
            number,
            viewer_login,
            kind,
            more,
            cursor,
            visited,
        ) {
            Ok(None) => !more,
            Ok(Some(query)) => {
                &&& more && cursor is Some && !visited.contains(cursor->0)
                &&& holds_variable(query.variables, 0, "o"@, owner)
                &&& holds_variable(query.variables, 1, "n"@, name)
                &&& holds_variable(query.variables, 2, "after"@, cursor->0)
                &&& kind == PullConnection::Reviews ==> query.variables.len() == 4
                    && holds_variable(query.variables, 3, "viewer"@, viewer_login)
                &&& kind != PullConnection::Reviews ==> query.variables.len() == 3
            },
            Err(error) => more && error is Protocol && (cursor matches Some(used)
                ==> visited.contains(used)),
        },
{
    first_cut(owner + seq!['/'] + name, owner, name);
}

/// Of a pull request the requests are read to their end first, the reviews second, and
/// the events last; there is nothing to ask for exactly where all three have ended.
pub proof fn connections_are_read_in_order(
    full_name: Seq<char>,
    number: u64,
    viewer_login: Seq<char>,
    ends: EndsModel,
)
    ensures
        ({
            let (found, kind) = pending_page(
                full_name,
                number,
                viewer_login,
                ends,
                PullConnection::ReviewRequests,
                seq![],
            );
            let requests = ends.review_requests.has_next_page;
            let reviews = ends.reviews.has_next_page;
            let events = ends.timeline_items.has_next_page;
            &&& requests ==> kind == PullConnection::ReviewRequests
            &&& !requests && reviews ==> kind == PullConnection::Reviews
            &&& !requests && !reviews ==> kind == PullConnection::ReviewRequestedEvents
            &&& found == Ok::<Option<QueryModel>, GhErrorModel>(None) <==> !requests && !reviews
                && !events
        }),
{
    reveal_with_fuel(pending_page, 3);
}

/// A page adds its nodes to its own connection, which ends where the page ends, and
/// changes nothing else. An answer without the page is an error.
pub proof fn pages_extend_their_connection(reader: ReaderModel, page: PageModel)
    ensures
        match reader.accepted(page) {
            Ok(next) => {
                let before = reader.read;
                let after = next.read;
                &&& next == (ReaderModel { read: after, ..reader })
                &&& page matches PageModel::ReviewRequests(got) ==> got is Some && after == (
                PagedModel {
                    pull: GraphPullModel {
                        review_requests: before.pull.review_requests + got->0.nodes,
                        ..before.pull
                    },
                    ends: EndsModel { review_requests: got->0.end, ..before.ends },
                })
                &&& page matches PageModel::Reviews(got) ==> got is Some && after == (PagedModel {
                    pull: GraphPullModel {
                        reviews: before.pull.reviews + got->0.nodes,
                        ..before.pull
                    },
                    ends: EndsModel { reviews: got->0.end, ..before.ends },
                })
                &&& page matches PageModel::ReviewRequestedEvents(got) ==> got is Some && after == (
                PagedModel {
                    pull: GraphPullModel {
                        timeline_items: before.pull.timeline_items + got->0.nodes,
                        ..before.pull
                    },
                    ends: EndsModel { timeline_items: got->0.end, ..before.ends },
                })
            },
            Err(error) => error is Protocol && match page {
                PageModel::ReviewRequests(got) => got is None,
                PageModel::Reviews(got) => got is None,
                PageModel::ReviewRequestedEvents(got) => got is None,
            },
        },
{
}

/// A query asks for the next pull requests of the list, in their order and as many as
/// are left, up to twenty-five.
pub proof fn batches_take_the_next_of_the_list(reading: ReadingModel, i: int)
    requires
        reading.states.len() <= reading.pulls.len(),
    ensures
        ({
            let batch = reading.next_batch();
            let left = reading.pulls.len() - reading.states.len();
            &&& batch.len() == if left < 25 {
                left
            } else {
                25
            }
            &&& 0 <= i < batch.len() ==> batch[i] == reading.pulls[reading.states.len() + i]
        }),
{
}

// ---------------------------------------------------------------------------
// Errors in an answer
// ---------------------------------------------------------------------------

/// A query fails as a whole exactly where an error belongs to no part of the answer, or
/// tells that the rate limit is reached.
pub proof fn queries_fail_by_errors_without_a_place(errors: Seq<GraphErrorModel>)
    ensures
        query_fails(errors) <==> exists|i: int|
            0 <= i < errors.len() && ((#[trigger] errors[i]).path.len() == 0 || errors[i].kind
                == Some("RATE_LIMITED"@)),
{
    if query_fails(errors) {
        let i = choose|i: int| 0 <= i < errors.len() && (#[trigger] errors[i]).fails_query();
        assert(errors[i].path.len() == 0 || errors[i].kind == Some("RATE_LIMITED"@));
    }
    if exists|i: int|
        0 <= i < errors.len() && ((#[trigger] errors[i]).path.len() == 0 || errors[i].kind == Some(
            "RATE_LIMITED"@,
        )) {
        let i = choose|i: int|
            0 <= i < errors.len() && ((#[trigger] errors[i]).path.len() == 0 || errors[i].kind
                == Some("RATE_LIMITED"@));
        assert(errors[i].fails_query());
    }
}

/// The error belongs to the pull request at that place of the answer, or to something
/// within it or around it.
pub open spec fn concerns(error: GraphErrorModel, repository: Seq<char>, pull: Seq<char>) -> bool {
    &&& error.path.len() > 0 ==> error.path[0] == Some(repository)
    &&& error.path.len() > 1 ==> error.path[1] == Some(pull)
}

proof fn concerns_is_applies(error: GraphErrorModel, repository: Seq<char>, pull: Seq<char>)
    ensures
        error.applies(seq![repository, pull]) <==> concerns(error, repository, pull),
{
    let path = seq![repository, pull];
    if concerns(error, repository, pull) {
        assert forall|i: int| 0 <= i < error.path.len() && i < path.len() implies
            #[trigger] error.path[i] == Some(path[i]) by {
            if i == 0 {
            } else {
                assert(i == 1);
            }
        }
    }
    if error.applies(path) {
        assert(error.path.len() > 0 ==> error.path[0] == Some(path[0]));
        assert(error.path.len() > 1 ==> error.path[1] == Some(path[1]));
    }
}

proof fn messages_tell(errors: Seq<GraphErrorModel>, path: Seq<Seq<char>>)
    ensures
        messages_at(errors, path).len() > 0 <==> exists|i: int|
            0 <= i < errors.len() && (#[trigger] errors[i]).applies(path),
    decreases errors.len(),
{
    if errors.len() > 0 {
        let front = errors.drop_last();
        messages_tell(front, path);
        if exists|i: int| 0 <= i < errors.len() && (#[trigger] errors[i]).applies(path) {
            let i = choose|i: int| 0 <= i < errors.len() && (#[trigger] errors[i]).applies(path);
            if i < front.len() {
                assert(front[i] == errors[i]);
            }
        }
        if exists|i: int| 0 <= i < front.len() && (#[trigger] front[i]).applies(path) {
            let i = choose|i: int| 0 <= i < front.len() && (#[trigger] front[i]).applies(path);
            assert(errors[i] == front[i]);
        }
        assert(errors[errors.len() - 1] == errors.last());
    }
}

/// A pull request of a batch is read exactly where its answer is there and no error
/// concerns it. It is not found where an error says so of it or of its repository;
/// where there are other errors, or no answer, the reading fails.
pub proof fn pulls_are_read_where_no_error_concerns_them(
    full_name: Seq<char>,
    number: u64,
    alias: nat,
    place: nat,
    errors: Seq<GraphErrorModel>,
    answer: AnswerModel,
)
    ensures
        ({
            let repository = "r"@ + decimal(alias);
            let pull = "p"@ + decimal(place);
            let troubled = exists|i: int|
                0 <= i < errors.len() && concerns(#[trigger] errors[i], repository, pull);
            let unknown = exists|i: int|
                0 <= i < errors.len() && concerns(#[trigger] errors[i], repository, pull)
                    && errors[i].kind == Some("NOT_FOUND"@) && errors[i].path.len() <= 2;
            match outcome_at(full_name, number, alias as int, place as int, errors, answer) {
                Ok(read) => !troubled && answer == AnswerModel::Found(read),
                Err(GhErrorModel::NotFound { what }) => (unknown || answer is Malformed) && (unknown
                    ==> what == full_name + "#"@ + decimal(number as nat)),
                Err(error) => !unknown && (troubled || !(answer is Found)),
            }
        }),
{
    let repository = "r"@ + decimal(alias);
    let pull = "p"@ + decimal(place);
    let path = path_of(alias as int, place as int);
    assert(path == seq![repository, pull]);
    messages_tell(errors, path);
    assert forall|i: int| 0 <= i < errors.len() implies (#[trigger] errors[i]).applies(path)
        == concerns(errors[i], repository, pull) by {
        concerns_is_applies(errors[i], repository, pull);
    }
    if exists|i: int| 0 <= i < errors.len() && (#[trigger] errors[i]).misses(path) {
        let i = choose|i: int| 0 <= i < errors.len() && (#[trigger] errors[i]).misses(path);
        assert(concerns(errors[i], repository, pull));
    }
    if exists|i: int|
        0 <= i < errors.len() && concerns(#[trigger] errors[i], repository, pull) && errors[i].kind
            == Some("NOT_FOUND"@) && errors[i].path.len() <= 2 {
        let i = choose|i: int|
            0 <= i < errors.len() && concerns(#[trigger] errors[i], repository, pull)
                && errors[i].kind == Some("NOT_FOUND"@) && errors[i].path.len() <= 2;
        assert(errors[i].misses(path));
    }
    if exists|i: int| 0 <= i < errors.len() && concerns(#[trigger] errors[i], repository, pull) {
        let i = choose|i: int|
            0 <= i < errors.len() && concerns(#[trigger] errors[i], repository, pull);
        assert(errors[i].applies(path));
    }
    if exists|i: int| 0 <= i < errors.len() && (#[trigger] errors[i]).applies(path) {
        let i = choose|i: int| 0 <= i < errors.len() && (#[trigger] errors[i]).applies(path);
        assert(concerns(errors[i], repository, pull));
    }
}

// ---------------------------------------------------------------------------
// Texts of queries
// ---------------------------------------------------------------------------

/// The text stands somewhere in another.
pub open spec fn stands_in(part: Seq<char>, s: Seq<char>) -> bool {
    exists|before: Seq<char>, behind: Seq<char>| s == #[trigger] around(before, part, behind)
}

/// A text between two others.
pub open spec fn around(before: Seq<char>, part: Seq<char>, behind: Seq<char>) -> Seq<char> {
    before + part + behind
}

proof fn stands_within(part: Seq<char>, s: Seq<char>, before: Seq<char>, behind: Seq<char>)
    requires
        stands_in(part, s),
    ensures
        stands_in(part, before + s + behind),
{
    let (a, b) = choose|a: Seq<char>, b: Seq<char>| s == #[trigger] around(a, part, b);
    assert(before + s + behind =~= around(before + a, part, b + behind));
}

/// The selection of one pull request of a batch.
pub open spec fn selects(i: int, number: u64) -> Seq<char> {
    " p"@ + decimal(i as nat) + ": pullRequest(number: "@ + decimal(number as nat)
        + ") { ...PullRequestState }"@
}

proof fn pulls_are_selected(
    numbers: Seq<u64>,
    aliases: Seq<int>,
    repository: int,
    n: nat,
    i: int,
)
    requires
        0 <= i < n <= numbers.len(),
        aliases[i] == repository,
    ensures
        stands_in(selects(i, numbers[i]), pulls_text(numbers, aliases, repository, n)),
    decreases n,
{
    let text = pulls_text(numbers, aliases, repository, n);
    let front = pulls_text(numbers, aliases, repository, (n - 1) as nat);
    if i == n - 1 {
        assert(text =~= around(front, selects(i, numbers[i]), seq![]));
    } else {
        pulls_are_selected(numbers, aliases, repository, (n - 1) as nat, i);
        if aliases[n - 1] == repository {
            stands_within(
                selects(i, numbers[i]),
                front,
                seq![],
                selects(n - 1, numbers[n - 1]),
            );
            assert(text =~= seq![] + front + selects(n - 1, numbers[n - 1]));
        } else {
            assert(text == front);
        }
    }
}

proof fn repositories_are_selected(
    numbers: Seq<u64>,
    aliases: Seq<int>,
    n: nat,
    i: int,
)
    requires
        0 <= i < numbers.len(),
        0 <= aliases[i] < n,
    ensures
        stands_in(selects(i, numbers[i]), repositories_text(numbers, aliases, n)),
    decreases n,
{
    let text = repositories_text(numbers, aliases, n);
    let front = repositories_text(numbers, aliases, (n - 1) as nat);
    let k = decimal((n - 1) as nat);
    let open = " r"@ + k + ": repository(owner: $o"@ + k + ", name: $n"@ + k + ") {"@;
    let inner = pulls_text(numbers, aliases, n - 1, numbers.len());
    if aliases[i] == n - 1 {
        pulls_are_selected(numbers, aliases, n - 1, numbers.len(), i);
        stands_within(selects(i, numbers[i]), inner, front + open, " }"@);
        assert(text =~= (front + open) + inner + " }"@);
    } else {
        repositories_are_selected(numbers, aliases, (n - 1) as nat, i);
        stands_within(selects(i, numbers[i]), front, seq![], open + inner + " }"@);
        assert(text =~= seq![] + front + (open + inner + " }"@));
    }
}

/// A query for a batch selects every pull request of it, by its number and under its
/// place.
pub proof fn queries_select_every_pull_request(
    batch: Seq<(Seq<char>, u64)>,
    viewer_login: Seq<char>,
    i: int,
)
    requires
        0 <= i < batch.len(),
    ensures
        stands_in(selects(i, batch[i].1), batch_query(batch, viewer_login).query),
        holds_variable(
            batch_query(batch, viewer_login).variables,
            0,
            "viewer"@,
            viewer_login,
        ),
{
    let names = names_of(batch);
    let numbers = numbers_of(batch);
    let aliases = aliases_of(names);
    let n = distinct_names(names).len();
    alias_leads_to_repository(names, i);
    repositories_are_selected(numbers, aliases, n, i);
    let inner = repositories_text(numbers, aliases, n);
    let open = "query("@ + declarations(n) + ") {"@;
    let close = " } fragment PullRequestState on PullRequest { "@ + fields_text() + " }"@;
    stands_within(selects(i, numbers[i]), inner, open, close);
    assert(batch_text(numbers, aliases, n) =~= open + inner + close);
    variable_count(distinct_names(names), viewer_login, n);
}

/// A page holds a hundred nodes, and is asked for behind its cursor. Of the reviews only
/// those of the viewer are asked for, and of the timeline only the requests.
pub proof fn pages_are_selected_by_kind(kind: PullConnection, after: bool)
    ensures
        stands_in("(first: 100"@, kind.selection_text(after)),
        stands_in("pageInfo { hasNextPage endCursor }"@, kind.selection_text(after)),
        after ==> stands_in(", after: $after"@, kind.selection_text(after)),
        kind == PullConnection::Reviews ==> stands_in(
            ", author: $viewer"@,
            kind.selection_text(after),
        ),
        kind == PullConnection::ReviewRequestedEvents ==> stands_in(
            ", itemTypes: [REVIEW_REQUESTED_EVENT]"@,
            kind.selection_text(after),
        ),
{
    let text = kind.selection_text(after);
    let field = kind.field_text();
    let arguments = kind.arguments_text();
    let cursor = if after {
        ", after: $after"@
    } else {
        ""@
    };
    let rest = ") { pageInfo { hasNextPage endCursor } nodes { "@;
    let nodes = kind.nodes_text() + " } }"@;
    assert(text =~= around(field, "(first: 100"@, arguments + cursor + rest + nodes));
    assert(text =~= around(field + "(first: 100"@, arguments, cursor + rest + nodes));
    assert(text =~= around(field + "(first: 100"@ + arguments, cursor, rest + nodes));
    reveal_strlit(") { pageInfo { hasNextPage endCursor } nodes { ");
    reveal_strlit(") { ");
    reveal_strlit("pageInfo { hasNextPage endCursor }");
    reveal_strlit(" nodes { ");
    assert(rest =~= ") { "@ + "pageInfo { hasNextPage endCursor }"@ + " nodes { "@);
    assert(text =~= around(
        field + "(first: 100"@ + arguments + cursor + ") { "@,
        "pageInfo { hasNextPage endCursor }"@,
        " nodes { "@ + nodes,
    ));
}

/// When nothing waits to be read, the next batch is asked for with the login of the
/// asker, or the list is done.
pub proof fn queries_are_made_for_the_asker(reading: ReadingModel)
    requires
        reading.waiting.len() == 0,
    ensures
        reading.next_step() matches Ok(StepModel::Batch { reading: next, batch, query }) ==> {
            &&& next == reading
            &&& batch == reading.next_batch()
            &&& query == batch_query(batch, reading.asker.login)
        },
        reading.next_step() matches Ok(StepModel::Done(states)) ==> states == reading.states
            && reading.states.len() >= reading.pulls.len(),
        !(reading.next_step() matches Ok(StepModel::Page { .. })),
{
}

} // verus!
