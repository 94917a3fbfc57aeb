//! The GraphQL queries, and what their answers mean.

use vstd::prelude::*;
use crate::github::http::ApiResponse;
use crate::github::pulls::{
    node_models, Connection, ConnectionModel, EndModel, EndsModel, GraphEventModel, GraphPullModel,
    GraphPullRequest, GraphReview, GraphReviewModel, GraphReviewRequest, GraphReviewRequestedEvent,
    PageInfo, PagedModel, RequestedModel,
};
use crate::github::{
    protocol_error, valid_full_name, validate_full_name, GhError, GhErrorModel, API_HOST,
    API_VERSION_HEADER,
};
use crate::model::opt_model;
use crate::number::{decimal, u64_text};
use crate::text::{
    find_char_from, find_char_in_range, join, list_contains, opt_text, push_text, split,
    split_once, str_eq, str_join, str_split_once, texts,
};

verus! {

/// Pull requests read by one query. Each reads three connections of up to a
/// hundred nodes.
pub const PULL_REQUEST_BATCH_SIZE: usize = 25;

pub const ACTOR_FIELDS: &'static str =
    "__typename login ... on User { databaseId } ... on Bot { databaseId } ... on Mannequin { databaseId }";

pub const REQUESTED_REVIEWER_FIELDS: &'static str =
    "requestedReviewer { __typename ... on User { databaseId login } ... on Team { databaseId } }";

pub const REVIEW_FIELDS: &'static str =
    "databaseId state submittedAt commit { oid } author { login ... on User { databaseId } }";

pub const CORE_FIELDS: &'static str =
    "databaseId number url title state isDraft merged headRefOid headRefName baseRefOid baseRefName author { ";

// ---------------------------------------------------------------------------
// Fields
// ---------------------------------------------------------------------------

/// The connections of a pull request that are read page by page.
#[derive(Clone, Copy, Debug, PartialEq, Eq, Structural)]
pub enum PullConnection {
    ReviewRequests,
    /// The reviews of the viewer: no others are ever used.
    Reviews,
    /// The events of the timeline that request a review.
    ReviewRequestedEvents,
}

impl PullConnection {
    pub open spec fn field_text(self) -> Seq<char> {
        match self {
            PullConnection::ReviewRequests => "reviewRequests"@,
            PullConnection::Reviews => "reviews"@,
            PullConnection::ReviewRequestedEvents => "timelineItems"@,
        }
    }

    pub fn field(self) -> (r: &'static str)
        ensures
            r@ == self.field_text(),
    {
        match self {
            PullConnection::ReviewRequests => "reviewRequests",
            PullConnection::Reviews => "reviews",
            PullConnection::ReviewRequestedEvents => "timelineItems",
        }
    }

    pub open spec fn arguments_text(self) -> Seq<char> {
        match self {
            PullConnection::ReviewRequests => ""@,
            PullConnection::Reviews => ", author: $viewer"@,
            PullConnection::ReviewRequestedEvents => ", itemTypes: [REVIEW_REQUESTED_EVENT]"@,
        }
    }

    pub open spec fn nodes_text(self) -> Seq<char> {
        match self {
            PullConnection::ReviewRequests => REQUESTED_REVIEWER_FIELDS@,
            PullConnection::Reviews => REVIEW_FIELDS@,
            PullConnection::ReviewRequestedEvents => "... on ReviewRequestedEvent { id createdAt "@
                + REQUESTED_REVIEWER_FIELDS@ + " }"@,
        }
    }

    /// The selection of a page: the first one, or the one behind `$after`.
    pub open spec fn selection_text(self, after: bool) -> Seq<char> {
        self.field_text() + "(first: 100"@ + self.arguments_text() + (if after {
            ", after: $after"@
        } else {
            ""@
        }) + ") { pageInfo { hasNextPage endCursor } nodes { "@ + self.nodes_text() + " } }"@
    }

    pub fn selection(self, after: bool) -> (r: String)
        ensures
            r@ == self.selection_text(after),
    {
        let mut r = self.field().to_owned();
        r.append("(first: 100");
        match self {
            PullConnection::ReviewRequests => r.append(""),
            PullConnection::Reviews => r.append(", author: $viewer"),
            PullConnection::ReviewRequestedEvents => r.append(
                ", itemTypes: [REVIEW_REQUESTED_EVENT]",
            ),
        }
        if after {
            r.append(", after: $after");
        } else {
            r.append("");
        }
        r.append(") { pageInfo { hasNextPage endCursor } nodes { ");
        match self {
            PullConnection::ReviewRequests => r.append(REQUESTED_REVIEWER_FIELDS),
            PullConnection::Reviews => r.append(REVIEW_FIELDS),
            PullConnection::ReviewRequestedEvents => {
                let mut nodes = "... on ReviewRequestedEvent { id createdAt ".to_owned();
                nodes.append(REQUESTED_REVIEWER_FIELDS);
                nodes.append(" }");
                r.append(nodes.as_str());
            },
        }
        r.append(" } }");
        r
    }
}

/// Everything that is read of a pull request.
pub open spec fn fields_text() -> Seq<char> {
    CORE_FIELDS@ + ACTOR_FIELDS@ + " } "@ + PullConnection::ReviewRequests.selection_text(false)
        + " "@ + PullConnection::Reviews.selection_text(false) + " "@
        + PullConnection::ReviewRequestedEvents.selection_text(false)
}

pub fn pull_request_fields() -> (r: String)
    ensures
        r@ == fields_text(),
{
    let mut r = CORE_FIELDS.to_owned();
    r.append(ACTOR_FIELDS);
    r.append(" } ");
    r.append(PullConnection::ReviewRequests.selection(false).as_str());
    r.append(" ");
    r.append(PullConnection::Reviews.selection(false).as_str());
    r.append(" ");
    r.append(PullConnection::ReviewRequestedEvents.selection(false).as_str());
    r
}

// ---------------------------------------------------------------------------
// Batches
// ---------------------------------------------------------------------------

/// The names of a batch, each once, in the order in which they first occur.
pub open spec fn distinct_names(names: Seq<Seq<char>>) -> Seq<Seq<char>>
    decreases names.len(),
{
    if names.len() == 0 {
        seq![]
    } else {
        let front = distinct_names(names.drop_last());
        if front.contains(names.last()) {
            front
        } else {
            front.push(names.last())
        }
    }
}

/// The position of a name, from `from` on.
pub open spec fn name_at(names: Seq<Seq<char>>, name: Seq<char>, from: int) -> int
    decreases names.len() - from,
{
    if from < 0 || from >= names.len() || names[from] == name {
        from
    } else {
        name_at(names, name, from + 1)
    }
}

/// For each name of a batch, which of the distinct names it is.
pub open spec fn aliases_of(names: Seq<Seq<char>>) -> Seq<int> {
    names.map_values(|n: Seq<char>| name_at(distinct_names(names), n, 0))
}

/// The declarations of the variables for `n` repositories.
pub open spec fn declarations(n: nat) -> Seq<char>
    decreases n,
{
    if n == 0 {
        "$viewer: String!"@
    } else {
        let k = decimal((n - 1) as nat);
        declarations((n - 1) as nat) + ", $o"@ + k + ": String!, $n"@ + k + ": String!"@
    }
}

/// The selections of the first `n` pull requests, as far as they belong to the
/// repository `repository`.
pub open spec fn pulls_text(numbers: Seq<u64>, aliases: Seq<int>, repository: int, n: nat) -> Seq<
    char,
>
    decreases n,
{
    if n == 0 {
        seq![]
    } else {
        let front = pulls_text(numbers, aliases, repository, (n - 1) as nat);
        if aliases[n - 1] == repository {
            front + " p"@ + decimal((n - 1) as nat) + ": pullRequest(number: "@ + decimal(
                numbers[n - 1] as nat,
            ) + ") { ...PullRequestState }"@
        } else {
            front
        }
    }
}

/// The selections of the first `n` repositories.
pub open spec fn repositories_text(numbers: Seq<u64>, aliases: Seq<int>, n: nat) -> Seq<char>
    decreases n,
{
    if n == 0 {
        seq![]
    } else {
        let k = decimal((n - 1) as nat);
        repositories_text(numbers, aliases, (n - 1) as nat) + " r"@ + k + ": repository(owner: $o"@
            + k + ", name: $n"@ + k + ") {"@ + pulls_text(numbers, aliases, n - 1, numbers.len())
            + " }"@
    }
}

/// The query for a batch. It holds numbers and aliases, and no names.
pub open spec fn batch_text(numbers: Seq<u64>, aliases: Seq<int>, repositories: nat) -> Seq<char> {
    "query("@ + declarations(repositories) + ") {"@ + repositories_text(
        numbers,
        aliases,
        repositories,
    ) + " } fragment PullRequestState on PullRequest { "@ + fields_text() + " }"@
}

/// The variables for the first `n` names: the owner and the name of each.
pub open spec fn variables_for(names: Seq<Seq<char>>, viewer_login: Seq<char>, n: nat) -> Seq<
    (Seq<char>, Seq<char>),
>
    decreases n,
{
    if n == 0 {
        seq![("viewer"@, viewer_login)]
    } else {
        let parts = split_once(names[n - 1], '/')->0;
        let k = decimal((n - 1) as nat);
        variables_for(names, viewer_login, (n - 1) as nat).push(("o"@ + k, parts.0)).push(
            ("n"@ + k, parts.1),
        )
    }
}

/// A query and its variables.
#[derive(Debug, PartialEq, Eq)]
pub struct GraphQuery {
    pub query: String,
    pub variables: Vec<(String, String)>,
}

pub struct QueryModel {
    pub query: Seq<char>,
    pub variables: Seq<(Seq<char>, Seq<char>)>,
}

/// The texts of named values.
pub open spec fn pair_texts(pairs: Seq<(String, String)>) -> Seq<(Seq<char>, Seq<char>)> {
    pairs.map_values(|p: (String, String)| (p.0@, p.1@))
}

impl View for GraphQuery {
    type V = QueryModel;

    open spec fn view(&self) -> QueryModel {
        QueryModel { query: self.query@, variables: pair_texts(self.variables@) }
    }
}

/// A query for a batch, with the alias of each pull request's repository.
#[derive(Debug, PartialEq, Eq)]
pub struct BatchQuery {
    pub query: GraphQuery,
    pub aliases: Vec<usize>,
}

pub open spec fn batch_names(batch: Seq<(String, u64)>) -> Seq<Seq<char>> {
    batch.map_values(|p: (String, u64)| p.0@)
}

pub open spec fn batch_numbers(batch: Seq<(String, u64)>) -> Seq<u64> {
    batch.map_values(|p: (String, u64)| p.1)
}

/// Every name of the batch is one that GitHub can have.
pub open spec fn names_valid(names: Seq<Seq<char>>) -> bool {
    forall|i: int| 0 <= i < names.len() ==> valid_full_name(#[trigger] names[i])
}

fn push_pair(pairs: &mut Vec<(String, String)>, name: String, value: String)
    ensures
        pair_texts(final(pairs)@) == pair_texts(old(pairs)@).push((name@, value@)),
{
    let ghost before = pairs@;
    pairs.push((name, value));
    assert(pair_texts(pairs@) =~= pair_texts(before).push((name@, value@)));
}

fn numbered(start: &str, n: usize) -> (r: String)
    ensures
        r@ == start@ + decimal(n as nat),
{
    let mut r = start.to_owned();
    r.append(u64_text(n as u64).as_str());
    r
}

pub(crate) proof fn valid_name_splits(name: Seq<char>)
    requires
        valid_full_name(name),
    ensures
        split_once(name, '/') is Some,
{
    find_char_in_range(name, '/', 0);
    if find_char_from(name, '/', 0) is None {
        assert(split(name, '/') == seq![name.skip(0)]);
    }
}

proof fn name_at_in_prefix(short: Seq<Seq<char>>, long: Seq<Seq<char>>, name: Seq<char>, from: int)
    requires
        0 <= from <= short.len() <= long.len(),
        forall|i: int| 0 <= i < short.len() ==> short[i] == #[trigger] long[i],
        exists|i: int| from <= i < short.len() && #[trigger] short[i] == name,
    ensures
        name_at(short, name, from) == name_at(long, name, from),
        from <= name_at(short, name, from) < short.len(),
        short[name_at(short, name, from)] == name,
    decreases short.len() - from,
{
    let i = choose|i: int| from <= i < short.len() && #[trigger] short[i] == name;
    assert(long[from] == short[from]);
    if short[from] != name {
        assert(from + 1 <= i);
        assert(short[i] == name);
        name_at_in_prefix(short, long, name, from + 1);
    }
}

proof fn distinct_grows(names: Seq<Seq<char>>, i: int)
    requires
        0 <= i <= names.len(),
    ensures
        distinct_names(names.take(i)).len() <= distinct_names(names).len(),
        forall|k: int|
            0 <= k < distinct_names(names.take(i)).len() ==> distinct_names(names.take(i))[k]
                == #[trigger] distinct_names(names)[k],
    decreases names.len() - i,
{
    if i < names.len() {
        distinct_grows(names, i + 1);
        let next = names.take(i + 1);
        assert(next.drop_last() =~= names.take(i));
        assert forall|k: int| 0 <= k < distinct_names(names.take(i)).len() implies distinct_names(
            names.take(i),
        )[k] == #[trigger] distinct_names(names)[k] by {
            assert(distinct_names(next)[k] == distinct_names(names.take(i))[k]);
        }
    } else {
        assert(names.take(i) =~= names);
    }
}

proof fn distinct_has(names: Seq<Seq<char>>, i: int)
    requires
        0 <= i < names.len(),
    ensures
        distinct_names(names).contains(names[i]),
    decreases names.len(),
{
    let front = names.drop_last();
    if i < front.len() {
        distinct_has(front, i);
        assert(front[i] == names[i]);
        let d = distinct_names(front);
        let k = choose|k: int| 0 <= k < d.len() && d[k] == names[i];
        assert(distinct_names(names)[k] == names[i]);
    } else {
        let d = distinct_names(names);
        if !distinct_names(front).contains(names.last()) {
            assert(d[d.len() - 1] == names.last());
        }
    }
}

proof fn distinct_from(names: Seq<Seq<char>>)
    ensures
        forall|k: int|
            0 <= k < distinct_names(names).len() ==> names.contains(
                #[trigger] distinct_names(names)[k],
            ),
        distinct_names(names).len() <= names.len(),
    decreases names.len(),
{
    if names.len() > 0 {
        let front = names.drop_last();
        distinct_from(front);
        assert forall|k: int| 0 <= k < distinct_names(names).len() implies names.contains(
            #[trigger] distinct_names(names)[k],
        ) by {
            let d = distinct_names(front);
            if k < d.len() {
                assert(d[k] == distinct_names(names)[k]);
                let j = choose|j: int| 0 <= j < front.len() && front[j] == d[k];
                assert(names[j] == d[k]);
            } else {
                assert(names[names.len() - 1] == names.last());
            }
        }
    }
}

fn find_name(names: &Vec<String>, name: &str) -> (r: usize)
    ensures
        r == name_at(texts(names@), name@, 0),
        r <= names@.len(),
        r < names@.len() <==> texts(names@).contains(name@),
        r < names@.len() ==> texts(names@)[r as int] == name@,
{
    let ghost all = texts(names@);
    let mut i: usize = 0;
    while i < names.len()
        invariant
            i <= names@.len(),
            all == texts(names@),
            all.len() == names@.len(),
            name_at(all, name@, 0) == name_at(all, name@, i as int),
            forall|j: int| 0 <= j < i ==> all[j] != name@,
        decreases names@.len() - i,
    {
        assert(all[i as int] == names@[i as int]@);
        if str_eq(names[i].as_str(), name) {
            assert(all.contains(name@));
            return i;
        }
        i += 1;
    }
    assert(!all.contains(name@));
    i
}

fn list_repositories(batch: &Vec<(String, u64)>) -> (r: Result<(Vec<String>, Vec<usize>), GhError>)
    ensures
        r is Ok <==> names_valid(batch_names(batch@)),
        r matches Ok((names, aliases)) ==> {
            &&& texts(names@) == distinct_names(batch_names(batch@))
            &&& aliases@.map_values(|a: usize| a as int) == aliases_of(batch_names(batch@))
        },
        r matches Err(error) ==> exists|i: int|
            0 <= i < batch@.len() && !valid_full_name(#[trigger] batch_names(batch@)[i]) && (forall|
                j: int,
            |
                0 <= j < i ==> valid_full_name(#[trigger] batch_names(batch@)[j])) && error@
                == GhErrorModel::Protocol(
                "invalid GitHub repository name: "@ + batch_names(batch@)[i],
            ),
{
    let ghost all = batch_names(batch@);
    let mut names: Vec<String> = Vec::new();
    let mut aliases: Vec<usize> = Vec::new();
    let mut i: usize = 0;
    assert(texts(names@) =~= distinct_names(all.take(0)));
    while i < batch.len()
        invariant
            i <= batch@.len(),
            all == batch_names(batch@),
            all.len() == batch@.len(),
            texts(names@) == distinct_names(all.take(i as int)),
            aliases@.len() == i,
            forall|j: int| 0 <= j < i ==> valid_full_name(#[trigger] all[j]),
            forall|j: int|
                0 <= j < i ==> aliases@[j] < names@.len() && #[trigger] aliases@[j] == name_at(
                    distinct_names(all),
                    all[j],
                    0,
                ),
        decreases batch@.len() - i,
    {
        let full_name = &batch[i].0;
        assert(all[i as int] == full_name@);
        if let Err(error) = validate_full_name(full_name.as_str()) {
            assert(!valid_full_name(all[i as int]));
            return Err(error);
        }
        let k = find_name(&names, full_name.as_str());
        let ghost before = distinct_names(all.take(i as int));
        proof {
            assert(all.take(i as int + 1).drop_last() =~= all.take(i as int));
            assert(all.take(i as int + 1).last() == all[i as int]);
        }
        if k == names.len() {
            push_text(&mut names, full_name.as_str());
        }
        proof {
            let now = distinct_names(all.take(i as int + 1));
            assert(texts(names@) == now);
            distinct_grows(all, i as int + 1);
            assert(now[k as int] == all[i as int]);
            name_at_in_prefix(now, distinct_names(all), all[i as int], 0);
            if k < before.len() {
                name_at_in_prefix(before, now, all[i as int], 0);
            } else {
                assert forall|j: int| 0 <= j < k implies now[j] != all[i as int] by {
                    assert(now[j] == before[j]);
                }
                name_at_first(now, all[i as int], 0, k as int);
            }
        }
        aliases.push(k);
        i += 1;
    }
    assert(all.take(i as int) =~= all);
    assert(aliases@.map_values(|a: usize| a as int) =~= aliases_of(all));
    Ok((names, aliases))
}

proof fn name_at_first(names: Seq<Seq<char>>, name: Seq<char>, from: int, k: int)
    requires
        0 <= from <= k < names.len(),
        names[k] == name,
        forall|j: int| from <= j < k ==> names[j] != name,
    ensures
        name_at(names, name, from) == k,
    decreases k - from,
{
    if from < k {
        name_at_first(names, name, from + 1, k);
    }
}

/// Builds the query for a batch. The owner and the name of a repository travel
/// as variables; the numbers of pull requests are part of the query.
pub fn pull_request_batch(batch: &Vec<(String, u64)>, viewer_login: &str) -> (r: Result<
    BatchQuery,
    GhError,
>)
    ensures
        r is Ok <==> names_valid(batch_names(batch@)),
        r matches Ok(built) ==> {
            let names = batch_names(batch@);
            let repositories = distinct_names(names);
            &&& built.aliases@.map_values(|a: usize| a as int) == aliases_of(names)
            &&& built.query@.query == batch_text(
                batch_numbers(batch@),
                aliases_of(names),
                repositories.len(),
            )
            &&& built.query@.variables == variables_for(
                repositories,
                viewer_login@,
                repositories.len(),
            )
        },
        r matches Err(error) ==> exists|i: int|
            0 <= i < batch@.len() && !valid_full_name(#[trigger] batch_names(batch@)[i]) && (forall|
                j: int,
            |
                0 <= j < i ==> valid_full_name(#[trigger] batch_names(batch@)[j])) && error@
                == GhErrorModel::Protocol(
                "invalid GitHub repository name: "@ + batch_names(batch@)[i],
            ),
{
    let (names, aliases) = match list_repositories(batch) {
        Ok(found) => found,
        Err(error) => {
            return Err(error);
        },
    };
    let ghost all = batch_names(batch@);
    let ghost repositories = distinct_names(all);
    let ghost numbers = batch_numbers(batch@);
    let ghost alias_model = aliases_of(all);
    let mut variables: Vec<(String, String)> = Vec::new();
    assert(pair_texts(variables@) =~= seq![]);
    push_pair(&mut variables, "viewer".to_owned(), viewer_login.to_owned());
    let mut declared = "$viewer: String!".to_owned();
    let mut selections = String::new();
    let mut k: usize = 0;
    assert(pair_texts(variables@) =~= variables_for(repositories, viewer_login@, 0));
    assert(selections@ =~= repositories_text(numbers, alias_model, 0));
    while k < names.len()
        invariant
            k <= names@.len(),
            names_valid(all),
            all == batch_names(batch@),
            numbers == batch_numbers(batch@),
            repositories == distinct_names(all),
            alias_model == aliases_of(all),
            aliases@.map_values(|a: usize| a as int) == alias_model,
            texts(names@) == repositories,
            repositories.len() == names@.len(),
            pair_texts(variables@) == variables_for(repositories, viewer_login@, k as nat),
            declared@ == declarations(k as nat),
            selections@ == repositories_text(numbers, alias_model, k as nat),
        decreases names@.len() - k,
    {
        proof {
            distinct_from(all);
            assert(all.contains(repositories[k as int]));
            let j = choose|j: int| 0 <= j < all.len() && all[j] == repositories[k as int];
            assert(valid_full_name(all[j]));
            valid_name_splits(repositories[k as int]);
            assert(repositories[k as int] == names@[k as int]@);
        }
        let (owner, name) = match str_split_once(names[k].as_str(), '/') {
            Some(parts) => parts,
            None => (String::new(), String::new()),
        };
        push_pair(&mut variables, numbered("o", k), owner);
        push_pair(&mut variables, numbered("n", k), name);
        let index = u64_text(k as u64);
        declared.append(", $o");
        declared.append(index.as_str());
        declared.append(": String!, $n");
        declared.append(index.as_str());
        declared.append(": String!");
        selections.append(" r");
        selections.append(index.as_str());
        selections.append(": repository(owner: $o");
        selections.append(index.as_str());
        selections.append(", name: $n");
        selections.append(index.as_str());
        selections.append(") {");
        let mut pulls = String::new();
        let mut i: usize = 0;
        assert(pulls@ =~= pulls_text(numbers, alias_model, k as int, 0));
        while i < batch.len()
            invariant
                i <= batch@.len(),
                numbers == batch_numbers(batch@),
                numbers.len() == batch@.len(),
                alias_model == aliases_of(all),
                all.len() == batch@.len(),
                aliases@.map_values(|a: usize| a as int) == alias_model,
                pulls@ == pulls_text(numbers, alias_model, k as int, i as nat),
            decreases batch@.len() - i,
        {
            assert(aliases@.len() == alias_model.len());
            assert(alias_model[i as int] == aliases@[i as int] as int);
            assert(numbers[i as int] == batch@[i as int].1);
            if aliases[i] == k {
                pulls.append(" p");
                pulls.append(u64_text(i as u64).as_str());
                pulls.append(": pullRequest(number: ");
                pulls.append(u64_text(batch[i].1).as_str());
                pulls.append(") { ...PullRequestState }");
            }
            i += 1;
        }
        selections.append(pulls.as_str());
        selections.append(" }");
        k += 1;
    }
    let mut query = "query(".to_owned();
    query.append(declared.as_str());
    query.append(") {");
    query.append(selections.as_str());
    query.append(" } fragment PullRequestState on PullRequest { ");
    query.append(pull_request_fields().as_str());
    query.append(" }");
    Ok(BatchQuery { query: GraphQuery { query, variables }, aliases })
}

/// Batches with the same numbers, whose names repeat in the same pattern, have
/// the same query: the names travel as variables.
pub proof fn names_travel_as_variables(
    numbers: Seq<u64>,
    one: Seq<Seq<char>>,
    other: Seq<Seq<char>>,
)
    requires
        aliases_of(one) == aliases_of(other),
        distinct_names(one).len() == distinct_names(other).len(),
    ensures
        batch_text(numbers, aliases_of(one), distinct_names(one).len()) == batch_text(
            numbers,
            aliases_of(other),
            distinct_names(other).len(),
        ),
{
}

/// The alias of a pull request leads to the name of its own repository.
pub proof fn alias_leads_to_repository(names: Seq<Seq<char>>, i: int)
    requires
        0 <= i < names.len(),
    ensures
        0 <= aliases_of(names)[i] < distinct_names(names).len(),
        distinct_names(names)[aliases_of(names)[i]] == names[i],
{
    distinct_has(names, i);
    let d = distinct_names(names);
    let k = choose|k: int| 0 <= k < d.len() && d[k] == names[i];
    assert(d[k] == names[i]);
    name_at_in_prefix(d, d, names[i], 0);
}

pub open spec fn pull_models(pulls: Seq<(String, u64)>) -> Seq<(Seq<char>, u64)> {
    pulls.map_values(|p: (String, u64)| (p.0@, p.1))
}

// ---------------------------------------------------------------------------
// Further pages
// ---------------------------------------------------------------------------

/// `OWNER/REPO#NUMBER`.
pub open spec fn label(full_name: Seq<char>, number: u64) -> Seq<char> {
    full_name + "#"@ + decimal(number as nat)
}

pub fn pull_label(full_name: &str, number: u64) -> (r: String)
    ensures
        r@ == label(full_name@, number),
{
    let mut r = full_name.to_owned();
    r.append("#");
    r.append(u64_text(number).as_str());
    r
}

/// The query for the page of a connection behind a cursor.
pub open spec fn page_text(kind: PullConnection, number: u64) -> Seq<char> {
    "query("@ + "$o: String!, $n: String!, $after: String!"@ + (if kind == PullConnection::Reviews {
        ", $viewer: String!"@
    } else {
        ""@
    }) + ") { r: repository(owner: $o, name: $n) { p: pullRequest(number: "@ + decimal(
        number as nat,
    ) + ") { "@ + kind.selection_text(true) + " } } }"@
}

pub open spec fn page_variables(
    full_name: Seq<char>,
    viewer_login: Seq<char>,
    kind: PullConnection,
    cursor: Seq<char>,
) -> Seq<(Seq<char>, Seq<char>)> {
    let parts = split_once(full_name, '/')->0;
    let common = seq![("o"@, parts.0), ("n"@, parts.1), ("after"@, cursor)];
    if kind == PullConnection::Reviews {
        common.push(("viewer"@, viewer_login))
    } else {
        common
    }
}

/// What to ask for next of a connection whose last page ended as `info` says,
/// where the cursors in `visited` were used before.
pub open spec fn next_page(
    full_name: Seq<char>,
    number: u64,
    viewer_login: Seq<char>,
    kind: PullConnection,
    has_next_page: bool,
    end_cursor: Option<Seq<char>>,
    visited: Seq<Seq<char>>,
) -> Result<Option<QueryModel>, GhErrorModel> {
    if !has_next_page {
        Ok(None)
    } else {
        match end_cursor {
            None => Err(
                GhErrorModel::Protocol(
                    label(full_name, number) + ": "@ + kind.field_text()
                        + " page has no end cursor"@,
                ),
            ),
            Some(cursor) => if visited.contains(cursor) {
                Err(
                    GhErrorModel::Protocol(
                        label(full_name, number) + ": pagination loop in "@ + kind.field_text(),
                    ),
                )
            } else {
                Ok(
                    Some(
                        QueryModel {
                            query: page_text(kind, number),
                            variables: page_variables(full_name, viewer_login, kind, cursor),
                        },
                    ),
                )
            },
        }
    }
}

/// The place of the pull request in the answer to the query for a page.
pub fn page_path() -> (r: Vec<String>)
    ensures
        texts(r@) == seq!["r"@, "p"@],
{
    let mut r: Vec<String> = Vec::new();
    assert(texts(r@) =~= seq![]);
    push_text(&mut r, "r");
    push_text(&mut r, "p");
    assert(texts(r@) =~= seq!["r"@, "p"@]);
    r
}

fn page_query(full_name: &str, number: u64, viewer_login: &str, kind: PullConnection, cursor: &str) -> (r:
    GraphQuery)
    requires
        split_once(full_name@, '/') is Some,
    ensures
        r@.query == page_text(kind, number),
        r@.variables == page_variables(full_name@, viewer_login@, kind, cursor@),
{
    let (owner, name) = match str_split_once(full_name, '/') {
        Some(parts) => parts,
        None => (String::new(), String::new()),
    };
    let mut variables: Vec<(String, String)> = Vec::new();
    assert(pair_texts(variables@) =~= seq![]);
    push_pair(&mut variables, "o".to_owned(), owner);
    push_pair(&mut variables, "n".to_owned(), name);
    push_pair(&mut variables, "after".to_owned(), cursor.to_owned());
    let mut query = "query(".to_owned();
    query.append("$o: String!, $n: String!, $after: String!");
    if kind == PullConnection::Reviews {
        push_pair(&mut variables, "viewer".to_owned(), viewer_login.to_owned());
        query.append(", $viewer: String!");
    } else {
        query.append("");
    }
    query.append(") { r: repository(owner: $o, name: $n) { p: pullRequest(number: ");
    query.append(u64_text(number).as_str());
    query.append(") { ");
    query.append(kind.selection(true).as_str());
    query.append(" } } }");
    assert(pair_texts(variables@) =~= page_variables(full_name@, viewer_login@, kind, cursor@));
    GraphQuery { query, variables }
}

/// Decides what to ask for next of a connection, and notes the cursor. A cursor
/// that comes again is a loop.
pub fn next_connection_page(
    full_name: &str,
    number: u64,
    viewer_login: &str,
    kind: PullConnection,
    page_info: &PageInfo,
    visited: &mut Vec<String>,
) -> (r: Result<Option<GraphQuery>, GhError>)
    requires
        split_once(full_name@, '/') is Some,
    ensures
        match r {
            Ok(Some(query)) => next_page(
                full_name@,
                number,
                viewer_login@,
                kind,
                page_info.has_next_page,
                opt_text(page_info.end_cursor),
                texts(old(visited)@),
            ) == Ok::<Option<QueryModel>, GhErrorModel>(Some(query@)) && texts(final(visited)@)
                == texts(old(visited)@).push(opt_text(page_info.end_cursor)->0),
            Ok(None) => next_page(
                full_name@,
                number,
                viewer_login@,
                kind,
                page_info.has_next_page,
                opt_text(page_info.end_cursor),
                texts(old(visited)@),
            ) == Ok::<Option<QueryModel>, GhErrorModel>(None) && *final(visited) == *old(visited),
            Err(error) => next_page(
                full_name@,
                number,
                viewer_login@,
                kind,
                page_info.has_next_page,
                opt_text(page_info.end_cursor),
                texts(old(visited)@),
            ) == Err::<Option<QueryModel>, GhErrorModel>(error@) && *final(visited)
                == *old(visited),
        },
{
    if !page_info.has_next_page {
        return Ok(None);
    }
    let mut message = pull_label(full_name, number);
    match &page_info.end_cursor {
        None => {
            message.append(": ");
            message.append(kind.field());
            message.append(" page has no end cursor");
            Err(GhError::Protocol(message))
        },
        Some(cursor) => if list_contains(visited, cursor.as_str()) {
            message.append(": pagination loop in ");
            message.append(kind.field());
            Err(GhError::Protocol(message))
        } else {
            push_text(visited, cursor.as_str());
            Ok(Some(page_query(full_name, number, viewer_login, kind, cursor.as_str())))
        },
    }
}

/// A cursor that is asked for was not asked for before.
pub proof fn no_cursor_is_used_twice(
    full_name: Seq<char>,
    number: u64,
    viewer_login: Seq<char>,
    kind: PullConnection,
    end_cursor: Option<Seq<char>>,
    visited: Seq<Seq<char>>,
)
    ensures
        next_page(full_name, number, viewer_login, kind, true, end_cursor, visited) matches Ok(
            Some(_),
        ) ==> end_cursor is Some && !visited.contains(end_cursor->0),
{
}

/// Adds a page to what was read of a connection. The page must be there.
pub fn absorb_page<T>(
    full_name: &str,
    number: u64,
    kind: PullConnection,
    connection: &mut Connection<T>,
    page: Option<Connection<T>>,
) -> (r: Result<(), GhError>)
    ensures
        match page {
            Some(next) => r is Ok && final(connection).page_info == next.page_info && final(connection).nodes@ == old(connection).nodes@ + next.nodes@,
            None => *final(connection) == *old(connection) && (r matches Err(error) && error@
                == GhErrorModel::Protocol(
                label(full_name@, number) + ": "@ + kind.field_text() + " page is missing"@,
            )),
        },
{
    match page {
        None => {
            let mut message = pull_label(full_name, number);
            message.append(": ");
            message.append(kind.field());
            message.append(" page is missing");
            Err(GhError::Protocol(message))
        },
        Some(next) => {
            let mut nodes = next.nodes;
            connection.nodes.append(&mut nodes);
            connection.page_info = next.page_info;
            Ok(())
        },
    }
}

/// The connection that is read after another.
pub open spec fn following(kind: PullConnection) -> Option<PullConnection> {
    match kind {
        PullConnection::ReviewRequests => Some(PullConnection::Reviews),
        PullConnection::Reviews => Some(PullConnection::ReviewRequestedEvents),
        PullConnection::ReviewRequestedEvents => None,
    }
}

/// How many connections come after one.
pub open spec fn connections_after(kind: PullConnection) -> nat {
    match kind {
        PullConnection::ReviewRequests => 2,
        PullConnection::Reviews => 1,
        PullConnection::ReviewRequestedEvents => 0,
    }
}

/// Where the last page of a connection ended.
pub open spec fn page_end(ends: EndsModel, kind: PullConnection) -> EndModel {
    match kind {
        PullConnection::ReviewRequests => ends.review_requests,
        PullConnection::Reviews => ends.reviews,
        PullConnection::ReviewRequestedEvents => ends.timeline_items,
    }
}

/// What to ask for next of a pull request, and of which connection: that of
/// `stage`, or of the first one after it that has more.
pub open spec fn pending_page(
    full_name: Seq<char>,
    number: u64,
    viewer_login: Seq<char>,
    ends: EndsModel,
    stage: PullConnection,
    visited: Seq<Seq<char>>,
) -> (Result<Option<QueryModel>, GhErrorModel>, PullConnection)
    decreases connections_after(stage),
{
    let end = page_end(ends, stage);
    let found = next_page(
        full_name,
        number,
        viewer_login,
        stage,
        end.has_next_page,
        end.end_cursor,
        visited,
    );
    match (found, following(stage)) {
        (Ok(None), Some(next)) => pending_page(
            full_name,
            number,
            viewer_login,
            ends,
            next,
            seq![],
        ),
        _ => (found, stage),
    }
}

/// Reads the further pages of the connections of a pull request, one
/// connection after another.
pub struct PageReader {
    pub full_name: String,
    pub number: u64,
    pub viewer_login: String,
    pub pull: GraphPullRequest,
    pub stage: PullConnection,
    pub visited: Vec<String>,
}

/// A page of one connection. It is `None` where the answer does not hold it.
pub enum ConnectionPage {
    ReviewRequests(Option<Connection<GraphReviewRequest>>),
    Reviews(Option<Connection<GraphReview>>),
    ReviewRequestedEvents(Option<Connection<GraphReviewRequestedEvent>>),
}

pub enum PageModel {
    ReviewRequests(Option<ConnectionModel<RequestedModel>>),
    Reviews(Option<ConnectionModel<GraphReviewModel>>),
    ReviewRequestedEvents(Option<ConnectionModel<GraphEventModel>>),
}

impl View for ConnectionPage {
    type V = PageModel;

    open spec fn view(&self) -> PageModel {
        match *self {
            ConnectionPage::ReviewRequests(page) => PageModel::ReviewRequests(opt_model(page)),
            ConnectionPage::Reviews(page) => PageModel::Reviews(opt_model(page)),
            ConnectionPage::ReviewRequestedEvents(page) => PageModel::ReviewRequestedEvents(
                opt_model(page),
            ),
        }
    }
}

impl PageModel {
    pub open spec fn kind(self) -> PullConnection {
        match self {
            PageModel::ReviewRequests(_) => PullConnection::ReviewRequests,
            PageModel::Reviews(_) => PullConnection::Reviews,
            PageModel::ReviewRequestedEvents(_) => PullConnection::ReviewRequestedEvents,
        }
    }

    /// A pull request with the page, where the answer holds it.
    pub open spec fn added_to(self, read: PagedModel) -> Option<PagedModel> {
        match self {
            PageModel::ReviewRequests(Some(page)) => Some(
                PagedModel {
                    pull: GraphPullModel {
                        review_requests: read.pull.review_requests + page.nodes,
                        ..read.pull
                    },
                    ends: EndsModel { review_requests: page.end, ..read.ends },
                },
            ),
            PageModel::Reviews(Some(page)) => Some(
                PagedModel {
                    pull: GraphPullModel {
                        reviews: read.pull.reviews + page.nodes,
                        ..read.pull
                    },
                    ends: EndsModel { reviews: page.end, ..read.ends },
                },
            ),
            PageModel::ReviewRequestedEvents(Some(page)) => Some(
                PagedModel {
                    pull: GraphPullModel {
                        timeline_items: read.pull.timeline_items + page.nodes,
                        ..read.pull
                    },
                    ends: EndsModel { timeline_items: page.end, ..read.ends },
                },
            ),
            _ => None,
        }
    }
}

pub struct ReaderModel {
    pub full_name: Seq<char>,
    pub number: u64,
    pub viewer_login: Seq<char>,
    pub read: PagedModel,
    pub stage: PullConnection,
    pub visited: Seq<Seq<char>>,
}

impl View for PageReader {
    type V = ReaderModel;

    open spec fn view(&self) -> ReaderModel {
        ReaderModel {
            full_name: self.full_name@,
            number: self.number,
            viewer_login: self.viewer_login@,
            read: self.pull.paged(),
            stage: self.stage,
            visited: texts(self.visited@),
        }
    }
}

impl ReaderModel {
    /// A reader for a pull request of which the first pages were read.
    pub open spec fn start(
        full_name: Seq<char>,
        number: u64,
        viewer_login: Seq<char>,
        read: PagedModel,
    ) -> ReaderModel {
        ReaderModel {
            full_name,
            number,
            viewer_login,
            read,
            stage: PullConnection::ReviewRequests,
            visited: seq![],
        }
    }

    /// What to ask for next, and of which connection.
    pub open spec fn pending(self) -> (Result<Option<QueryModel>, GhErrorModel>, PullConnection) {
        pending_page(
            self.full_name,
            self.number,
            self.viewer_login,
            self.read.ends,
            self.stage,
            self.visited,
        )
    }

    /// The reader when the next page was asked for: it has moved on to the
    /// connection of that page, and notes the cursor.
    pub open spec fn asked(self) -> ReaderModel {
        let (found, stage) = self.pending();
        let used = if stage == self.stage {
            self.visited
        } else {
            seq![]
        };
        ReaderModel {
            stage,
            visited: match found {
                Ok(Some(_)) => used.push(page_end(self.read.ends, stage).end_cursor->0),
                _ => used,
            },
            ..self
        }
    }

    /// The reader with a page that it asked for.
    pub open spec fn accepted(self, page: PageModel) -> Result<ReaderModel, GhErrorModel> {
        match page.added_to(self.read) {
            Some(read) => Ok(ReaderModel { read, ..self }),
            None => Err(
                GhErrorModel::Protocol(
                    label(self.full_name, self.number) + ": "@ + self.stage.field_text()
                        + " page is missing"@,
                ),
            ),
        }
    }
}

impl PageReader {
    /// A reader for a pull request of which the first pages were read.
    pub fn new(full_name: &str, number: u64, viewer_login: &str, pull: GraphPullRequest) -> (r: Self)
        ensures
            r@ == ReaderModel::start(full_name@, number, viewer_login@, pull.paged()),
    {
        let visited: Vec<String> = Vec::new();
        assert(texts(visited@) =~= Seq::<Seq<char>>::empty());
        PageReader {
            full_name: full_name.to_owned(),
            number,
            viewer_login: viewer_login.to_owned(),
            pull,
            stage: PullConnection::ReviewRequests,
            visited,
        }
    }

    /// The query for the next page, or `None` where everything was read.
    pub fn next_query(&mut self) -> (r: Result<Option<GraphQuery>, GhError>)
        requires
            split_once(old(self)@.full_name, '/') is Some,
        ensures
            final(self)@ == old(self)@.asked(),
            final(self).pull == old(self).pull,
            match r {
                Ok(Some(query)) => old(self)@.pending().0 == Ok::<Option<QueryModel>, GhErrorModel>(
                    Some(query@),
                ),
                Ok(None) => old(self)@.pending().0 == Ok::<Option<QueryModel>, GhErrorModel>(None),
                Err(error) => old(self)@.pending().0 == Err::<Option<QueryModel>, GhErrorModel>(
                    error@,
                ),
            },
    {
        let ghost start = *self;
        loop
            invariant
                start == *old(self),
                split_once(start.full_name@, '/') is Some,
                self.full_name == start.full_name,
                self.number == start.number,
                self.viewer_login == start.viewer_login,
                self.pull == start.pull,
                connections_after(self.stage) <= connections_after(start.stage),
                self.stage == start.stage ==> self.visited == start.visited,
                self.stage != start.stage ==> texts(self.visited@) == Seq::<Seq<char>>::empty(),
                self@.pending() == start@.pending(),
            decreases connections_after(self.stage),
        {
            let stage = self.stage;
            let info = match stage {
                PullConnection::ReviewRequests => &self.pull.review_requests.page_info,
                PullConnection::Reviews => &self.pull.reviews.page_info,
                PullConnection::ReviewRequestedEvents => &self.pull.timeline_items.page_info,
            };
            assert(info@ == page_end(self@.read.ends, stage));
            let found = next_connection_page(
                self.full_name.as_str(),
                self.number,
                self.viewer_login.as_str(),
                stage,
                info,
                &mut self.visited,
            );
            match found {
                Ok(None) => {
                    let next = match stage {
                        PullConnection::ReviewRequests => PullConnection::Reviews,
                        PullConnection::Reviews => PullConnection::ReviewRequestedEvents,
                        PullConnection::ReviewRequestedEvents => {
                            return Ok(None);
                        },
                    };
                    self.stage = next;
                    self.visited = Vec::new();
                    assert(texts(self.visited@) =~= Seq::<Seq<char>>::empty());
                },
                other => {
                    return other;
                },
            }
        }
    }

    /// Adds a page that was asked for.
    pub fn accept(&mut self, page: ConnectionPage) -> (r: Result<(), GhError>)
        requires
            page@.kind() == old(self)@.stage,
        ensures
            match r {
                Ok(_) => old(self)@.accepted(page@) == Ok::<ReaderModel, GhErrorModel>(
                    final(self)@,
                ),
                Err(error) => old(self)@.accepted(page@) == Err::<ReaderModel, GhErrorModel>(error@)
                    && *final(self) == *old(self),
            },
    {
        let stage = self.stage;
        let name = self.full_name.as_str();
        match page {
            ConnectionPage::ReviewRequests(page) => {
                proof {
                    nodes_join(self.pull.review_requests.nodes@, page->0.nodes@);
                }
                absorb_page(name, self.number, stage, &mut self.pull.review_requests, page)
            },
            ConnectionPage::Reviews(page) => {
                proof {
                    nodes_join(self.pull.reviews.nodes@, page->0.nodes@);
                }
                absorb_page(name, self.number, stage, &mut self.pull.reviews, page)
            },
            ConnectionPage::ReviewRequestedEvents(page) => {
                proof {
                    nodes_join(self.pull.timeline_items.nodes@, page->0.nodes@);
                }
                absorb_page(name, self.number, stage, &mut self.pull.timeline_items, page)
            },
        }
    }
}

proof fn nodes_join<T: View>(one: Seq<Option<T>>, other: Seq<Option<T>>)
    ensures
        node_models(one + other) == node_models(one) + node_models(other),
{
    assert(node_models(one + other) =~= node_models(one) + node_models(other));
}

/// Reading ends only when no connection from that of the reader on has a further
/// page.
pub proof fn reading_ends_at_the_last_page(reader: ReaderModel, kind: PullConnection)
    requires
        connections_after(kind) <= connections_after(reader.stage),
        reader.pending().0 == Ok::<Option<QueryModel>, GhErrorModel>(None),
    ensures
        !page_end(reader.read.ends, kind).has_next_page,
    decreases connections_after(reader.stage),
{
    if kind != reader.stage {
        reading_ends_at_the_last_page(
            ReaderModel { stage: following(reader.stage)->0, visited: seq![], ..reader },
            kind,
        );
    }
}

// ---------------------------------------------------------------------------
// Requests
// ---------------------------------------------------------------------------

/// What serde_json makes of an object: the members in `members`, and one member
/// `name` that is an object with the members in `inner`. All values are
/// strings. The text is that of its error.
pub uninterp spec fn encoded_object(
    members: Seq<(Seq<char>, Seq<char>)>,
    name: Seq<char>,
    inner: Seq<(Seq<char>, Seq<char>)>,
) -> Result<Seq<u8>, Seq<char>>;

/// `serde_json::to_vec` on a `Value` built from the arguments. The bytes are
/// named, not described.
#[verifier::external_body]
fn encode_object(
    members: &Vec<(String, String)>,
    name: &str,
    inner: &Vec<(String, String)>,
) -> (r: Result<Vec<u8>, String>)
    ensures
        match r {
            Ok(bytes) => encoded_object(pair_texts(members@), name@, pair_texts(inner@)) == Ok::<
                Seq<u8>,
                Seq<char>,
            >(bytes@),
            Err(message) => encoded_object(pair_texts(members@), name@, pair_texts(inner@))
                == Err::<Seq<u8>, Seq<char>>(message@),
        },
{
    let convert = |pairs: &Vec<(String, String)>| -> serde_json::Map<String, serde_json::Value> {
        let values = pairs.iter().map(|(k, v)| (k.clone(), serde_json::Value::from(v.clone())));
        values.collect()
    };
    let mut object = convert(members);
    object.insert(name.to_owned(), serde_json::Value::Object(convert(inner)));
    serde_json::to_vec(&serde_json::Value::Object(object)).map_err(|error| error.to_string())
}

/// The body of a request, once it was encoded.
pub fn accept_body(encoded: Result<Vec<u8>, String>) -> (r: Result<Vec<u8>, GhError>)
    ensures
        match encoded {
            Ok(bytes) => r == Ok::<Vec<u8>, GhError>(bytes),
            Err(message) => r matches Err(error) && error@ == GhErrorModel::Protocol(
                "could not encode GraphQL query: "@ + message@,
            ),
        },
{
    match encoded {
        Ok(bytes) => Ok(bytes),
        Err(message) => Err(
            protocol_error("could not encode GraphQL query: ", message.as_str()),
        ),
    }
}

/// The body that is sent for a query.
pub fn graphql_body(query: &GraphQuery) -> (r: Result<Vec<u8>, GhError>)
    ensures
        match encoded_object(
            seq![("query"@, query@.query)],
            "variables"@,
            query@.variables,
        ) {
            Ok(bytes) => r matches Ok(body) && body@ == bytes,
            Err(message) => r matches Err(error) && error@ == GhErrorModel::Protocol(
                "could not encode GraphQL query: "@ + message,
            ),
        },
{
    let mut members: Vec<(String, String)> = Vec::new();
    assert(pair_texts(members@) =~= seq![]);
    push_pair(&mut members, "query".to_owned(), query.query.clone());
    assert(pair_texts(members@) =~= seq![("query"@, query@.query)]);
    accept_body(encode_object(&members, "variables", &query.variables))
}

/// The arguments of `gh` for a query that it reads from its input.
pub fn graphql_args() -> (r: Vec<String>)
    ensures
        texts(r@) == seq![
            "api"@,
            "graphql"@,
            "--hostname"@,
            "github.com"@,
            "--include"@,
            "--input"@,
            "-"@,
            "-H"@,
            "X-GitHub-Api-Version: 2022-11-28"@,
        ],
{
    let mut args: Vec<String> = Vec::new();
    assert(texts(args@) =~= seq![]);
    push_text(&mut args, "api");
    push_text(&mut args, "graphql");
    push_text(&mut args, "--hostname");
    push_text(&mut args, API_HOST);
    push_text(&mut args, "--include");
    push_text(&mut args, "--input");
    push_text(&mut args, "-");
    push_text(&mut args, "-H");
    push_text(&mut args, API_VERSION_HEADER);
    assert(texts(args@) =~= seq![
        "api"@,
        "graphql"@,
        "--hostname"@,
        "github.com"@,
        "--include"@,
        "--input"@,
        "-"@,
        "-H"@,
        "X-GitHub-Api-Version: 2022-11-28"@,
    ]);
    args
}

// ---------------------------------------------------------------------------
// Errors in answers
// ---------------------------------------------------------------------------

/// An error that GraphQL reports. A segment of the path that is no name is
/// `None`.
#[derive(Debug, PartialEq, Eq)]
pub struct GraphErrorEntry {
    pub kind: Option<String>,
    pub message: String,
    pub path: Vec<Option<String>>,
}

pub struct GraphErrorModel {
    pub kind: Option<Seq<char>>,
    pub message: Seq<char>,
    pub path: Seq<Option<Seq<char>>>,
}

impl View for GraphErrorEntry {
    type V = GraphErrorModel;

    open spec fn view(&self) -> GraphErrorModel {
        GraphErrorModel {
            kind: opt_text(self.kind),
            message: self.message@,
            path: self.path@.map_values(|s: Option<String>| opt_text(s)),
        }
    }
}

impl GraphErrorModel {
    /// The error fails the whole query: it belongs to no part of the answer, or
    /// says that the rate limit is reached.
    pub open spec fn fails_query(self) -> bool {
        self.path.len() == 0 || self.kind == Some("RATE_LIMITED"@)
    }

    /// The error concerns the part of the answer at `path`: the two agree as
    /// far as both go.
    pub open spec fn applies(self, path: Seq<Seq<char>>) -> bool {
        forall|i: int|
            0 <= i < self.path.len() && i < path.len() ==> #[trigger] self.path[i] == Some(path[i])
    }

    /// The part at `path`, or something around it, does not exist.
    pub open spec fn misses(self, path: Seq<Seq<char>>) -> bool {
        self.applies(path) && self.kind == Some("NOT_FOUND"@) && self.path.len() <= path.len()
    }
}

/// Some error fails the whole query.
pub open spec fn query_fails(errors: Seq<GraphErrorModel>) -> bool {
    exists|i: int| 0 <= i < errors.len() && (#[trigger] errors[i]).fails_query()
}

fn kind_is(kind: &Option<String>, name: &str) -> (r: bool)
    ensures
        r == (opt_text(*kind) == Some(name@)),
{
    match kind {
        Some(text) => str_eq(text.as_str(), name),
        None => false,
    }
}

/// Whether a response holds an answer: its status is one of success.
pub fn graphql_succeeded(response: &ApiResponse) -> (r: bool)
    ensures
        r == (200 <= response.metadata.status < 300),
{
    200 <= response.metadata.status && response.metadata.status < 300
}

/// GraphQL reports most failures in a response of success. The response counts
/// by its status and its errors, not by how `gh` ended.
pub fn check_graphql(response: ApiResponse, errors: &Vec<GraphErrorEntry>) -> (r: Result<
    (),
    GhError,
>)
    ensures
        r is Ok <==> 200 <= response.metadata.status < 300 && !query_fails(
            crate::order::models(errors@),
        ),
        r matches Err(error) ==> error@ == (GhErrorModel::Status {
            endpoint: "graphql"@,
            metadata: response@.metadata,
            body: response@.body,
            stderr: response@.stderr,
        }),
{
    let ghost all = crate::order::models(errors@);
    let mut failed = !graphql_succeeded(&response);
    let mut i: usize = 0;
    while i < errors.len()
        invariant
            i <= errors@.len(),
            all == crate::order::models(errors@),
            failed == (!(200 <= response.metadata.status < 300) || exists|j: int|
                0 <= j < i && (#[trigger] all[j]).fails_query()),
        decreases errors@.len() - i,
    {
        assert(all[i as int] == errors@[i as int]@);
        if errors[i].path.len() == 0 || kind_is(&errors[i].kind, "RATE_LIMITED") {
            assert(all[i as int].fails_query());
            failed = true;
        }
        i += 1;
    }
    if failed {
        return Err(
            GhError::Status {
                endpoint: "graphql".to_owned(),
                metadata: response.metadata,
                body: response.body,
                stderr: response.stderr,
            },
        );
    }
    Ok(())
}

/// The place of a pull request in the answer to a batch.
pub fn answer_path(repository: usize, pull: usize) -> (r: Vec<String>)
    ensures
        texts(r@) == path_of(repository as int, pull as int),
{
    let mut r: Vec<String> = Vec::new();
    assert(texts(r@) =~= seq![]);
    push_text(&mut r, numbered("r", repository).as_str());
    push_text(&mut r, numbered("p", pull).as_str());
    assert(texts(r@) =~= path_of(repository as int, pull as int));
    r
}

/// The messages of the errors that concern `path`.
pub open spec fn messages_at(errors: Seq<GraphErrorModel>, path: Seq<Seq<char>>) -> Seq<Seq<char>>
    decreases errors.len(),
{
    if errors.len() == 0 {
        seq![]
    } else {
        let front = messages_at(errors.drop_last(), path);
        if errors.last().applies(path) {
            front.push(errors.last().message)
        } else {
            front
        }
    }
}

/// Why there is no answer at `path`, where there is none. `missing` says that
/// the answer is null there.
pub open spec fn error_at(
    errors: Seq<GraphErrorModel>,
    path: Seq<Seq<char>>,
    what: Seq<char>,
    missing: bool,
) -> Option<GhErrorModel> {
    if exists|i: int| 0 <= i < errors.len() && (#[trigger] errors[i]).misses(path) {
        Some(GhErrorModel::NotFound { what })
    } else if messages_at(errors, path).len() > 0 {
        Some(GhErrorModel::Protocol(what + ": "@ + join(messages_at(errors, path), "; "@)))
    } else if missing {
        Some(GhErrorModel::Protocol(what + " is missing from the GraphQL response"@))
    } else {
        None
    }
}

fn applies_to(error: &GraphErrorEntry, path: &Vec<String>) -> (r: bool)
    ensures
        r == error@.applies(texts(path@)),
{
    let ghost segments = error@.path;
    let ghost expected = texts(path@);
    let mut i: usize = 0;
    while i < error.path.len() && i < path.len()
        invariant
            i <= error.path@.len(),
            i <= path@.len(),
            segments == error@.path,
            segments.len() == error.path@.len(),
            expected == texts(path@),
            expected.len() == path@.len(),
            forall|j: int| 0 <= j < i ==> #[trigger] segments[j] == Some(expected[j]),
        decreases error.path@.len() - i,
    {
        assert(segments[i as int] == opt_text(error.path@[i as int]));
        assert(expected[i as int] == path@[i as int]@);
        let agrees = match &error.path[i] {
            Some(segment) => str_eq(segment.as_str(), path[i].as_str()),
            None => false,
        };
        if !agrees {
            return false;
        }
        i += 1;
    }
    true
}

/// Decides whether there is an answer at `path`. `what` names it in errors. An
/// error applies where its path and `path` agree as far as both go, so a
/// missing repository fails each of its pull requests.
pub fn result_at(
    errors: &Vec<GraphErrorEntry>,
    path: &Vec<String>,
    what: &str,
    missing: bool,
) -> (r: Result<(), GhError>)
    ensures
        match r {
            Ok(_) => error_at(crate::order::models(errors@), texts(path@), what@, missing) is None,
            Err(error) => error_at(crate::order::models(errors@), texts(path@), what@, missing)
                == Some(error@),
        },
{
    let ghost all = crate::order::models(errors@);
    let ghost place = texts(path@);
    let mut found = false;
    let mut messages: Vec<String> = Vec::new();
    let mut i: usize = 0;
    assert(texts(messages@) =~= messages_at(all.take(0), place));
    while i < errors.len()
        invariant
            i <= errors@.len(),
            all == crate::order::models(errors@),
            place == texts(path@),
            place.len() == path@.len(),
            found == (exists|j: int| 0 <= j < i && (#[trigger] all[j]).misses(place)),
            texts(messages@) == messages_at(all.take(i as int), place),
        decreases errors@.len() - i,
    {
        assert(all[i as int] == errors@[i as int]@);
        assert(all.take(i as int + 1).drop_last() =~= all.take(i as int));
        assert(all.take(i as int + 1).last() == all[i as int]);
        if applies_to(&errors[i], path) {
            if kind_is(&errors[i].kind, "NOT_FOUND") && errors[i].path.len() <= path.len() {
                assert(all[i as int].misses(place));
                found = true;
            }
            push_text(&mut messages, errors[i].message.as_str());
        }
        i += 1;
    }
    assert(all.take(i as int) =~= all);
    if found {
        return Err(GhError::NotFound { what: what.to_owned() });
    }
    if messages.len() > 0 {
        assert(texts(messages@).len() == messages@.len());
        let mut text = what.to_owned();
        text.append(": ");
        text.append(str_join(&messages, "; ").as_str());
        return Err(GhError::Protocol(text));
    }
    if missing {
        return Err(protocol_error(what, " is missing from the GraphQL response"));
    }
    Ok(())
}

/// What stands in the answer to a batch where a pull request is expected.
pub enum Answer {
    /// Nothing.
    Missing,
    Found(GraphPullRequest),
    /// Something that is no pull request.
    Malformed(GhError),
}

pub enum AnswerModel {
    Missing,
    Found(PagedModel),
    Malformed(GhErrorModel),
}

impl View for Answer {
    type V = AnswerModel;

    open spec fn view(&self) -> AnswerModel {
        match *self {
            Answer::Missing => AnswerModel::Missing,
            Answer::Found(pull) => AnswerModel::Found(pull.paged()),
            Answer::Malformed(error) => AnswerModel::Malformed(error@),
        }
    }
}

/// What was read of a pull request, or why nothing was.
pub open spec fn outcome_model(outcome: Result<GraphPullRequest, GhError>) -> Result<
    PagedModel,
    GhErrorModel,
> {
    match outcome {
        Ok(pull) => Ok(pull.paged()),
        Err(error) => Err(error@),
    }
}

pub open spec fn outcome_models(outcomes: Seq<Result<GraphPullRequest, GhError>>) -> Seq<
    Result<PagedModel, GhErrorModel>,
> {
    outcomes.map_values(|outcome: Result<GraphPullRequest, GhError>| outcome_model(outcome))
}

/// The place of a pull request in the answer to a batch.
pub open spec fn path_of(alias: int, place: int) -> Seq<Seq<char>> {
    seq!["r"@ + decimal(alias as nat), "p"@ + decimal(place as nat)]
}

/// The outcome for one pull request of a batch: where the answer to it is, is
/// given by the alias of its repository and its place in the batch.
pub open spec fn outcome_at(
    full_name: Seq<char>,
    number: u64,
    alias: int,
    place: int,
    errors: Seq<GraphErrorModel>,
    answer: AnswerModel,
) -> Result<PagedModel, GhErrorModel> {
    let what = label(full_name, number);
    match error_at(errors, path_of(alias, place), what, answer is Missing) {
        Some(error) => Err(error),
        None => match answer {
            AnswerModel::Found(pull) => Ok(pull),
            AnswerModel::Malformed(error) => Err(error),
            AnswerModel::Missing => Err(GhErrorModel::NotFound { what }),
        },
    }
}

/// The outcomes for the pull requests of a batch.
pub open spec fn outcomes_of(
    batch: Seq<(Seq<char>, u64)>,
    aliases: Seq<int>,
    errors: Seq<GraphErrorModel>,
    answers: Seq<AnswerModel>,
) -> Seq<Result<PagedModel, GhErrorModel>> {
    Seq::new(
        batch.len(),
        |i: int| outcome_at(batch[i].0, batch[i].1, aliases[i], i, errors, answers[i]),
    )
}

/// The outcomes for the pull requests of a batch, each at the place of its pull
/// request. `answers` holds what was found at the places of the pull requests.
pub fn batch_outcomes(
    batch: &Vec<(String, u64)>,
    aliases: &Vec<usize>,
    errors: &Vec<GraphErrorEntry>,
    answers: Vec<Answer>,
) -> (r: Vec<Result<GraphPullRequest, GhError>>)
    requires
        aliases@.len() == batch@.len(),
        answers@.len() == batch@.len(),
    ensures
        outcome_models(r@) == outcomes_of(
            pull_models(batch@),
            aliases@.map_values(|a: usize| a as int),
            crate::order::models(errors@),
            crate::order::models(answers@),
        ),
{
    let ghost expected = outcomes_of(
        pull_models(batch@),
        aliases@.map_values(|a: usize| a as int),
        crate::order::models(errors@),
        crate::order::models(answers@),
    );
    let mut r: Vec<Result<GraphPullRequest, GhError>> = Vec::new();
    let mut rest = answers;
    while rest.len() > 0
        invariant
            aliases@.len() == batch@.len(),
            answers@.len() == batch@.len(),
            rest@.len() <= answers@.len(),
            rest@ == answers@.take(rest@.len() as int),
            r@.len() + rest@.len() == batch@.len(),
            expected == outcomes_of(
                pull_models(batch@),
                aliases@.map_values(|a: usize| a as int),
                crate::order::models(errors@),
                crate::order::models(answers@),
            ),
            forall|k: int|
                0 <= k < r@.len() ==> outcome_model(#[trigger] r@[k]) == expected[rest@.len() + k],
        decreases rest@.len(),
    {
        let ghost done = r@;
        let i: usize = rest.len() - 1;
        let answer = match rest.pop() {
            Some(answer) => answer,
            None => Answer::Missing,
        };
        assert(answer == answers@[i as int]);
        assert(crate::order::models(answers@)[i as int] == answer@);
        assert(rest@ =~= answers@.take(i as int));
        let missing = match &answer {
            Answer::Missing => true,
            _ => false,
        };
        let path = answer_path(aliases[i], i);
        let what = pull_label(batch[i].0.as_str(), batch[i].1);
        let outcome = match result_at(errors, &path, what.as_str(), missing) {
            Err(error) => Err(error),
            Ok(_) => match answer {
                Answer::Found(pull) => Ok(pull),
                Answer::Malformed(error) => Err(error),
                Answer::Missing => Err(GhError::NotFound { what }),
            },
        };
        assert(outcome_model(outcome) == expected[i as int]);
        r.insert(0, outcome);
        assert forall|k: int| 0 <= k < r@.len() implies outcome_model(#[trigger] r@[k])
            == expected[i + k] by {
            if k > 0 {
                assert(r@[k] == done[k - 1]);
            }
        }
    }
    assert(outcome_models(r@) =~= expected);
    r
}

/// A missing repository fails each of its pull requests.
pub proof fn missing_repository_fails_its_pulls(
    errors: Seq<GraphErrorModel>,
    i: int,
    repository: Seq<char>,
    pull: Seq<char>,
    what: Seq<char>,
    missing: bool,
)
    requires
        0 <= i < errors.len(),
        errors[i].kind == Some("NOT_FOUND"@),
        errors[i].path == seq![Some(repository)],
    ensures
        error_at(errors, seq![repository, pull], what, missing) == Some(
            GhErrorModel::NotFound { what },
        ),
{
    assert(errors[i].misses(seq![repository, pull]));
}

} // verus!
