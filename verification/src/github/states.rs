//! Reading the states of many pull requests.
//!
//! A list is asked for in batches. The answer to a batch holds the first pages of
//! its pull requests; further pages are asked for one at a time. Each step names
//! the query to send, and takes the answer to it.

pub mod laws;

use vstd::prelude::*;
use crate::github::client::GhClient;
use crate::github::graphql::{
    aliases_of, batch_names, batch_numbers, batch_outcomes, batch_text, distinct_names,
    names_valid, outcome_model, outcome_models, outcomes_of, pull_models, pull_request_batch,
    valid_name_splits, variables_for, Answer, ConnectionPage, GraphErrorEntry, GraphQuery,
    PageModel, PageReader, QueryModel, ReaderModel, PULL_REQUEST_BATCH_SIZE,
};
use crate::github::pulls::{graph_state, GraphPullRequest, PagedModel};
use crate::github::{valid_full_name, GhError, GhErrorModel};
use crate::model::{PullModel, PullRequestState, Viewer};
use crate::order::models;

verus! {

// ---------------------------------------------------------------------------
// The steps
// ---------------------------------------------------------------------------

/// Who asks, and what is known of their teams.
#[derive(Debug, PartialEq, Eq)]
pub struct Asker {
    pub viewer: Viewer,
    pub team_ids: Vec<i64>,
    pub trust_team_notification: bool,
}

pub struct AskerModel {
    pub login: Seq<char>,
    pub id: i64,
    pub team_ids: Seq<i64>,
    pub trust_team_notification: bool,
}

impl View for Asker {
    type V = AskerModel;

    open spec fn view(&self) -> AskerModel {
        AskerModel {
            login: self.viewer.login@,
            id: self.viewer.id,
            team_ids: self.team_ids@,
            trust_team_notification: self.trust_team_notification,
        }
    }
}

/// A list of pull requests that is being read.
pub struct StatesReading {
    pub asker: Asker,
    pub pulls: Vec<(String, u64)>,
    /// What came of the first pull requests.
    pub states: Vec<Result<PullRequestState, GhError>>,
    /// What was answered of the ones after them.
    pub waiting: Vec<Result<GraphPullRequest, GhError>>,
}

pub struct ReadingModel {
    pub asker: AskerModel,
    pub pulls: Seq<(Seq<char>, u64)>,
    pub states: Seq<Result<PullModel, GhErrorModel>>,
    pub waiting: Seq<Result<PagedModel, GhErrorModel>>,
}

pub open spec fn state_models(states: Seq<Result<PullRequestState, GhError>>) -> Seq<
    Result<PullModel, GhErrorModel>,
> {
    states.map_values(|state: Result<PullRequestState, GhError>| GhError::result_model(state))
}

impl View for StatesReading {
    type V = ReadingModel;

    open spec fn view(&self) -> ReadingModel {
        ReadingModel {
            asker: self.asker@,
            pulls: pull_models(self.pulls@),
            states: state_models(self.states@),
            waiting: outcome_models(self.waiting@),
        }
    }
}

/// A query for a batch was sent.
pub struct BatchAsked {
    pub reading: StatesReading,
    pub batch: Vec<(String, u64)>,
    pub aliases: Vec<usize>,
    pub query: GraphQuery,
}

/// A query for a page of the next pull request was sent.
pub struct PageAsked {
    pub reading: StatesReading,
    pub reader: PageReader,
    pub query: GraphQuery,
}

/// What to do next for a list.
pub enum StatesStep {
    /// Send the query of a batch.
    Batch(BatchAsked),
    /// Send the query of a page.
    Page(PageAsked),
    /// Everything was read: what came of each pull request, in order.
    Done(Vec<Result<PullRequestState, GhError>>),
}

pub enum StepModel {
    Batch { reading: ReadingModel, batch: Seq<(Seq<char>, u64)>, query: QueryModel },
    Page { reading: ReadingModel, reader: ReaderModel, query: QueryModel },
    Done(Seq<Result<PullModel, GhErrorModel>>),
}

impl View for StatesStep {
    type V = StepModel;

    open spec fn view(&self) -> StepModel {
        match *self {
            StatesStep::Batch(asked) => StepModel::Batch {
                reading: asked.reading@,
                batch: pull_models(asked.batch@),
                query: asked.query@,
            },
            StatesStep::Page(asked) => StepModel::Page {
                reading: asked.reading@,
                reader: asked.reader@,
                query: asked.query@,
            },
            StatesStep::Done(states) => StepModel::Done(state_models(states@)),
        }
    }
}

pub open spec fn names_of(pulls: Seq<(Seq<char>, u64)>) -> Seq<Seq<char>> {
    pulls.map_values(|p: (Seq<char>, u64)| p.0)
}

pub open spec fn numbers_of(pulls: Seq<(Seq<char>, u64)>) -> Seq<u64> {
    pulls.map_values(|p: (Seq<char>, u64)| p.1)
}

/// The error for the first name from `from` on that GitHub cannot have.
pub open spec fn name_refused(names: Seq<Seq<char>>, from: int) -> Option<GhErrorModel>
    decreases names.len() - from,
{
    if from < 0 || from >= names.len() {
        None
    } else if !valid_full_name(names[from]) {
        Some(GhErrorModel::Protocol("invalid GitHub repository name: "@ + names[from]))
    } else {
        name_refused(names, from + 1)
    }
}

/// The query for a batch.
pub open spec fn batch_query(
    batch: Seq<(Seq<char>, u64)>,
    viewer_login: Seq<char>,
) -> QueryModel {
    let names = names_of(batch);
    let repositories = distinct_names(names);
    QueryModel {
        query: batch_text(numbers_of(batch), aliases_of(names), repositories.len()),
        variables: variables_for(repositories, viewer_login, repositories.len()),
    }
}

impl AskerModel {
    /// What comes of a pull request, where no further page of it has to be asked
    /// for.
    pub open spec fn finished(self, reader: ReaderModel) -> Option<
        Result<PullModel, GhErrorModel>,
    > {
        match reader.pending().0 {
            Ok(Some(_)) => None,
            Ok(None) => Some(
                graph_state(
                    reader.read.pull,
                    self.id,
                    self.team_ids,
                    self.trust_team_notification,
                ),
            ),
            Err(error) => Some(Err(error)),
        }
    }
}

impl ReadingModel {
    pub open spec fn start(asker: AskerModel, pulls: Seq<(Seq<char>, u64)>) -> ReadingModel {
        ReadingModel { asker, pulls, states: seq![], waiting: seq![] }
    }

    /// The next pull requests of the list, as many as one query may ask for.
    pub open spec fn next_batch(self) -> Seq<(Seq<char>, u64)> {
        let from = self.states.len() as int;
        let left = self.pulls.len() - from;
        self.pulls.subrange(
            from,
            from + if left < PULL_REQUEST_BATCH_SIZE {
                left
            } else {
                PULL_REQUEST_BATCH_SIZE as int
            },
        )
    }

    pub open spec fn settled(self, state: Result<PullModel, GhErrorModel>) -> ReadingModel {
        ReadingModel { states: self.states.push(state), ..self }
    }

    /// A reader of what was answered of the next pull request.
    pub open spec fn reader(self, read: PagedModel) -> ReaderModel {
        let (full_name, number) = self.pulls[self.states.len() as int];
        ReaderModel::start(full_name, number, self.asker.login, read)
    }

    pub open spec fn page_step(self, reader: ReaderModel) -> StepModel {
        StepModel::Page {
            reading: self,
            reader: reader.asked(),
            query: reader.pending().0->Ok_0->0,
        }
    }

    /// Goes on with what was answered. When all of that was read, the next batch
    /// is asked for.
    pub open spec fn next_step(self) -> Result<StepModel, GhErrorModel>
        decreases self.waiting.len(),
    {
        if self.waiting.len() == 0 {
            if self.states.len() >= self.pulls.len() {
                Ok(StepModel::Done(self.states))
            } else {
                let batch = self.next_batch();
                match name_refused(names_of(batch), 0) {
                    Some(error) => Err(error),
                    None => Ok(
                        StepModel::Batch {
                            reading: self,
                            batch,
                            query: batch_query(batch, self.asker.login),
                        },
                    ),
                }
            }
        } else {
            let rest = ReadingModel { waiting: self.waiting.drop_first(), ..self };
            match self.waiting[0] {
                Err(error) => rest.settled(Err(error)).next_step(),
                Ok(read) => match self.asker.finished(self.reader(read)) {
                    Some(state) => rest.settled(state).next_step(),
                    None => Ok(rest.page_step(self.reader(read))),
                },
            }
        }
    }

    /// Goes on with a pull request that is being read.
    pub open spec fn with_reader(self, reader: ReaderModel) -> Result<StepModel, GhErrorModel> {
        match self.asker.finished(reader) {
            Some(state) => self.settled(state).next_step(),
            None => Ok(self.page_step(reader)),
        }
    }

    /// The step after the answer to a batch.
    pub open spec fn batch_answered(
        self,
        outcomes: Seq<Result<PagedModel, GhErrorModel>>,
    ) -> Result<StepModel, GhErrorModel> {
        ReadingModel { waiting: outcomes, ..self }.next_step()
    }

    /// The step after the answer to a page. An error there is one of the pull
    /// request, not of the list.
    pub open spec fn page_answered(
        self,
        reader: ReaderModel,
        page: Result<PageModel, GhErrorModel>,
    ) -> Result<StepModel, GhErrorModel> {
        match page {
            Err(error) => self.settled(Err(error)).next_step(),
            Ok(page) => match reader.accepted(page) {
                Err(error) => self.settled(Err(error)).next_step(),
                Ok(reader) => self.with_reader(reader),
            },
        }
    }

    /// The answers that wait are those of pull requests of the list whose names
    /// were found to be valid. `current` counts the one that is being read.
    pub open spec fn wf(self, current: nat) -> bool {
        &&& self.states.len() + current + self.waiting.len() <= self.pulls.len()
        &&& forall|i: int|
            self.states.len() <= i < self.states.len() + current + self.waiting.len()
                ==> valid_full_name((#[trigger] self.pulls[i]).0)
    }
}

impl StatesStep {
    pub open spec fn wf(self) -> bool {
        match self {
            StatesStep::Batch(asked) => asked.wf(),
            StatesStep::Page(asked) => asked.wf(),
            StatesStep::Done(_) => true,
        }
    }
}

impl BatchAsked {
    pub open spec fn wf(self) -> bool {
        &&& self.reading@.waiting.len() == 0
        &&& self.reading@.states.len() + self.batch@.len() <= self.reading@.pulls.len()
        &&& pull_models(self.batch@) == self.reading@.next_batch()
        &&& names_valid(names_of(pull_models(self.batch@)))
        &&& self.aliases@.map_values(|a: usize| a as int) == aliases_of(
            names_of(pull_models(self.batch@)),
        )
    }
}

impl PageAsked {
    pub open spec fn wf(self) -> bool {
        self.reading@.wf(1) && valid_full_name(self.reader@.full_name)
    }
}

/// What became of the pull request that is being read.
enum Carried {
    Settled(Result<PullRequestState, GhError>),
    Ask(PageReader, GraphQuery),
}

impl Asker {
    /// Asks for the next page of a pull request, or settles what comes of it.
    fn carry_on(&self, reader: PageReader) -> (r: Carried)
        requires
            valid_full_name(reader@.full_name),
        ensures
            match r {
                Carried::Settled(state) => self@.finished(reader@) == Some(
                    GhError::result_model(state),
                ),
                Carried::Ask(asked, query) => self@.finished(reader@) is None && asked@
                    == reader@.asked() && reader@.pending().0 == Ok::<
                    Option<QueryModel>,
                    GhErrorModel,
                >(Some(query@)),
            },
    {
        proof {
            valid_name_splits(reader@.full_name);
        }
        let mut reader = reader;
        match reader.next_query() {
            Err(error) => Carried::Settled(Err(error)),
            Ok(Some(query)) => Carried::Ask(reader, query),
            Ok(None) => Carried::Settled(
                reader.pull.into_state(
                    &self.viewer,
                    self.team_ids.as_slice(),
                    self.trust_team_notification,
                ),
            ),
        }
    }
}

proof fn refused_is_first(names: Seq<Seq<char>>, from: int, k: int)
    requires
        0 <= from <= k < names.len(),
        !valid_full_name(names[k]),
        forall|j: int| 0 <= j < k ==> valid_full_name(#[trigger] names[j]),
    ensures
        name_refused(names, from) == Some(
            GhErrorModel::Protocol("invalid GitHub repository name: "@ + names[k]),
        ),
    decreases k - from,
{
    if from < k {
        assert(valid_full_name(names[from]));
        refused_is_first(names, from + 1, k);
    }
}

pub(crate) proof fn valid_names_pass(names: Seq<Seq<char>>, from: int)
    requires
        0 <= from,
    ensures
        (forall|j: int| from <= j < names.len() ==> valid_full_name(#[trigger] names[j]))
            <==> name_refused(names, from) is None,
    decreases names.len() - from,
{
    if from < names.len() {
        valid_names_pass(names, from + 1);
        if valid_full_name(names[from]) && name_refused(names, from) is None {
            assert forall|j: int| from <= j < names.len() implies valid_full_name(
                #[trigger] names[j],
            ) by {
                if j > from {
                    assert(valid_full_name(names[j]));
                }
            }
        }
    }
}

impl StatesReading {
    /// Asks for the next batch.
    fn ask_batch(self) -> (r: Result<StatesStep, GhError>)
        requires
            self@.wf(0),
            self@.waiting.len() == 0,
            self@.states.len() < self@.pulls.len(),
        ensures
            GhError::result_model(r) == self@.next_step(),
            r matches Ok(step) ==> step.wf(),
    {
        let ghost all = self@;
        let from: usize = self.states.len();
        let count: usize = self.pulls.len();
        assert(all.states.len() == from && all.pulls.len() == count);
        let end: usize = if count - from < PULL_REQUEST_BATCH_SIZE {
            count
        } else {
            from + PULL_REQUEST_BATCH_SIZE
        };
        let mut batch: Vec<(String, u64)> = Vec::new();
        let mut i: usize = from;
        assert(pull_models(batch@) =~= all.pulls.subrange(from as int, from as int));
        while i < end
            invariant
                from <= i <= end <= count,
                count == self.pulls@.len(),
                all.pulls == pull_models(self.pulls@),
                pull_models(batch@) == all.pulls.subrange(from as int, i as int),
            decreases end - i,
        {
            let ghost before = batch@;
            batch.push((self.pulls[i].0.clone(), self.pulls[i].1));
            assert(pull_models(batch@) =~= pull_models(before).push(all.pulls[i as int]));
            assert(all.pulls.subrange(from as int, i + 1) =~= all.pulls.subrange(
                from as int,
                i as int,
            ).push(all.pulls[i as int]));
            i = i + 1;
        }
        let ghost names = names_of(all.next_batch());
        assert(pull_models(batch@) == all.next_batch());
        assert(batch@.len() == pull_models(batch@).len());
        assert(batch_names(batch@) =~= names);
        assert(batch_numbers(batch@) =~= numbers_of(all.next_batch()));
        match pull_request_batch(&batch, self.asker.viewer.login.as_str()) {
            Ok(built) => {
                proof {
                    valid_names_pass(names, 0);
                }
                let query = built.query;
                assert(query@ == batch_query(all.next_batch(), all.asker.login));
                Ok(
                    StatesStep::Batch(
                        BatchAsked { reading: self, batch, aliases: built.aliases, query },
                    ),
                )
            },
            Err(error) => {
                proof {
                    let k = choose|k: int|
                        0 <= k < batch@.len() && !valid_full_name(
                            #[trigger] batch_names(batch@)[k],
                        ) && (forall|j: int|
                            0 <= j < k ==> valid_full_name(#[trigger] batch_names(batch@)[j]))
                            && error@ == GhErrorModel::Protocol(
                            "invalid GitHub repository name: "@ + batch_names(batch@)[k],
                        );
                    refused_is_first(names, 0, k);
                }
                Err(error)
            },
        }
    }

    /// Settles the next pull request of the list.
    fn settle(&mut self, state: Result<PullRequestState, GhError>)
        ensures
            final(self)@ == old(self)@.settled(GhError::result_model(state)),
            final(self).asker == old(self).asker,
            final(self).pulls == old(self).pulls,
            final(self).waiting == old(self).waiting,
    {
        let ghost before = self.states@;
        self.states.push(state);
        assert(state_models(self.states@) =~= state_models(before).push(
            GhError::result_model(state),
        ));
    }

    /// Goes on with what was answered.
    fn next_step(self) -> (r: Result<StatesStep, GhError>)
        requires
            self@.wf(0),
        ensures
            GhError::result_model(r) == self@.next_step(),
            r matches Ok(step) ==> step.wf(),
    {
        let ghost start = self@;
        let mut reading = self;
        while reading.waiting.len() > 0
            invariant
                start == self@,
                reading@.wf(0),
                reading@.next_step() == start.next_step(),
            decreases reading.waiting@.len(),
        {
            let ghost before = reading@;
            let place: usize = reading.states.len();
            let first = reading.waiting.remove(0);
            let ghost rest = ReadingModel { waiting: before.waiting.drop_first(), ..before };
            proof {
                assert(outcome_models(reading.waiting@) =~= before.waiting.drop_first());
                assert(before.waiting[0] == outcome_model(first));
                assert(reading@ == rest);
                assert(before.pulls[place as int] == (
                    reading.pulls@[place as int].0@,
                    reading.pulls@[place as int].1,
                ));
                assert(valid_full_name(before.pulls[place as int].0));
            }
            match first {
                Err(error) => {
                    reading.settle(Err(error));
                },
                Ok(pull) => {
                    let reader = PageReader::new(
                        reading.pulls[place].0.as_str(),
                        reading.pulls[place].1,
                        reading.asker.viewer.login.as_str(),
                        pull,
                    );
                    assert(reader@ == before.reader(pull.paged()));
                    match reading.asker.carry_on(reader) {
                        Carried::Settled(state) => {
                            reading.settle(state);
                        },
                        Carried::Ask(reader, query) => {
                            return Ok(StatesStep::Page(PageAsked { reading, reader, query }));
                        },
                    }
                },
            }
        }
        if reading.states.len() >= reading.pulls.len() {
            return Ok(StatesStep::Done(reading.states));
        }
        reading.ask_batch()
    }
}

impl BatchAsked {
    /// Takes the answer to the query: the errors in it, and what was found at the
    /// places of the pull requests. Where there is no answer, the list cannot be
    /// read.
    pub fn answered(self, answer: Result<(Vec<GraphErrorEntry>, Vec<Answer>), GhError>) -> (r:
        Result<StatesStep, GhError>)
        requires
            self.wf(),
            answer matches Ok((_, answers)) ==> answers@.len() == self.batch@.len(),
        ensures
            match answer {
                Err(error) => r matches Err(e) && e == error,
                Ok((errors, answers)) => GhError::result_model(r) == self.reading@.batch_answered(
                    outcomes_of(
                        pull_models(self.batch@),
                        aliases_of(names_of(pull_models(self.batch@))),
                        models(errors@),
                        models(answers@),
                    ),
                ),
            },
            r matches Ok(step) ==> step.wf(),
    {
        let (errors, answers) = match answer {
            Ok(answer) => answer,
            Err(error) => {
                return Err(error);
            },
        };
        let ghost before = self.reading@;
        let ghost batch = pull_models(self.batch@);
        assert(self.aliases@.map_values(|a: usize| a as int).len() == self.aliases@.len());
        assert(batch.len() == self.batch@.len());
        let mut reading = self.reading;
        reading.waiting = batch_outcomes(&self.batch, &self.aliases, &errors, answers);
        proof {
            assert(reading@.waiting.len() == batch.len());
            assert forall|i: int|
                before.states.len() <= i < before.states.len() + batch.len() implies valid_full_name(
                (#[trigger] reading@.pulls[i]).0,
            ) by {
                let k = i - before.states.len();
                assert(batch[k] == before.pulls[i]);
                assert(valid_full_name(names_of(batch)[k]));
            }
        }
        reading.next_step()
    }
}

impl PageAsked {
    /// Takes the answer to the query: the page, or why there is none.
    pub fn answered(self, page: Result<ConnectionPage, GhError>) -> (r: Result<StatesStep, GhError>)
        requires
            self.wf(),
            page matches Ok(page) ==> page@.kind() == self.reader@.stage,
        ensures
            GhError::result_model(r) == self.reading@.page_answered(
                self.reader@,
                GhError::result_model(page),
            ),
            r matches Ok(step) ==> step.wf(),
    {
        let mut reading = self.reading;
        let mut reader = self.reader;
        let ghost before = reading@;
        assert forall|state: Result<PullModel, GhErrorModel>|
            before.settled(state).wf(0) by {
            let settled = before.settled(state);
            assert forall|i: int|
                settled.states.len() <= i < settled.states.len() + settled.waiting.len()
                implies valid_full_name((#[trigger] settled.pulls[i]).0) by {
                assert(valid_full_name(before.pulls[i].0));
            }
        }
        let page = match page {
            Ok(page) => page,
            Err(error) => {
                reading.settle(Err(error));
                return reading.next_step();
            },
        };
        if let Err(error) = reader.accept(page) {
            reading.settle(Err(error));
            return reading.next_step();
        }
        match reading.asker.carry_on(reader) {
            Carried::Settled(state) => {
                reading.settle(state);
                reading.next_step()
            },
            Carried::Ask(reader, query) => Ok(
                StatesStep::Page(PageAsked { reading, reader, query }),
            ),
        }
    }
}

impl GhClient {
    /// Reads the states of pull requests. What comes of the one at a place of the
    /// list is at the same place of the result. An error instead of a step fails
    /// the whole list.
    pub fn pull_request_states(&self, pulls: Vec<(String, u64)>, asker: Asker) -> (r: Result<
        StatesStep,
        GhError,
    >)
        ensures
            GhError::result_model(r) == ReadingModel::start(
                asker@,
                pull_models(pulls@),
            ).next_step(),
            r matches Ok(step) ==> step.wf(),
    {
        let reading = StatesReading { asker, pulls, states: Vec::new(), waiting: Vec::new() };
        proof {
            assert(reading@.states =~= seq![]);
            assert(reading@.waiting =~= seq![]);
        }
        reading.next_step()
    }

    /// Reads the state of one pull request, as a list of one.
    pub fn pull_request_state(&self, full_name: &str, number: u64, asker: Asker) -> (r: Result<
        StatesStep,
        GhError,
    >)
        ensures
            GhError::result_model(r) == ReadingModel::start(
                asker@,
                seq![(full_name@, number)],
            ).next_step(),
            r matches Ok(step) ==> step.wf(),
    {
        let mut pulls: Vec<(String, u64)> = Vec::new();
        pulls.push((full_name.to_owned(), number));
        assert(pull_models(pulls@) =~= seq![(full_name@, number)]);
        self.pull_request_states(pulls, asker)
    }
}

} // verus!
