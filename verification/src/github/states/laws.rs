//! What holds of every list that is read.

use vstd::prelude::*;
use crate::github::graphql::{
    alias_leads_to_repository, aliases_of, connections_after, following, label, messages_at,
    names_valid, outcomes_of, path_of,
    AnswerModel, GraphErrorModel, PageModel, PullConnection, QueryModel, ReaderModel,
};
use crate::github::pulls::PagedModel;
use crate::github::states::{
    name_refused, names_of, valid_names_pass, AskerModel, ReadingModel, StepModel,
};
use crate::github::{valid_full_name, GhErrorModel};
use crate::model::PullModel;
use crate::number::{decimal, decimal_reads_back};

verus! {

/// The error says that a name of the list is one that GitHub cannot have.
pub open spec fn refused_by_name(pulls: Seq<(Seq<char>, u64)>, error: GhErrorModel) -> bool {
    exists|i: int|
        0 <= i < pulls.len() && !valid_full_name((#[trigger] pulls[i]).0) && error
            == GhErrorModel::Protocol("invalid GitHub repository name: "@ + pulls[i].0)
}

proof fn refused_name_is_there(names: Seq<Seq<char>>, from: int) -> (k: int)
    requires
        0 <= from,
        name_refused(names, from) is Some,
    ensures
        from <= k < names.len(),
        !valid_full_name(names[k]),
        name_refused(names, from) == Some(
            GhErrorModel::Protocol("invalid GitHub repository name: "@ + names[k]),
        ),
    decreases names.len() - from,
{
    if !valid_full_name(names[from]) {
        from
    } else {
        refused_name_is_there(names, from + 1)
    }
}

/// What GitHub answers while pull requests are read.
pub struct GitHubModel {
    /// What the answer to a batch holds of a pull request.
    pub found: spec_fn(Seq<char>, u64) -> Result<PagedModel, GhErrorModel>,
    /// The page of a connection that a query asks for.
    pub page: spec_fn(PullConnection, QueryModel) -> Result<PageModel, GhErrorModel>,
}

impl GitHubModel {
    pub open spec fn outcomes(self, batch: Seq<(Seq<char>, u64)>) -> Seq<
        Result<PagedModel, GhErrorModel>,
    > {
        batch.map_values(|p: (Seq<char>, u64)| (self.found)(p.0, p.1))
    }

    /// What comes of a step, where at most `fuel` more queries are sent.
    pub open spec fn run(self, step: Result<StepModel, GhErrorModel>, fuel: nat) -> Option<
        Result<Seq<Result<PullModel, GhErrorModel>>, GhErrorModel>,
    >
        decreases fuel,
    {
        match step {
            Err(error) => Some(Err(error)),
            Ok(StepModel::Done(states)) => Some(Ok(states)),
            Ok(StepModel::Batch { reading, batch, query }) => if fuel == 0 {
                None
            } else {
                self.run(reading.batch_answered(self.outcomes(batch)), (fuel - 1) as nat)
            },
            Ok(StepModel::Page { reading, reader, query }) => if fuel == 0 {
                None
            } else {
                self.run(
                    reading.page_answered(reader, (self.page)(reader.stage, query)),
                    (fuel - 1) as nat,
                )
            },
        }
    }

    /// A list is read with so many queries.
    pub open spec fn reads_within(
        self,
        asker: AskerModel,
        pulls: Seq<(Seq<char>, u64)>,
        states: Seq<Result<PullModel, GhErrorModel>>,
        fuel: nat,
    ) -> bool {
        self.run(ReadingModel::start(asker, pulls).next_step(), fuel) == Some(
            Ok::<Seq<Result<PullModel, GhErrorModel>>, GhErrorModel>(states),
        )
    }

    /// A list is read, and `states` comes of it.
    pub open spec fn reads(
        self,
        asker: AskerModel,
        pulls: Seq<(Seq<char>, u64)>,
        states: Seq<Result<PullModel, GhErrorModel>>,
    ) -> bool {
        exists|fuel: nat| #[trigger] self.reads_within(asker, pulls, states, fuel)
    }

    /// What comes of a pull request whose pages are read, where at most `fuel`
    /// of them are asked for.
    spec fn pages(self, asker: AskerModel, reader: ReaderModel, fuel: nat) -> Option<
        Result<PullModel, GhErrorModel>,
    >
        decreases fuel,
    {
        match asker.finished(reader) {
            Some(state) => Some(state),
            None => if fuel == 0 {
                None
            } else {
                let asked = reader.asked();
                match (self.page)(asked.stage, reader.pending().0->Ok_0->0) {
                    Err(error) => Some(Err(error)),
                    Ok(page) => match asked.accepted(page) {
                        Err(error) => Some(Err(error)),
                        Ok(reader) => self.pages(asker, reader, (fuel - 1) as nat),
                    },
                }
            },
        }
    }

    /// The same, once the next page was asked for.
    spec fn after(
        self,
        asker: AskerModel,
        asked: ReaderModel,
        query: QueryModel,
        fuel: nat,
    ) -> Option<Result<PullModel, GhErrorModel>> {
        if fuel == 0 {
            None
        } else {
            match (self.page)(asked.stage, query) {
                Err(error) => Some(Err(error)),
                Ok(page) => match asked.accepted(page) {
                    Err(error) => Some(Err(error)),
                    Ok(reader) => self.pages(asker, reader, (fuel - 1) as nat),
                },
            }
        }
    }

    spec fn alone(self, asker: AskerModel, pull: (Seq<char>, u64), fuel: nat) -> Option<
        Result<PullModel, GhErrorModel>,
    > {
        match (self.found)(pull.0, pull.1) {
            Err(error) => Some(Err(error)),
            Ok(read) => self.pages(
                asker,
                ReaderModel::start(pull.0, pull.1, asker.login, read),
                fuel,
            ),
        }
    }

    /// `state` comes of a pull request that is read by itself.
    spec fn settles(
        self,
        asker: AskerModel,
        pull: (Seq<char>, u64),
        state: Result<PullModel, GhErrorModel>,
    ) -> bool {
        exists|fuel: nat| #[trigger] self.alone(asker, pull, fuel) == Some(state)
    }

    /// What was settled of a list is what comes of its pull requests by
    /// themselves.
    spec fn agrees(
        self,
        asker: AskerModel,
        pulls: Seq<(Seq<char>, u64)>,
        states: Seq<Result<PullModel, GhErrorModel>>,
    ) -> bool {
        &&& states.len() <= pulls.len()
        &&& forall|i: int|
            0 <= i < states.len() ==> valid_full_name((#[trigger] pulls[i]).0) && self.settles(
                asker,
                pulls[i],
                states[i],
            )
    }

    /// The answers that wait are those of the pull requests behind the current
    /// one.
    spec fn waits(self, reading: ReadingModel, current: nat) -> bool {
        &&& reading.wf(current)
        &&& forall|k: int|
            0 <= k < reading.waiting.len() ==> #[trigger] reading.waiting[k] == {
                let pull = reading.pulls[reading.states.len() + current + k];
                (self.found)(pull.0, pull.1)
            }
    }

    spec fn sound(
        self,
        asker: AskerModel,
        pulls: Seq<(Seq<char>, u64)>,
        step: Result<StepModel, GhErrorModel>,
    ) -> bool {
        match step {
            Err(error) => refused_by_name(pulls, error),
            Ok(StepModel::Done(states)) => states.len() == pulls.len() && self.agrees(
                asker,
                pulls,
                states,
            ),
            Ok(StepModel::Batch { reading, batch, query }) => {
                &&& reading.asker == asker && reading.pulls == pulls
                &&& self.agrees(asker, pulls, reading.states)
                &&& reading.states.len() < pulls.len()
                &&& batch == reading.next_batch()
                &&& name_refused(names_of(batch), 0) is None
            },
            Ok(StepModel::Page { reading, reader, query }) => {
                &&& reading.asker == asker && reading.pulls == pulls
                &&& self.agrees(asker, pulls, reading.states)
                &&& self.waits(reading, 1)
                &&& forall|fuel: nat|
                    (#[trigger] self.after(asker, reader, query, fuel)) matches Some(state)
                        ==> self.settles(asker, pulls[reading.states.len() as int], state)
            },
        }
    }

    proof fn settling_agrees(
        self,
        reading: ReadingModel,
        state: Result<PullModel, GhErrorModel>,
    )
        requires
            self.agrees(reading.asker, reading.pulls, reading.states),
            self.waits(reading, 1),
            self.settles(reading.asker, reading.pulls[reading.states.len() as int], state),
        ensures
            self.agrees(reading.asker, reading.pulls, reading.settled(state).states),
            self.waits(reading.settled(state), 0),
    {
        let after = reading.settled(state);
        let n = reading.states.len();
        assert(valid_full_name(reading.pulls[n as int].0));
        assert forall|i: int| 0 <= i < after.states.len() implies valid_full_name(
            (#[trigger] reading.pulls[i]).0,
        ) && self.settles(reading.asker, reading.pulls[i], after.states[i]) by {
            if i < n {
                assert(after.states[i] == reading.states[i]);
            }
        }
        assert forall|i: int|
            after.states.len() <= i < after.states.len() + after.waiting.len() implies valid_full_name(
            (#[trigger] after.pulls[i]).0,
        ) by {
            assert(valid_full_name(reading.pulls[i].0));
        }
    }

    /// Taking up the first answer that waits leaves the others waiting.
    proof fn taking_up_waits(self, reading: ReadingModel)
        requires
            self.waits(reading, 0),
            reading.waiting.len() > 0,
        ensures
            self.waits(ReadingModel { waiting: reading.waiting.drop_first(), ..reading }, 1),
    {
        let rest = ReadingModel { waiting: reading.waiting.drop_first(), ..reading };
        assert forall|k: int| 0 <= k < rest.waiting.len() implies #[trigger] rest.waiting[k] == {
            let pull = rest.pulls[rest.states.len() + 1 + k];
            (self.found)(pull.0, pull.1)
        } by {
            assert(rest.waiting[k] == reading.waiting[k + 1]);
        }
        assert forall|i: int|
            rest.states.len() <= i < rest.states.len() + 1 + rest.waiting.len() implies valid_full_name(
            (#[trigger] rest.pulls[i]).0,
        ) by {
            assert(valid_full_name(reading.pulls[i].0));
        }
    }

    proof fn next_step_is_sound(self, reading: ReadingModel)
        requires
            self.agrees(reading.asker, reading.pulls, reading.states),
            self.waits(reading, 0),
        ensures
            self.sound(reading.asker, reading.pulls, reading.next_step()),
        decreases reading.waiting.len(), 0nat,
    {
        if reading.waiting.len() > 0 {
            let rest = ReadingModel { waiting: reading.waiting.drop_first(), ..reading };
            let pull = reading.pulls[reading.states.len() as int];
            self.taking_up_waits(reading);
            assert(reading.waiting[0] == (self.found)(pull.0, pull.1));
            match reading.waiting[0] {
                Err(error) => {
                    assert(self.alone(reading.asker, pull, 0) == Some(
                        Err::<PullModel, GhErrorModel>(error),
                    ));
                    self.settling_agrees(rest, Err(error));
                    self.next_step_is_sound(rest.settled(Err(error)));
                },
                Ok(read) => {
                    let reader = reading.reader(read);
                    assert forall|fuel: nat| true implies ((#[trigger] self.pages(
                        reading.asker,
                        reader,
                        fuel,
                    )) matches Some(state) ==> self.settles(reading.asker, pull, state)) by {
                        assert(self.alone(reading.asker, pull, fuel) == self.pages(
                            reading.asker,
                            reader,
                            fuel,
                        ));
                    }
                    self.with_reader_is_sound(rest, reader);
                },
            }
        } else if reading.states.len() < reading.pulls.len() {
            let batch = reading.next_batch();
            if name_refused(names_of(batch), 0) is Some {
                let k = refused_name_is_there(names_of(batch), 0);
                assert(batch[k] == reading.pulls[reading.states.len() + k]);
            }
        }
    }

    proof fn with_reader_is_sound(self, reading: ReadingModel, reader: ReaderModel)
        requires
            self.agrees(reading.asker, reading.pulls, reading.states),
            self.waits(reading, 1),
            forall|fuel: nat|
                (#[trigger] self.pages(reading.asker, reader, fuel)) matches Some(state)
                    ==> self.settles(
                    reading.asker,
                    reading.pulls[reading.states.len() as int],
                    state,
                ),
        ensures
            self.sound(reading.asker, reading.pulls, reading.with_reader(reader)),
        decreases reading.waiting.len(), 1nat,
    {
        let asker = reading.asker;
        let pull = reading.pulls[reading.states.len() as int];
        match asker.finished(reader) {
            Some(state) => {
                assert(self.pages(asker, reader, 0) == Some(state));
                self.settling_agrees(reading, state);
                self.next_step_is_sound(reading.settled(state));
            },
            None => {
                let asked = reader.asked();
                let query = reader.pending().0->Ok_0->0;
                assert forall|fuel: nat| true implies ((#[trigger] self.after(
                    asker,
                    asked,
                    query,
                    fuel,
                )) matches Some(state) ==> self.settles(asker, pull, state)) by {
                    assert(self.after(asker, asked, query, fuel) == self.pages(
                        asker,
                        reader,
                        fuel,
                    ));
                }
            },
        }
    }

    proof fn page_answered_is_sound(
        self,
        reading: ReadingModel,
        reader: ReaderModel,
        query: QueryModel,
    )
        requires
            self.sound(reading.asker, reading.pulls, Ok(StepModel::Page { reading, reader, query })),
        ensures
            self.sound(
                reading.asker,
                reading.pulls,
                reading.page_answered(reader, (self.page)(reader.stage, query)),
            ),
    {
        let asker = reading.asker;
        let pull = reading.pulls[reading.states.len() as int];
        let page = (self.page)(reader.stage, query);
        let first = self.after(asker, reader, query, 1);
        match page {
            Err(error) => {
                assert(first == Some(Err::<PullModel, GhErrorModel>(error)));
                self.settling_agrees(reading, Err(error));
                self.next_step_is_sound(reading.settled(Err(error)));
            },
            Ok(page) => match reader.accepted(page) {
                Err(error) => {
                    assert(first == Some(Err::<PullModel, GhErrorModel>(error)));
                    self.settling_agrees(reading, Err(error));
                    self.next_step_is_sound(reading.settled(Err(error)));
                },
                Ok(further) => {
                    assert forall|fuel: nat| true implies ((#[trigger] self.pages(
                        asker,
                        further,
                        fuel,
                    )) matches Some(state) ==> self.settles(asker, pull, state)) by {
                        assert(self.after(asker, reader, query, fuel + 1) == self.pages(
                            asker,
                            further,
                            fuel,
                        ));
                    }
                    self.with_reader_is_sound(reading, further);
                },
            },
        }
    }

    proof fn batch_answered_is_sound(
        self,
        reading: ReadingModel,
        batch: Seq<(Seq<char>, u64)>,
        query: QueryModel,
    )
        requires
            self.sound(reading.asker, reading.pulls, Ok(StepModel::Batch { reading, batch, query })),
        ensures
            self.sound(
                reading.asker,
                reading.pulls,
                reading.batch_answered(self.outcomes(batch)),
            ),
    {
        self.batch_answers_wait(reading);
        self.next_step_is_sound(ReadingModel { waiting: self.outcomes(batch), ..reading });
    }

    proof fn batch_answers_wait(self, reading: ReadingModel)
        requires
            reading.states.len() < reading.pulls.len(),
            name_refused(names_of(reading.next_batch()), 0) is None,
        ensures
            reading.next_batch().len() > 0,
            self.waits(
                ReadingModel { waiting: self.outcomes(reading.next_batch()), ..reading },
                0,
            ),
    {
        let batch = reading.next_batch();
        let after = ReadingModel { waiting: self.outcomes(batch), ..reading };
        valid_names_pass(names_of(batch), 0);
        assert forall|i: int|
            after.states.len() <= i < after.states.len() + after.waiting.len() implies valid_full_name(
            (#[trigger] after.pulls[i]).0,
        ) by {
            let k = i - after.states.len();
            assert(batch[k] == after.pulls[i]);
            assert(valid_full_name(names_of(batch)[k]));
        }
        assert forall|k: int| 0 <= k < after.waiting.len() implies #[trigger] after.waiting[k] == {
            let pull = after.pulls[after.states.len() + 0 + k];
            (self.found)(pull.0, pull.1)
        } by {
            assert(batch[k] == after.pulls[after.states.len() + k]);
        }
    }

    proof fn runs_agree(
        self,
        asker: AskerModel,
        pulls: Seq<(Seq<char>, u64)>,
        step: Result<StepModel, GhErrorModel>,
        fuel: nat,
    )
        requires
            self.sound(asker, pulls, step),
        ensures
            match self.run(step, fuel) {
                Some(Ok(states)) => states.len() == pulls.len() && self.agrees(
                    asker,
                    pulls,
                    states,
                ),
                Some(Err(error)) => refused_by_name(pulls, error),
                None => true,
            },
        decreases fuel,
    {
        match step {
            Ok(StepModel::Batch { reading, batch, query }) if fuel > 0 => {
                self.batch_answered_is_sound(reading, batch, query);
                self.runs_agree(
                    asker,
                    pulls,
                    reading.batch_answered(self.outcomes(batch)),
                    (fuel - 1) as nat,
                );
            },
            Ok(StepModel::Page { reading, reader, query }) if fuel > 0 => {
                self.page_answered_is_sound(reading, reader, query);
                self.runs_agree(
                    asker,
                    pulls,
                    reading.page_answered(reader, (self.page)(reader.stage, query)),
                    (fuel - 1) as nat,
                );
            },
            _ => {},
        }
    }

    /// The other way round: a step leads to `states`.
    spec fn leads(
        self,
        step: Result<StepModel, GhErrorModel>,
        states: Seq<Result<PullModel, GhErrorModel>>,
    ) -> bool {
        exists|fuel: nat|
            #[trigger] self.run(step, fuel) == Some(
                Ok::<Seq<Result<PullModel, GhErrorModel>>, GhErrorModel>(states),
            )
    }

    proof fn reader_leads(
        self,
        reading: ReadingModel,
        reader: ReaderModel,
        state: Result<PullModel, GhErrorModel>,
        states: Seq<Result<PullModel, GhErrorModel>>,
        fuel: nat,
    )
        requires
            self.pages(reading.asker, reader, fuel) == Some(state),
            self.leads(reading.settled(state).next_step(), states),
        ensures
            self.leads(reading.with_reader(reader), states),
        decreases fuel,
    {
        let asker = reading.asker;
        if asker.finished(reader) is None {
            let asked = reader.asked();
            let query = reader.pending().0->Ok_0->0;
            let page = (self.page)(asked.stage, query);
            let next = reading.page_answered(asked, page);
            if page is Ok && asked.accepted(page->Ok_0) is Ok {
                self.reader_leads(
                    reading,
                    asked.accepted(page->Ok_0)->Ok_0,
                    state,
                    states,
                    (fuel - 1) as nat,
                );
            }
            assert(self.leads(next, states));
            let more = choose|more: nat|
                #[trigger] self.run(next, more) == Some(
                    Ok::<Seq<Result<PullModel, GhErrorModel>>, GhErrorModel>(states),
                );
            assert(self.run(reading.with_reader(reader), more + 1) == self.run(next, more));
        }
    }

    proof fn reading_leads(
        self,
        reading: ReadingModel,
        states: Seq<Result<PullModel, GhErrorModel>>,
    )
        requires
            states.len() == reading.pulls.len(),
            self.agrees(reading.asker, reading.pulls, states),
            reading.states.len() <= states.len(),
            reading.states == states.take(reading.states.len() as int),
            self.waits(reading, 0),
        ensures
            self.leads(reading.next_step(), states),
        decreases
                reading.pulls.len() - reading.states.len(),
                if reading.waiting.len() == 0 {
                    1nat
                } else {
                    0nat
                },
    {
        let n = reading.states.len();
        if reading.waiting.len() > 0 {
            let rest = ReadingModel { waiting: reading.waiting.drop_first(), ..reading };
            let pull = reading.pulls[n as int];
            let state = states[n as int];
            self.taking_up_waits(reading);
            assert(self.settles(reading.asker, pull, state));
            assert(self.agrees(reading.asker, reading.pulls, reading.states)) by {
                assert forall|i: int| 0 <= i < n implies valid_full_name(
                    (#[trigger] reading.pulls[i]).0,
                ) && self.settles(reading.asker, reading.pulls[i], reading.states[i]) by {
                    assert(reading.states[i] == states[i]);
                }
            }
            self.settling_agrees(rest, state);
            assert(rest.settled(state).states =~= states.take(n as int + 1));
            self.reading_leads(rest.settled(state), states);
            assert(reading.waiting[0] == (self.found)(pull.0, pull.1));
            let fuel = choose|fuel: nat|
                #[trigger] self.alone(reading.asker, pull, fuel) == Some(state);
            if let Ok(read) = reading.waiting[0] {
                self.reader_leads(rest, reading.reader(read), state, states, fuel);
            }
        } else if n == reading.pulls.len() {
            assert(states.take(n as int) =~= states);
            assert(self.run(reading.next_step(), 0) == Some(
                Ok::<Seq<Result<PullModel, GhErrorModel>>, GhErrorModel>(states),
            ));
        } else {
            let batch = reading.next_batch();
            assert forall|j: int| 0 <= j < names_of(batch).len() implies valid_full_name(
                #[trigger] names_of(batch)[j],
            ) by {
                assert(batch[j] == reading.pulls[n + j]);
            }
            valid_names_pass(names_of(batch), 0);
            self.batch_answers_wait(reading);
            let after = ReadingModel { waiting: self.outcomes(batch), ..reading };
            self.reading_leads(after, states);
            let more = choose|more: nat|
                #[trigger] self.run(after.next_step(), more) == Some(
                    Ok::<Seq<Result<PullModel, GhErrorModel>>, GhErrorModel>(states),
                );
            assert(self.run(reading.next_step(), more + 1) == self.run(after.next_step(), more));
        }
    }

    /// A list is read exactly where its names are valid and each pull request
    /// comes to an end by itself.
    proof fn reads_where_agreed(
        self,
        asker: AskerModel,
        pulls: Seq<(Seq<char>, u64)>,
        states: Seq<Result<PullModel, GhErrorModel>>,
    )
        ensures
            self.reads(asker, pulls, states) <==> states.len() == pulls.len() && self.agrees(
                asker,
                pulls,
                states,
            ),
    {
        let start = ReadingModel::start(asker, pulls);
        if self.reads(asker, pulls, states) {
            let fuel = choose|fuel: nat|
                #[trigger] self.reads_within(asker, pulls, states, fuel);
            self.next_step_is_sound(start);
            self.runs_agree(asker, pulls, start.next_step(), fuel);
        }
        if states.len() == pulls.len() && self.agrees(asker, pulls, states) {
            assert(start.states =~= states.take(0));
            self.reading_leads(start, states);
            let fuel = choose|fuel: nat|
                #[trigger] self.run(start.next_step(), fuel) == Some(
                    Ok::<Seq<Result<PullModel, GhErrorModel>>, GhErrorModel>(states),
                );
            assert(self.reads_within(asker, pulls, states, fuel));
        }
    }
}

/// The result for a list has its length, and what stands at a place is what comes
/// of the pull request at that place when it is read by itself. This holds of
/// lists of any length, whether or not pull requests or repositories repeat.
pub proof fn list_is_read_like_its_members(
    github: GitHubModel,
    asker: AskerModel,
    pulls: Seq<(Seq<char>, u64)>,
    states: Seq<Result<PullModel, GhErrorModel>>,
)
    ensures
        github.reads(asker, pulls, states) <==> {
            &&& states.len() == pulls.len()
            &&& forall|i: int|
                0 <= i < pulls.len() ==> github.reads(
                    asker,
                    seq![#[trigger] pulls[i]],
                    seq![states[i]],
                )
        },
{
    github.reads_where_agreed(asker, pulls, states);
    assert forall|i: int| 0 <= i < pulls.len() && states.len() == pulls.len() implies (
    github.reads(asker, seq![#[trigger] pulls[i]], seq![states[i]]) <==> valid_full_name(
        pulls[i].0,
    ) && github.settles(asker, pulls[i], states[i])) by {
        let one = seq![pulls[i]];
        let state = seq![states[i]];
        github.reads_where_agreed(asker, one, state);
        assert(one[0] == pulls[i] && state[0] == states[i]);
    }
}

/// A pull request of which nothing is found keeps its error in the result.
pub proof fn missing_members_keep_their_error(
    github: GitHubModel,
    asker: AskerModel,
    pulls: Seq<(Seq<char>, u64)>,
    states: Seq<Result<PullModel, GhErrorModel>>,
    i: int,
    error: GhErrorModel,
)
    requires
        github.reads(asker, pulls, states),
        0 <= i < pulls.len(),
        (github.found)(pulls[i].0, pulls[i].1) == Err::<PagedModel, GhErrorModel>(error),
    ensures
        states[i] == Err::<PullModel, GhErrorModel>(error),
{
    github.reads_where_agreed(asker, pulls, states);
    assert(github.settles(asker, pulls[i], states[i]));
}

/// A list is read in one way only.
pub proof fn list_is_read_in_one_way(
    github: GitHubModel,
    step: Result<StepModel, GhErrorModel>,
    one: nat,
    other: nat,
)
    requires
        github.run(step, one) is Some,
        github.run(step, other) is Some,
    ensures
        github.run(step, one) == github.run(step, other),
    decreases one,
{
    match step {
        Ok(StepModel::Batch { reading, batch, query }) => {
            list_is_read_in_one_way(
                github,
                reading.batch_answered(github.outcomes(batch)),
                (one - 1) as nat,
                (other - 1) as nat,
            );
        },
        Ok(StepModel::Page { reading, reader, query }) => {
            list_is_read_in_one_way(
                github,
                reading.page_answered(reader, (github.page)(reader.stage, query)),
                (one - 1) as nat,
                (other - 1) as nat,
            );
        },
        _ => {},
    }
}

/// As long as queries are answered, a list fails as a whole only where one of its
/// names is one that GitHub cannot have; and there it always does, if it comes to
/// an end.
pub proof fn list_fails_by_a_name_only(
    github: GitHubModel,
    asker: AskerModel,
    pulls: Seq<(Seq<char>, u64)>,
    fuel: nat,
)
    ensures
        match github.run(ReadingModel::start(asker, pulls).next_step(), fuel) {
            Some(Err(error)) => refused_by_name(pulls, error),
            Some(Ok(_)) => names_valid(names_of(pulls)),
            None => true,
        },
{
    let start = ReadingModel::start(asker, pulls);
    github.next_step_is_sound(start);
    github.runs_agree(asker, pulls, start.next_step(), fuel);
    if let Some(Ok(states)) = github.run(start.next_step(), fuel) {
        assert forall|i: int| 0 <= i < names_of(pulls).len() implies valid_full_name(
            #[trigger] names_of(pulls)[i],
        ) by {
            assert(valid_full_name(pulls[i].0));
        }
    }
}

// ---------------------------------------------------------------------------
// Missing pull requests
// ---------------------------------------------------------------------------

/// The repositories and pull requests that exist.
pub struct ExistingModel {
    pub repositories: spec_fn(Seq<char>) -> bool,
    pub pulls: spec_fn(Seq<char>, u64) -> Option<PagedModel>,
}

impl ExistingModel {
    /// A pull request, where it and its repository exist.
    pub open spec fn at(self, pull: (Seq<char>, u64)) -> Option<PagedModel> {
        if (self.repositories)(pull.0) {
            (self.pulls)(pull.0, pull.1)
        } else {
            None
        }
    }

    /// What the answer to a batch holds of a pull request: it, or that it was not
    /// found.
    pub open spec fn found(self, full_name: Seq<char>, number: u64) -> Result<
        PagedModel,
        GhErrorModel,
    > {
        match self.at((full_name, number)) {
            Some(read) => Ok(read),
            None => Err(GhErrorModel::NotFound { what: label(full_name, number) }),
        }
    }

    /// A GitHub where these exist.
    pub open spec fn github(
        self,
        page: spec_fn(PullConnection, QueryModel) -> Result<PageModel, GhErrorModel>,
    ) -> GitHubModel {
        GitHubModel {
            found: |full_name: Seq<char>, number: u64| self.found(full_name, number),
            page,
        }
    }

    /// An error says that the pull request at a place of a batch is missing, or
    /// that its repository is.
    pub open spec fn reported(
        self,
        batch: Seq<(Seq<char>, u64)>,
        i: int,
        error: GraphErrorModel,
    ) -> bool {
        let path = path_of(aliases_of(names_of(batch))[i], i);
        &&& self.at(batch[i]) is None
        &&& error.kind == Some("NOT_FOUND"@)
        &&& error.path == seq![Some(path[0]), Some(path[1])] || (!(self.repositories)(batch[i].0)
            && error.path == seq![Some(path[0])])
    }

    /// The answer to a batch holds the pull requests that exist, and no errors but
    /// those that report missing ones, each of which is reported.
    pub open spec fn answered(
        self,
        batch: Seq<(Seq<char>, u64)>,
        errors: Seq<GraphErrorModel>,
        answers: Seq<AnswerModel>,
    ) -> bool {
        &&& answers.len() == batch.len()
        &&& forall|i: int|
            0 <= i < batch.len() ==> #[trigger] answers[i] == match self.at(batch[i]) {
                Some(read) => AnswerModel::Found(read),
                None => AnswerModel::Missing,
            }
        &&& forall|j: int|
            0 <= j < errors.len() ==> exists|i: int|
                0 <= i < batch.len() && #[trigger] self.reported(
                    batch,
                    i,
                    #[trigger] errors[j],
                )
        &&& forall|i: int|
            0 <= i < batch.len() && self.at(#[trigger] batch[i]) is None ==> exists|j: int|
                0 <= j < errors.len() && (#[trigger] errors[j]).misses(
                    path_of(aliases_of(names_of(batch))[i], i),
                )
    }
}

proof fn prefixed_decimals_differ(prefix: Seq<char>, one: nat, other: nat)
    requires
        prefix + decimal(one) == prefix + decimal(other),
    ensures
        one == other,
{
    let n = prefix.len() as int;
    assert((prefix + decimal(one)).skip(n) =~= decimal(one));
    assert((prefix + decimal(other)).skip(n) =~= decimal(other));
    decimal_reads_back(one, one + other);
    decimal_reads_back(other, one + other);
}

proof fn no_messages(errors: Seq<GraphErrorModel>, path: Seq<Seq<char>>)
    requires
        forall|j: int| 0 <= j < errors.len() ==> !(#[trigger] errors[j]).applies(path),
    ensures
        messages_at(errors, path).len() == 0,
    decreases errors.len(),
{
    if errors.len() > 0 {
        assert forall|j: int| 0 <= j < errors.drop_last().len() implies !(
        #[trigger] errors.drop_last()[j]).applies(path) by {
            assert(errors.drop_last()[j] == errors[j]);
        }
        no_messages(errors.drop_last(), path);
        assert(!errors[errors.len() - 1].applies(path));
    }
}

/// An error that reports a missing pull request does not concern one that exists.
proof fn report_concerns_no_other(
    existing: ExistingModel,
    batch: Seq<(Seq<char>, u64)>,
    error: GraphErrorModel,
    i: int,
    k: int,
)
    requires
        0 <= i < batch.len(),
        0 <= k < batch.len(),
        existing.at(batch[i]) is Some,
        existing.reported(batch, k, error),
    ensures
        !error.applies(path_of(aliases_of(names_of(batch))[i], i)),
{
    let names = names_of(batch);
    let aliases = aliases_of(names);
    let path = path_of(aliases[i], i);
    let other = path_of(aliases[k], k);
    if error.applies(path) {
        assert(error.path[0] == Some(path[0]));
        assert(error.path[0] == Some(other[0]));
        alias_leads_to_repository(names, i);
        alias_leads_to_repository(names, k);
        prefixed_decimals_differ("r"@, aliases[i] as nat, aliases[k] as nat);
        assert(names[i] == names[k]);
        if error.path.len() == 2 {
            assert(error.path[1] == Some(path[1]));
            assert(error.path[1] == Some(other[1]));
            prefixed_decimals_differ("p"@, i as nat, k as nat);
        }
    }
}

/// A pull request of a batch is not found exactly where it or its repository does
/// not exist. The others are read as if it were not in the batch.
pub proof fn missing_members_spoil_no_other(
    existing: ExistingModel,
    page: spec_fn(PullConnection, QueryModel) -> Result<PageModel, GhErrorModel>,
    batch: Seq<(Seq<char>, u64)>,
    errors: Seq<GraphErrorModel>,
    answers: Seq<AnswerModel>,
)
    requires
        existing.answered(batch, errors, answers),
    ensures
        outcomes_of(batch, aliases_of(names_of(batch)), errors, answers) == existing.github(
            page,
        ).outcomes(batch),
{
    let outcomes = outcomes_of(batch, aliases_of(names_of(batch)), errors, answers);
    assert forall|i: int| 0 <= i < batch.len() implies #[trigger] outcomes[i] == existing.found(
        batch[i].0,
        batch[i].1,
    ) by {
        let path = path_of(aliases_of(names_of(batch))[i], i);
        let answer = answers[i];
        if existing.at(batch[i]) is Some {
            assert forall|j: int| 0 <= j < errors.len() implies !(#[trigger] errors[j]).applies(
                path,
            ) by {
                let k = choose|k: int|
                    0 <= k < batch.len() && #[trigger] existing.reported(batch, k, errors[j]);
                report_concerns_no_other(existing, batch, errors[j], i, k);
            }
            no_messages(errors, path);
        } else {
            assert(existing.at(batch[i]) is None);
        }
    }
    assert(outcomes =~= existing.github(page).outcomes(batch));
}

proof fn pending_error_is_no_miss(reader: ReaderModel)
    ensures
        !(reader.pending().0 matches Err(GhErrorModel::NotFound { .. })),
    decreases connections_after(reader.stage),
{
    if let Some(next) = following(reader.stage) {
        pending_error_is_no_miss(ReaderModel { stage: next, visited: seq![], ..reader });
    }
}

proof fn pages_are_no_miss(
    github: GitHubModel,
    asker: AskerModel,
    reader: ReaderModel,
    fuel: nat,
)
    requires
        forall|kind: PullConnection, query: QueryModel|
            !((#[trigger] (github.page)(kind, query)) matches Err(GhErrorModel::NotFound { .. })),
    ensures
        !(github.pages(asker, reader, fuel) matches Some(Err(GhErrorModel::NotFound { .. }))),
    decreases fuel,
{
    pending_error_is_no_miss(reader);
    if asker.finished(reader) is None && fuel > 0 {
        let asked = reader.asked();
        if let Ok(page) = (github.page)(asked.stage, reader.pending().0->Ok_0->0) {
            if let Ok(further) = asked.accepted(page) {
                pages_are_no_miss(github, asker, further, (fuel - 1) as nat);
            }
        }
    }
}

/// In the result for a list, a pull request is not found where it or its
/// repository does not exist; and only there, as long as the pages of those that
/// exist are found.
pub proof fn missing_members_are_not_found(
    existing: ExistingModel,
    page: spec_fn(PullConnection, QueryModel) -> Result<PageModel, GhErrorModel>,
    asker: AskerModel,
    pulls: Seq<(Seq<char>, u64)>,
    states: Seq<Result<PullModel, GhErrorModel>>,
    i: int,
)
    requires
        existing.github(page).reads(asker, pulls, states),
        0 <= i < pulls.len(),
    ensures
        existing.at(pulls[i]) is None ==> states[i] == Err::<PullModel, GhErrorModel>(
            GhErrorModel::NotFound { what: label(pulls[i].0, pulls[i].1) },
        ),
        (forall|kind: PullConnection, query: QueryModel|
            !((#[trigger] page(kind, query)) matches Err(GhErrorModel::NotFound { .. })))
            ==> (states[i] matches Err(GhErrorModel::NotFound { .. }) ==> existing.at(
            pulls[i],
        ) is None),
{
    let github = existing.github(page);
    github.reads_where_agreed(asker, pulls, states);
    assert(github.settles(asker, pulls[i], states[i]));
    let fuel = choose|fuel: nat|
        #[trigger] github.alone(asker, pulls[i], fuel) == Some(states[i]);
    if let Some(read) = existing.at(pulls[i]) {
        if forall|kind: PullConnection, query: QueryModel|
            !((#[trigger] page(kind, query)) matches Err(GhErrorModel::NotFound { .. })) {
            let reader = ReaderModel::start(pulls[i].0, pulls[i].1, asker.login, read);
            pages_are_no_miss(github, asker, reader, fuel);
        }
    }
}

} // verus!
