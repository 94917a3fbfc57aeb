//! One cycle of the daemon, from its bootstraps to its sleep, as a machine: it
//! asks for one thing after the other, and each answer decides what comes next.

use vstd::prelude::*;
use crate::daemon::cycle::{
    asked_validator, bootstrap_due, bootstrap_pause, commit_notification_poll, holds_poll,
    known_mark, mark_of, next_stage, pause_after_bootstrap, polled, read_mark, stage_after,
    CycleStage,
};
use crate::daemon::retry::{asked_delay, retry_delay_for_gh_error};
use crate::daemon::HOST;
use crate::db::notifications::{page_dated, page_model};
use crate::db::registry::poll_of;
use crate::db::rows::{PollModel, PollState, RegisteredRepositoryRecord, RegistrationModel};
use crate::db::{Database, State};
use crate::github::client::{NotificationPoll, PollModel as AnswerModel};
use crate::github::{GhError, GhErrorModel};
use crate::model::{opt_model, Notification, NotificationModel};
use crate::order::{models, sorted};
use crate::table::lookup;
use crate::text::{opt_clone, opt_text};
use crate::time::{Duration, Timestamp};

verus! {

/// Where a cycle stands.
#[derive(Clone, Copy, Debug, PartialEq, Eq, Structural)]
pub enum Place {
    /// The notifications of this registration are being read.
    Bootstrap(usize),
    At(CycleStage),
}

/// A cycle that is under way.
pub struct Cycle {
    pub viewer_id: i64,
    pub interval: Duration,
    /// When the cycle began.
    pub now: i64,
    /// The registrations when the cycle began, by name.
    pub registrations: Vec<RegisteredRepositoryRecord>,
    pub place: Place,
    /// What the poll starts from.
    pub previous: Option<PollState>,
    /// How long GitHub asks to wait.
    pub server: Option<Duration>,
}

pub struct CycleModel {
    pub viewer_id: i64,
    pub interval: Duration,
    pub now: i64,
    pub registrations: Seq<RegistrationModel>,
    pub place: Place,
    pub previous: Option<PollModel>,
    pub server: Option<Duration>,
}

impl View for Cycle {
    type V = CycleModel;

    open spec fn view(&self) -> CycleModel {
        CycleModel {
            viewer_id: self.viewer_id,
            interval: self.interval,
            now: self.now,
            registrations: models(self.registrations@),
            place: self.place,
            previous: opt_model(self.previous),
            server: self.server,
        }
    }
}

/// What a cycle asks for.
pub enum CycleRequest {
    /// Read the notifications of this repository.
    Bootstrap { full_name: String },
    /// Poll the notifications of every repository.
    Poll { last_modified: Option<String>, high_water: Option<Timestamp> },
    /// Make the discoveries that are due.
    Discover,
    /// Refresh the pull requests that are due.
    Refresh,
    /// Start the reviews that are due.
    Dispatch,
    /// Sleep: the cycle is over.
    Sleep,
}

pub enum CycleRequestModel {
    Bootstrap { full_name: Seq<char> },
    Poll { last_modified: Option<Seq<char>>, high_water: Option<Timestamp> },
    Discover,
    Refresh,
    Dispatch,
    Sleep,
}

impl View for CycleRequest {
    type V = CycleRequestModel;

    open spec fn view(&self) -> CycleRequestModel {
        match self {
            CycleRequest::Bootstrap { full_name } => CycleRequestModel::Bootstrap {
                full_name: full_name@,
            },
            CycleRequest::Poll { last_modified, high_water } => CycleRequestModel::Poll {
                last_modified: opt_text(*last_modified),
                high_water: *high_water,
            },
            CycleRequest::Discover => CycleRequestModel::Discover,
            CycleRequest::Refresh => CycleRequestModel::Refresh,
            CycleRequest::Dispatch => CycleRequestModel::Dispatch,
            CycleRequest::Sleep => CycleRequestModel::Sleep,
        }
    }
}

/// What a cycle is answered. Notifications come with their raw text.
pub enum CycleAnswer {
    Bootstrapped(Result<Vec<(Notification, String)>, GhError>),
    Polled(Result<(NotificationPoll, Vec<(Notification, String)>), GhError>),
    /// A stage was gone through; GitHub answered, or not.
    Done { available: bool },
}

pub enum CycleAnswerModel {
    Bootstrapped(Result<Seq<(NotificationModel, Seq<char>)>, GhErrorModel>),
    Polled(Result<(AnswerModel, Seq<(NotificationModel, Seq<char>)>), GhErrorModel>),
    Done { available: bool },
}

impl View for CycleAnswer {
    type V = CycleAnswerModel;

    open spec fn view(&self) -> CycleAnswerModel {
        match self {
            CycleAnswer::Bootstrapped(Ok(page)) => CycleAnswerModel::Bootstrapped(
                Ok(page_model(page@)),
            ),
            CycleAnswer::Bootstrapped(Err(error)) => CycleAnswerModel::Bootstrapped(Err(error@)),
            CycleAnswer::Polled(Ok((poll, page))) => CycleAnswerModel::Polled(
                Ok((poll@, page_model(page@))),
            ),
            CycleAnswer::Polled(Err(error)) => CycleAnswerModel::Polled(Err(error@)),
            CycleAnswer::Done { available } => CycleAnswerModel::Done { available: *available },
        }
    }
}

impl CycleAnswer {
    /// Every notification in the answer has a date, and those of a poll come with
    /// their raw texts.
    pub open spec fn wf(self) -> bool {
        match self {
            CycleAnswer::Bootstrapped(Ok(page)) => page_dated(page@),
            CycleAnswer::Polled(Ok((poll, page))) => page_dated(page@) && holds_poll(page@, poll),
            _ => true,
        }
    }
}

/// The answer is one to what is asked for at a place.
pub open spec fn fits(place: Place, answer: CycleAnswerModel) -> bool {
    match place {
        Place::Bootstrap(_) => answer is Bootstrapped,
        Place::At(CycleStage::Poll) => answer is Polled,
        Place::At(CycleStage::Sleep) => false,
        Place::At(_) => answer is Done,
    }
}

/// The first registration from `from` on whose notifications are still to be
/// read, or the number of registrations.
pub open spec fn due_from(
    state: State,
    viewer_id: i64,
    registrations: Seq<RegistrationModel>,
    from: int,
) -> int
    decreases registrations.len() - from,
{
    if from >= registrations.len() {
        registrations.len() as int
    } else if state.bootstrap_pending(
        "github.com"@,
        viewer_id,
        registrations[from].repository.repository.id,
    ) == Some(true) {
        from
    } else {
        due_from(state, viewer_id, registrations, from + 1)
    }
}

impl CycleModel {
    /// The cycle goes on with the next bootstrap, or with the poll where none is
    /// due or the lease is lost.
    pub open spec fn onward(self, state: State, from: int, lease_lost: bool) -> (
        CycleModel,
        CycleRequestModel,
    ) {
        let next = due_from(state, self.viewer_id, self.registrations, from);
        if !lease_lost && next < self.registrations.len() {
            (
                CycleModel { place: Place::Bootstrap(next as usize), ..self },
                CycleRequestModel::Bootstrap {
                    full_name: self.registrations[next].repository.repository.full_name,
                },
            )
        } else {
            let previous = lookup(state.poll_states, poll_of("github.com"@, self.viewer_id));
            (
                CycleModel { place: Place::At(CycleStage::Poll), previous, ..self },
                CycleRequestModel::Poll {
                    last_modified: asked_validator(previous),
                    high_water: mark_of(known_mark(previous)),
                },
            )
        }
    }

    /// The cycle goes on with a stage.
    pub open spec fn enters(self, stage: CycleStage) -> (CycleModel, CycleRequestModel) {
        (
            CycleModel { place: Place::At(stage), ..self },
            match stage {
                CycleStage::Discover => CycleRequestModel::Discover,
                CycleStage::Refresh => CycleRequestModel::Refresh,
                CycleStage::Dispatch => CycleRequestModel::Dispatch,
                _ => CycleRequestModel::Sleep,
            },
        )
    }

    /// What follows an answer: the state, the cycle and what it asks for. `now`
    /// is the second in which the answer came.
    pub open spec fn advanced(
        self,
        state: State,
        answer: CycleAnswerModel,
        lease_lost: bool,
        now: int,
    ) -> (State, (CycleModel, CycleRequestModel)) {
        match (self.place, answer) {
            (Place::Bootstrap(i), CycleAnswerModel::Bootstrapped(Ok(page))) => {
                let stored = state.commit_bootstrap(
                    "github.com"@,
                    self.viewer_id,
                    self.registrations[i as int].repository.repository.id,
                    page,
                    self.now,
                );
                (stored, self.onward(stored, i + 1, lease_lost))
            },
            (Place::Bootstrap(i), CycleAnswerModel::Bootstrapped(Err(error))) => {
                let pause = bootstrap_pause(error, self.interval, now);
                if pause is Some {
                    (state, (CycleModel { server: pause, ..self }).enters(CycleStage::Sleep))
                } else {
                    (state, self.onward(state, i + 1, lease_lost))
                }
            },
            (Place::At(CycleStage::Poll), CycleAnswerModel::Polled(Ok((poll, page)))) => (
                polled(state, self.viewer_id, poll, page, self.previous, self.now),
                (CycleModel { server: poll.metadata.poll_interval, ..self }).enters(
                    stage_after(CycleStage::Poll, true, lease_lost),
                ),
            ),
            (Place::At(CycleStage::Poll), CycleAnswerModel::Polled(Err(error))) => (
                state,
                (CycleModel { server: asked_delay(error, now), ..self }).enters(CycleStage::Sleep),
            ),
            (Place::At(stage), CycleAnswerModel::Done { available }) => (
                state,
                self.enters(stage_after(stage, available, lease_lost)),
            ),
            _ => (state, self.enters(CycleStage::Sleep)),
        }
    }
}

/// A cycle that begins, and what it asks for first.
pub open spec fn cycle_begun(
    state: State,
    viewer_id: i64,
    interval: Duration,
    lease_lost: bool,
    now: i64,
) -> Option<(CycleModel, CycleRequestModel)> {
    if state.registrations.len() == 0 {
        None
    } else {
        Some(
            (CycleModel {
                viewer_id,
                interval,
                now,
                registrations: sorted::<RegisteredRepositoryRecord>(state.registrations),
                place: Place::At(CycleStage::Poll),
                previous: None,
                server: None,
            }).onward(state, 0, lease_lost),
        )
    }
}

impl Cycle {
    /// The place of a bootstrap is that of a registration.
    pub open spec fn wf(self) -> bool {
        self.place matches Place::Bootstrap(i) ==> i < self.registrations@.len()
    }

    fn find_due(&self, db: &Database, from: usize) -> (r: usize)
        requires
            from <= self.registrations@.len(),
        ensures
            r == due_from(db@, self.viewer_id, self@.registrations, from as int),
            from <= r <= self.registrations@.len(),
    {
        let mut i: usize = from;
        while i < self.registrations.len()
            invariant
                from <= i <= self.registrations@.len(),
                due_from(db@, self.viewer_id, self@.registrations, from as int) == due_from(
                    db@,
                    self.viewer_id,
                    self@.registrations,
                    i as int,
                ),
            decreases self.registrations@.len() - i,
        {
            assert(self@.registrations[i as int] == self.registrations@[i as int]@);
            let id: i64 = self.registrations[i].repository.repository.id;
            if bootstrap_due(db, self.viewer_id, id) {
                return i;
            }
            i = i + 1;
        }
        i
    }

    fn go_on(self, db: &Database, from: usize, lease_lost: bool) -> (r: (Cycle, CycleRequest))
        requires
            from <= self.registrations@.len(),
        ensures
            (r.0@, r.1@) == self@.onward(db@, from as int, lease_lost),
            r.0.wf(),
    {
        let ghost before = self@;
        let mut cycle = self;
        let next: usize = cycle.find_due(db, from);
        if !lease_lost && next < cycle.registrations.len() {
            let full_name = cycle.registrations[next].repository.repository.full_name.clone();
            assert(before.registrations[next as int] == cycle.registrations@[next as int]@);
            cycle.place = Place::Bootstrap(next);
            return (cycle, CycleRequest::Bootstrap { full_name });
        }
        let previous = db.poll_state(HOST, cycle.viewer_id);
        let (last_modified, high_water) = match &previous {
            Some(state) => (
                opt_clone(&state.last_modified),
                match &state.high_water {
                    Some(text) => read_mark(Some(text.as_str())),
                    None => None,
                },
            ),
            None => (None, None),
        };
        cycle.place = Place::At(CycleStage::Poll);
        cycle.previous = previous;
        (cycle, CycleRequest::Poll { last_modified, high_water })
    }

    fn enter(self, stage: CycleStage) -> (r: (Cycle, CycleRequest))
        ensures
            (r.0@, r.1@) == self@.enters(stage),
            r.0.wf(),
    {
        let mut cycle = self;
        cycle.place = Place::At(stage);
        let request = match stage {
            CycleStage::Discover => CycleRequest::Discover,
            CycleStage::Refresh => CycleRequest::Refresh,
            CycleStage::Dispatch => CycleRequest::Dispatch,
            _ => CycleRequest::Sleep,
        };
        (cycle, request)
    }

    /// Begins a cycle, where a repository is registered.
    pub fn begin(
        db: &Database,
        viewer_id: i64,
        interval: Duration,
        lease_lost: bool,
        now: i64,
    ) -> (r: Option<(Cycle, CycleRequest)>)
        ensures
            match r {
                None => cycle_begun(db@, viewer_id, interval, lease_lost, now) is None,
                Some((cycle, request)) => cycle_begun(db@, viewer_id, interval, lease_lost, now)
                    == Some((cycle@, request@)),
            },
            r is None <==> db@.registrations.len() == 0,
            r matches Some((cycle, request)) ==> cycle.wf() && (cycle@, request@) == (CycleModel {
                viewer_id,
                interval,
                now,
                registrations: sorted::<RegisteredRepositoryRecord>(db@.registrations),
                place: Place::At(CycleStage::Poll),
                previous: None,
                server: None,
            }).onward(db@, 0, lease_lost),
    {
        let registrations = db.list_registrations();
        proof {
            crate::order::sorted_is_sorted::<RegisteredRepositoryRecord>(db@.registrations);
        }
        assert(models(registrations@).len() == registrations@.len());
        if registrations.len() == 0 {
            return None;
        }
        let cycle = Cycle {
            viewer_id,
            interval,
            now,
            registrations,
            place: Place::At(CycleStage::Poll),
            previous: None,
            server: None,
        };
        Some(cycle.go_on(db, 0, lease_lost))
    }

    /// Takes in an answer. `now` is the second in which it came.
    pub fn advance(
        self,
        db: &mut Database,
        answer: CycleAnswer,
        lease_lost: bool,
        now: i64,
    ) -> (r: (Cycle, CycleRequest))
        requires
            self.wf(),
            fits(self.place, answer@),
            answer.wf(),
        ensures
            (final(db)@, (r.0@, r.1@)) == self@.advanced(old(db)@, answer@, lease_lost, now as int),
            r.0.wf(),
    {
        let mut cycle = self;
        let count: usize = cycle.registrations.len();
        match answer {
            CycleAnswer::Bootstrapped(Ok(page)) => {
                if let Place::Bootstrap(i) = cycle.place {
                    assert(i < count);
                    assert(self@.registrations[i as int] == self.registrations@[i as int]@);
                    let id: i64 = cycle.registrations[i].repository.repository.id;
                    let _ = db.commit_bootstrap(HOST, cycle.viewer_id, id, &page, cycle.now);
                    return cycle.go_on(db, i + 1, lease_lost);
                }
                cycle.enter(CycleStage::Sleep)
            },
            CycleAnswer::Bootstrapped(Err(error)) => {
                let pause = pause_after_bootstrap(&error, cycle.interval, now);
                if pause.is_some() {
                    cycle.server = pause;
                    return cycle.enter(CycleStage::Sleep);
                }
                if let Place::Bootstrap(i) = cycle.place {
                    assert(i < count);
                    return cycle.go_on(db, i + 1, lease_lost);
                }
                cycle.enter(CycleStage::Sleep)
            },
            CycleAnswer::Polled(Ok((poll, page))) => {
                commit_notification_poll(
                    db,
                    cycle.viewer_id,
                    &poll,
                    &page,
                    &cycle.previous,
                    cycle.now,
                );
                cycle.server = poll.metadata.poll_interval;
                cycle.enter(next_stage(CycleStage::Poll, true, lease_lost))
            },
            CycleAnswer::Polled(Err(error)) => {
                cycle.server = retry_delay_for_gh_error(&error, now);
                cycle.enter(CycleStage::Sleep)
            },
            CycleAnswer::Done { available } => match cycle.place {
                Place::At(stage) => cycle.enter(next_stage(stage, available, lease_lost)),
                Place::Bootstrap(_) => cycle.enter(CycleStage::Sleep),
            },
        }
    }
}

// ---------------------------------------------------------------------------
// Laws
// ---------------------------------------------------------------------------

/// How far a cycle has come.
pub open spec fn progress(place: Place, registrations: int) -> int {
    match place {
        Place::Bootstrap(i) => i as int,
        Place::At(CycleStage::Poll) => registrations,
        Place::At(CycleStage::Discover) => registrations + 1,
        Place::At(CycleStage::Refresh) => registrations + 2,
        Place::At(CycleStage::Dispatch) => registrations + 3,
        Place::At(CycleStage::Sleep) => registrations + 4,
    }
}

proof fn due_lies_ahead(
    state: State,
    viewer_id: i64,
    registrations: Seq<RegistrationModel>,
    from: int,
)
    requires
        0 <= from <= registrations.len(),
    ensures
        from <= due_from(state, viewer_id, registrations, from) <= registrations.len(),
        forall|j: int|
            from <= j < due_from(state, viewer_id, registrations, from)
                ==> state.bootstrap_pending(
                "github.com"@,
                viewer_id,
                (#[trigger] registrations[j]).repository.repository.id,
            ) != Some(true),
    decreases registrations.len() - from,
{
    if from < registrations.len() && state.bootstrap_pending(
        "github.com"@,
        viewer_id,
        registrations[from].repository.repository.id,
    ) != Some(true) {
        due_lies_ahead(state, viewer_id, registrations, from + 1);
    }
}

/// Every answer brings a cycle closer to its end: it asks for no more than the
/// bootstrap of each registration and one thing of each other kind.
pub proof fn cycles_end(
    cycle: CycleModel,
    state: State,
    answer: CycleAnswerModel,
    lease_lost: bool,
    now: int,
)
    requires
        fits(cycle.place, answer),
        cycle.place matches Place::Bootstrap(i) ==> i < cycle.registrations.len(),
        cycle.registrations.len() <= usize::MAX,
    ensures
        ({
            let next = cycle.advanced(state, answer, lease_lost, now).1.0;
            &&& next.registrations == cycle.registrations
            &&& progress(cycle.place, cycle.registrations.len() as int) < progress(
                next.place,
                cycle.registrations.len() as int,
            ) <= cycle.registrations.len() + 4
        }),
{
    if let Place::Bootstrap(i) = cycle.place {
        due_lies_ahead(state, cycle.viewer_id, cycle.registrations, i + 1);
        if let CycleAnswerModel::Bootstrapped(Ok(page)) = answer {
            let stored = state.commit_bootstrap(
                "github.com"@,
                cycle.viewer_id,
                cycle.registrations[i as int].repository.repository.id,
                page,
                cycle.now,
            );
            due_lies_ahead(stored, cycle.viewer_id, cycle.registrations, i + 1);
        }
    }
}

/// No registration whose notifications are still to be read is passed over,
/// unless the lease is lost.
pub proof fn no_bootstrap_is_passed_over(
    cycle: CycleModel,
    state: State,
    from: int,
    lease_lost: bool,
    j: int,
)
    requires
        0 <= from <= j < cycle.registrations.len() <= usize::MAX,
        !lease_lost,
        state.bootstrap_pending(
            "github.com"@,
            cycle.viewer_id,
            cycle.registrations[j].repository.repository.id,
        ) == Some(true),
    ensures
        cycle.onward(state, from, lease_lost).0.place matches Place::Bootstrap(i) && i <= j,
{
    due_lies_ahead(state, cycle.viewer_id, cycle.registrations, from);
}

/// Reviews are dispatched only at the end of a cycle in which GitHub answered
/// the poll, the discoveries and the refreshes, and the lease was held.
pub proof fn dispatch_needs_the_whole_cycle(
    cycle: CycleModel,
    state: State,
    answer: CycleAnswerModel,
    lease_lost: bool,
    now: int,
)
    requires
        fits(cycle.place, answer),
    ensures
        ({
            let asked = cycle.advanced(state, answer, lease_lost, now).1.1;
            &&& asked is Dispatch ==> cycle.place == Place::At(CycleStage::Refresh) && answer == (
            CycleAnswerModel::Done { available: true }) && !lease_lost
            &&& asked is Refresh ==> cycle.place == Place::At(CycleStage::Discover) && answer == (
            CycleAnswerModel::Done { available: true }) && !lease_lost
            &&& asked is Discover ==> (answer matches CycleAnswerModel::Polled(result) && result is Ok)
                && !lease_lost
        }),
{
}

/// Where GitHub refuses a bootstrap because of a rate limit, or gives no answer
/// to the poll, nothing more is asked of it in the cycle, and nothing is
/// stored.
pub proof fn refusal_ends_the_cycle(
    cycle: CycleModel,
    state: State,
    error: GhErrorModel,
    lease_lost: bool,
    now: int,
)
    ensures
        cycle.place is Bootstrap && bootstrap_pause(error, cycle.interval, now) is Some ==> ({
            let after = cycle.advanced(
                state,
                CycleAnswerModel::Bootstrapped(Err(error)),
                lease_lost,
                now,
            );
            &&& after.0 == state
            &&& after.1.1 is Sleep
            &&& after.1.0.server == bootstrap_pause(error, cycle.interval, now)
        }),
        cycle.place == Place::At(CycleStage::Poll) ==> ({
            let after = cycle.advanced(
                state,
                CycleAnswerModel::Polled(Err(error)),
                lease_lost,
                now,
            );
            &&& after.0 == state
            &&& after.1.1 is Sleep
            &&& after.1.0.server == asked_delay(error, now)
        }),
{
}

} // verus!
