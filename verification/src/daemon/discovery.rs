//! From notifications to pull requests that are watched.

use vstd::prelude::*;
use crate::daemon::retry::{delay_discovery, discovery_delay, is_rate_limited, rate_limited};
use crate::daemon::{find_registration, registration_in, HOST};
use crate::db::notifications::{due_discovery, running_discovery};
use crate::db::rows::{
    DbError, DiscoveryStatus, FoundModel, NotificationDiscovery, RegisteredRepositoryRecord,
    RegistrationModel, TrackedModel, TrackedPullRequest,
};
use crate::db::{Database, State};
use crate::github::{parse_pull_request_api_url, pull_request_of, GhError, GhErrorModel};
use crate::model::{PullModel, PullRequestState, Viewer};
use crate::order::{models, sort, sorted};
use crate::table::count;
use crate::text::{join, list_clone, list_contains, push_text, str_join, texts};
use crate::time::{after, has_date, millis_after, Timestamp, NANOS_PER_SECOND};

verus! {

/// The most discoveries that one cycle makes.
pub const DISCOVERY_BATCH_LIMIT: usize = 100;

/// Progress is reported after so many discoveries.
pub const DISCOVERY_PROGRESS_INTERVAL: usize = 10;

// ---------------------------------------------------------------------------
// Beginning
// ---------------------------------------------------------------------------

/// Why a notification leads to no pull request.
#[derive(Debug, PartialEq, Eq)]
pub enum Skip {
    /// Its repository is not registered.
    Unregistered,
    /// It has no address.
    NoUrl,
    /// Its address is not that of a pull request.
    Malformed(GhError),
}

pub enum SkipModel {
    Unregistered,
    NoUrl,
    Malformed(GhErrorModel),
}

impl View for Skip {
    type V = SkipModel;

    open spec fn view(&self) -> SkipModel {
        match self {
            Skip::Unregistered => SkipModel::Unregistered,
            Skip::NoUrl => SkipModel::NoUrl,
            Skip::Malformed(error) => SkipModel::Malformed(error@),
        }
    }
}

/// The pull request that a notification leads to: the name that its repository
/// is registered under, and its number.
pub open spec fn target_of(
    registrations: Seq<RegistrationModel>,
    found: FoundModel,
) -> Result<(Seq<char>, nat), SkipModel> {
    match registration_in(registrations, found.repository_id) {
        None => Err(SkipModel::Unregistered),
        Some(registration) => match found.notification.subject_url {
            None => Err(SkipModel::NoUrl),
            Some(url) => match pull_request_of(url) {
                Err(error) => Err(SkipModel::Malformed(error)),
                Ok((_, number)) => Ok((registration.repository.repository.full_name, number)),
            },
        },
    }
}

fn find_target(
    registrations: &Vec<RegisteredRepositoryRecord>,
    discovery: &NotificationDiscovery,
) -> (r: Result<(String, u64), Skip>)
    ensures
        match r {
            Ok((full_name, number)) => target_of(models(registrations@), discovery@) == Ok::<
                (Seq<char>, nat),
                SkipModel,
            >((full_name@, number as nat)),
            Err(skip) => target_of(models(registrations@), discovery@) == Err::<
                (Seq<char>, nat),
                SkipModel,
            >(skip@),
        },
{
    match find_registration(registrations, discovery.repository_id) {
        None => Err(Skip::Unregistered),
        Some(registration) => match &discovery.notification.subject.url {
            None => Err(Skip::NoUrl),
            Some(url) => match parse_pull_request_api_url(url.as_str()) {
                Err(error) => Err(Skip::Malformed(error)),
                Ok((_, number)) => Ok(
                    (registration.repository.repository.full_name.clone(), number),
                ),
            },
        },
    }
}

/// What to do for the next discovery.
pub enum DiscoveryStep {
    /// None is due.
    Idle,
    /// It led to no pull request, and is done.
    Skipped(String, Skip),
    /// Read this pull request of GitHub.
    Read { discovery: NotificationDiscovery, full_name: String, number: u64 },
}

pub enum DiscoveryStepModel {
    Idle,
    Skipped(Seq<char>, SkipModel),
    Read { discovery: FoundModel, full_name: Seq<char>, number: nat },
}

impl View for DiscoveryStep {
    type V = DiscoveryStepModel;

    open spec fn view(&self) -> DiscoveryStepModel {
        match self {
            DiscoveryStep::Idle => DiscoveryStepModel::Idle,
            DiscoveryStep::Skipped(id, skip) => DiscoveryStepModel::Skipped(id@, skip@),
            DiscoveryStep::Read { discovery, full_name, number } => DiscoveryStepModel::Read {
                discovery: discovery@,
                full_name: full_name@,
                number: *number as nat,
            },
        }
    }
}

/// The state after the next discovery was claimed, and done where it leads to
/// no pull request.
pub open spec fn begun(
    state: State,
    viewer_id: i64,
    registrations: Seq<RegistrationModel>,
    now: i64,
) -> Result<(State, DiscoveryStepModel), DbError> {
    match state.claim_pending_discovery("github.com"@, viewer_id, now) {
        Err(error) => Err(error),
        Ok((claimed, None)) => Ok((claimed, DiscoveryStepModel::Idle)),
        Ok((claimed, Some(found))) => match target_of(registrations, found) {
            Err(skip) => Ok(
                (
                    claimed.complete_discovery(
                        "github.com"@,
                        viewer_id,
                        found.notification_id,
                        now,
                    ),
                    DiscoveryStepModel::Skipped(found.notification_id, skip),
                ),
            ),
            Ok((full_name, number)) => Ok(
                (claimed, DiscoveryStepModel::Read { discovery: found, full_name, number }),
            ),
        },
    }
}

/// Claims the next discovery, and says which pull request to read.
pub fn begin_discovery(
    db: &mut Database,
    viewer_id: i64,
    registrations: &Vec<RegisteredRepositoryRecord>,
    now: i64,
) -> (r: Result<DiscoveryStep, DbError>)
    ensures
        match r {
            Ok(step) => begun(old(db)@, viewer_id, models(registrations@), now) == Ok::<
                (State, DiscoveryStepModel),
                DbError,
            >((final(db)@, step@)),
            Err(error) => begun(old(db)@, viewer_id, models(registrations@), now) == Err::<
                (State, DiscoveryStepModel),
                DbError,
            >(error) && *final(db) == *old(db),
        },
{
    let discovery = match db.claim_pending_discovery(HOST, viewer_id, now) {
        Err(error) => {
            return Err(error);
        },
        Ok(None) => {
            return Ok(DiscoveryStep::Idle);
        },
        Ok(Some(discovery)) => discovery,
    };
    match find_target(registrations, &discovery) {
        Err(skip) => {
            let _ = db.complete_discovery(HOST, viewer_id, discovery.notification_id.as_str(), now);
            Ok(DiscoveryStep::Skipped(discovery.notification_id, skip))
        },
        Ok((full_name, number)) => Ok(DiscoveryStep::Read { discovery, full_name, number }),
    }
}

// ---------------------------------------------------------------------------
// Ending
// ---------------------------------------------------------------------------

/// How a discovery ended.
#[derive(Clone, Copy, Debug, PartialEq, Eq, Structural)]
pub enum Discovered {
    /// The pull request is watched.
    Watched,
    /// It is the viewer's own.
    Own,
    /// It is gone.
    Gone,
    /// GitHub gave no answer. The discovery is made again later.
    Deferred { rate_limited: bool },
    /// The daemon stops. The discovery is made again.
    Stopped,
}

/// The pull request as it is watched first. The notification proves that the
/// viewer, or a team of theirs, was asked: GitHub forgets that with any review.
pub open spec fn first_watch(
    viewer_id: i64,
    found: FoundModel,
    full_name: Seq<char>,
    pull: PullModel,
    now: i64,
) -> TrackedModel {
    TrackedModel {
        host: "github.com"@,
        viewer_id,
        repository_id: found.repository_id,
        repository_full_name: full_name,
        pull_request: pull,
        notification_id: found.notification_id,
        notification_updated_at: found.notification_updated_at,
        notification: found.raw,
        active: true,
        next_check_at: now,
        updated_at: now,
    }
}

/// The state after a pull request that was looked for was read.
pub open spec fn found_pull(
    state: State,
    viewer_id: i64,
    found: FoundModel,
    full_name: Seq<char>,
    pull: PullModel,
    now: i64,
) -> (State, Result<Discovered, DbError>) {
    let id = found.notification_id;
    if pull.author.id == viewer_id {
        (state.complete_discovery("github.com"@, viewer_id, id, now), Ok(Discovered::Own))
    } else {
        match state.upsert_tracked_pull_request(
            first_watch(viewer_id, found, full_name, pull, now),
        ) {
            Err(error) => (state, Err(error)),
            Ok(watched) => (
                watched.complete_discovery("github.com"@, viewer_id, id, now),
                Ok(Discovered::Watched),
            ),
        }
    }
}

/// The state after a pull request that was looked for could not be read. Where
/// GitHub answered with status 404, it is not looked for again.
pub open spec fn not_read(
    state: State,
    viewer_id: i64,
    found: FoundModel,
    error: GhErrorModel,
    now: Timestamp,
) -> (State, Discovered) {
    let id = found.notification_id;
    let millis = now.in_millis() as i64;
    if error.has_status(404) {
        (state.complete_discovery("github.com"@, viewer_id, id, millis), Discovered::Gone)
    } else if error is Cancelled {
        (
            state.defer_discovery(
                "github.com"@,
                viewer_id,
                id,
                error.text(),
                millis,
                millis,
            ),
            Discovered::Stopped,
        )
    } else {
        (
            state.defer_discovery(
                "github.com"@,
                viewer_id,
                id,
                error.text(),
                millis_after(
                    now,
                    discovery_delay(error, found.attempts, now.seconds as int),
                ) as i64,
                millis,
            ),
            Discovered::Deferred { rate_limited: rate_limited(error) },
        )
    }
}

/// The delay of a discovery that failed leads to an instant that has a date.
pub open spec fn delay_has_date(error: GhErrorModel, attempts: u32, now: Timestamp) -> bool {
    let delay = discovery_delay(error, attempts, now.seconds as int);
    delay.wf() && has_date(millis_after(now, delay))
}

/// Where an answer defers a discovery, the delay leads to an instant that has a
/// date.
pub open spec fn answer_has_date(
    answer: Result<PullRequestState, GhError>,
    attempts: u32,
    now: Timestamp,
) -> bool {
    answer matches Err(error) ==> error@.has_status(404) || error@ is Cancelled || delay_has_date(
        error@,
        attempts,
        now,
    )
}

/// Tells whether the delay of a discovery that failed leads to an instant that
/// has a date.
pub fn check_delay(error: &GhError, attempts: u32, now: Timestamp) -> (r: bool)
    requires
        now.wf(),
        now.nanos < NANOS_PER_SECOND,
    ensures
        r == delay_has_date(error@, attempts, now),
{
    let delay = delay_discovery(error, attempts, now.seconds);
    if delay.nanos >= NANOS_PER_SECOND {
        return false;
    }
    after(now, delay).is_some()
}

/// Ends a discovery with what GitHub answered.
pub fn finish_discovery(
    db: &mut Database,
    viewer: &Viewer,
    discovery: &NotificationDiscovery,
    full_name: &str,
    answer: Result<PullRequestState, GhError>,
    now: Timestamp,
) -> (r: Result<Discovered, DbError>)
    requires
        now.wf(),
        now.nanos < NANOS_PER_SECOND,
        answer_has_date(answer, discovery.attempts, now),
    ensures
        match answer {
            Ok(pull) => (final(db)@, r) == found_pull(
                old(db)@,
                viewer.id,
                discovery@,
                full_name@,
                pull@,
                now.in_millis() as i64,
            ),
            Err(error) => r matches Ok(ended) && (final(db)@, ended) == not_read(
                old(db)@,
                viewer.id,
                discovery@,
                error@,
                now,
            ),
        },
{
    let millis = now.millis();
    let id = discovery.notification_id.as_str();
    match answer {
        Ok(pull) => {
            if pull.author.id == viewer.id {
                let _ = db.complete_discovery(HOST, viewer.id, id, millis);
                return Ok(Discovered::Own);
            }
            let watched = TrackedPullRequest {
                host: HOST.to_owned(),
                viewer_id: viewer.id,
                repository_id: discovery.repository_id,
                repository_full_name: full_name.to_owned(),
                pull_request: pull,
                notification_id: discovery.notification_id.clone(),
                notification_updated_at: discovery.notification_updated_at,
                notification: discovery.raw.clone(),
                active: true,
                next_check_at: millis,
                updated_at: millis,
            };
            if let Err(error) = db.upsert_tracked_pull_request(&watched) {
                return Err(error);
            }
            let _ = db.complete_discovery(HOST, viewer.id, id, millis);
            Ok(Discovered::Watched)
        },
        Err(error) => {
            if error.has_status(404) {
                let _ = db.complete_discovery(HOST, viewer.id, id, millis);
                return Ok(Discovered::Gone);
            }
            let message = error.message();
            if let GhError::Cancelled { endpoint: _ } = &error {
                let _ = db.defer_discovery(HOST, viewer.id, id, message.as_str(), millis, millis);
                return Ok(Discovered::Stopped);
            }
            let delay = delay_discovery(&error, discovery.attempts, now.seconds);
            let retry_at: i64 = match after(now, delay) {
                Some(retry_at) => retry_at,
                None => millis,
            };
            let _ = db.defer_discovery(HOST, viewer.id, id, message.as_str(), retry_at, millis);
            Ok(Discovered::Deferred { rate_limited: is_rate_limited(&error) })
        },
    }
}

// ---------------------------------------------------------------------------
// The batch
// ---------------------------------------------------------------------------

/// After a discovery that ended so, no further one is made in the cycle: GitHub
/// refuses requests, or the daemon stops.
pub open spec fn stops(ended: Discovered) -> bool {
    ended == Discovered::Stopped || (ended == Discovered::Deferred { rate_limited: true })
}

/// The discoveries of one cycle.
#[derive(Clone, Copy, Debug, PartialEq, Eq, Structural)]
pub struct Batch {
    /// How many were claimed.
    pub processed: usize,
    /// No further one is claimed.
    pub over: bool,
    /// GitHub answers.
    pub available: bool,
}

impl Batch {
    /// No more discoveries were claimed than a cycle makes, and none is claimed
    /// where GitHub does not answer.
    pub open spec fn wf(self) -> bool {
        self.processed <= DISCOVERY_BATCH_LIMIT && (self.available || self.over)
    }

    /// A further discovery is claimed, where one is due.
    pub open spec fn goes_on(self) -> bool {
        !self.over && self.processed < DISCOVERY_BATCH_LIMIT
    }

    /// After a step.
    pub open spec fn stepped(self, step: DiscoveryStepModel) -> Batch {
        if step is Idle {
            Batch { over: true, ..self }
        } else {
            Batch { processed: (self.processed + 1) as usize, ..self }
        }
    }

    /// After a discovery ended.
    pub open spec fn ended(self, ended: Discovered) -> Batch {
        if stops(ended) {
            Batch { over: true, available: false, ..self }
        } else {
            self
        }
    }

    /// Begins the discoveries of a cycle, and says how many are due.
    pub fn begin(db: &Database, viewer_id: i64, now: i64) -> (r: (Batch, usize))
        ensures
            r.1 == count(db@.discoveries, due_discovery("github.com"@, viewer_id, now)),
            r.0 == (Batch { processed: 0, over: r.1 == 0, available: true }),
            r.0.wf(),
    {
        let due: usize = db.due_discovery_count(HOST, viewer_id, now);
        (Batch { processed: 0, over: due == 0, available: true }, due)
    }

    /// It is time to report progress.
    pub fn progress_due(&self) -> (r: bool)
        ensures
            r == (self.goes_on() && self.processed > 0 && self.processed as int
                % DISCOVERY_PROGRESS_INTERVAL as int == 0),
    {
        !self.over && self.processed < DISCOVERY_BATCH_LIMIT && self.processed > 0 && self.processed
            % DISCOVERY_PROGRESS_INTERVAL == 0
    }

    /// Claims the next discovery, and says which pull request to read. A batch
    /// that is over, or has claimed as many as a cycle makes, claims none.
    pub fn step(
        &mut self,
        db: &mut Database,
        viewer_id: i64,
        registrations: &Vec<RegisteredRepositoryRecord>,
        now: i64,
    ) -> (r: Result<DiscoveryStep, DbError>)
        requires
            old(self).wf(),
        ensures
            final(self).wf(),
            !old(self).goes_on() ==> (r matches Ok(step) && step@ is Idle) && *final(self) == *old(
                self,
            ) && *final(db) == *old(db),
            old(self).goes_on() ==> match r {
                Ok(step) => begun(old(db)@, viewer_id, models(registrations@), now) == Ok::<
                    (State, DiscoveryStepModel),
                    DbError,
                >((final(db)@, step@)) && *final(self) == old(self).stepped(step@),
                Err(error) => begun(old(db)@, viewer_id, models(registrations@), now) == Err::<
                    (State, DiscoveryStepModel),
                    DbError,
                >(error) && *final(db) == *old(db) && *final(self) == *old(self),
            },
    {
        if self.over || self.processed >= DISCOVERY_BATCH_LIMIT {
            return Ok(DiscoveryStep::Idle);
        }
        match begin_discovery(db, viewer_id, registrations, now) {
            Err(error) => Err(error),
            Ok(DiscoveryStep::Idle) => {
                self.over = true;
                Ok(DiscoveryStep::Idle)
            },
            Ok(step) => {
                self.processed = self.processed + 1;
                Ok(step)
            },
        }
    }

    /// Ends a discovery with what GitHub answered.
    pub fn finish(
        &mut self,
        db: &mut Database,
        viewer: &Viewer,
        discovery: &NotificationDiscovery,
        full_name: &str,
        answer: Result<PullRequestState, GhError>,
        now: Timestamp,
    ) -> (r: Result<Discovered, DbError>)
        requires
            old(self).wf(),
            now.wf(),
            now.nanos < NANOS_PER_SECOND,
            answer_has_date(answer, discovery.attempts, now),
        ensures
            final(self).wf(),
            match r {
                Ok(ended) => *final(self) == old(self).ended(ended),
                Err(_) => *final(self) == *old(self),
            },
            match answer {
                Ok(pull) => (final(db)@, r) == found_pull(
                    old(db)@,
                    viewer.id,
                    discovery@,
                    full_name@,
                    pull@,
                    now.in_millis() as i64,
                ),
                Err(error) => r matches Ok(ended) && (final(db)@, ended) == not_read(
                    old(db)@,
                    viewer.id,
                    discovery@,
                    error@,
                    now,
                ),
            },
    {
        let r = finish_discovery(db, viewer, discovery, full_name, answer, now);
        match r {
            Ok(Discovered::Stopped) => {
                self.over = true;
                self.available = false;
            },
            Ok(Discovered::Deferred { rate_limited }) => {
                if rate_limited {
                    self.over = true;
                    self.available = false;
                }
            },
            _ => {},
        }
        r
    }
}

/// The names in `all` whose repositories `known` lacks.
pub open spec fn names_beyond(all: Seq<RegistrationModel>, known: Seq<RegistrationModel>) -> Seq<
    Seq<char>,
>
    decreases all.len(),
{
    if all.len() == 0 {
        seq![]
    } else {
        let front = names_beyond(all.drop_last(), known);
        let repository = all.last().repository.repository;
        if registration_in(known, repository.id) is None {
            front.push(repository.full_name)
        } else {
            front
        }
    }
}

/// The names that were not reported, each once.
pub open spec fn unreported(names: Seq<Seq<char>>, reported: Seq<Seq<char>>) -> Seq<Seq<char>>
    decreases names.len(),
{
    if names.len() == 0 {
        seq![]
    } else {
        let front = unreported(names.drop_last(), reported);
        if reported.contains(names.last()) || front.contains(names.last()) {
            front
        } else {
            front.push(names.last())
        }
    }
}

fn list_names_beyond(
    all: &Vec<RegisteredRepositoryRecord>,
    known: &Vec<RegisteredRepositoryRecord>,
) -> (r: Vec<String>)
    ensures
        texts(r@) == names_beyond(models(all@), models(known@)),
{
    let ghost rows = models(all@);
    let mut r: Vec<String> = Vec::new();
    let mut i: usize = 0;
    assert(texts(r@) =~= names_beyond(rows.take(0), models(known@)));
    while i < all.len()
        invariant
            i <= all@.len(),
            rows == models(all@),
            texts(r@) == names_beyond(rows.take(i as int), models(known@)),
        decreases all@.len() - i,
    {
        assert(rows.take(i as int + 1).drop_last() =~= rows.take(i as int));
        assert(rows.take(i as int + 1).last() == all@[i as int]@);
        if find_registration(known, all[i].repository.repository.id).is_none() {
            push_text(&mut r, all[i].repository.repository.full_name.as_str());
        }
        i += 1;
    }
    assert(rows.take(i as int) =~= rows);
    r
}

/// The repositories that were registered since the cycle began and were not
/// reported before, in words, where there are any. They are then reported.
pub fn registrations_waiting_for_next_cycle(
    all: &Vec<RegisteredRepositoryRecord>,
    known: &Vec<RegisteredRepositoryRecord>,
    reported: &mut Vec<String>,
) -> (r: Option<String>)
    ensures
        ({
            let fresh = unreported(
                names_beyond(models(all@), models(known@)),
                texts(old(reported)@),
            );
            &&& texts(final(reported)@) == texts(old(reported)@) + fresh
            &&& r is Some <==> fresh.len() > 0
            &&& r matches Some(text) ==> text@ == join(sorted::<String>(fresh), ", "@)
        }),
{
    let names = list_names_beyond(all, known);
    let ghost list = texts(names@);
    let ghost before = texts(reported@);
    let mut fresh: Vec<String> = Vec::new();
    let mut i: usize = 0;
    assert(texts(fresh@) =~= unreported(list.take(0), before));
    while i < names.len()
        invariant
            i <= names@.len(),
            list == texts(names@),
            list.len() == names@.len(),
            before == texts(reported@),
            texts(fresh@) == unreported(list.take(i as int), before),
        decreases names@.len() - i,
    {
        assert(list[i as int] == names@[i as int]@);
        assert(list.take(i as int + 1).drop_last() =~= list.take(i as int));
        assert(list.take(i as int + 1).last() == list[i as int]);
        let name = names[i].as_str();
        if !list_contains(reported, name) && !list_contains(&fresh, name) {
            push_text(&mut fresh, name);
        }
        i += 1;
    }
    assert(list.take(i as int) =~= list);
    let ghost added = texts(fresh@);
    let mut noted = list_clone(&fresh);
    let ghost earlier = reported@;
    let ghost extra = noted@;
    reported.append(&mut noted);
    assert(texts(reported@) =~= texts(earlier) + texts(extra));
    assert(added.len() == fresh@.len());
    if fresh.len() == 0 {
        return None;
    }
    let ordered = sort(fresh);
    assert(models(ordered@) =~= texts(ordered@));
    assert(models(fresh@) =~= texts(fresh@));
    Some(str_join(&ordered, ", "))
}

// ---------------------------------------------------------------------------
// Laws
// ---------------------------------------------------------------------------

/// A name that was reported is not reported again.
pub proof fn reported_once(names: Seq<Seq<char>>, reported: Seq<Seq<char>>)
    ensures
        unreported(names, reported + unreported(names, reported)).len() == 0,
        forall|i: int|
            0 <= i < unreported(names, reported).len() ==> !reported.contains(
                #[trigger] unreported(names, reported)[i],
            ),
{
    fresh_is_new(names, reported);
    let all = reported + unreported(names, reported);
    assert forall|i: int| 0 <= i < names.len() implies all.contains(#[trigger] names[i]) by {
        fresh_covers(names, reported, i);
        if reported.contains(names[i]) {
            let j = choose|j: int| 0 <= j < reported.len() && reported[j] == names[i];
            assert(all[j] == names[i]);
        } else {
            let fresh = unreported(names, reported);
            let j = choose|j: int| 0 <= j < fresh.len() && fresh[j] == names[i];
            assert(all[reported.len() + j] == names[i]);
        }
    }
    nothing_fresh(names, all);
}

proof fn fresh_is_new(names: Seq<Seq<char>>, reported: Seq<Seq<char>>)
    ensures
        forall|i: int|
            0 <= i < unreported(names, reported).len() ==> !reported.contains(
                #[trigger] unreported(names, reported)[i],
            ),
    decreases names.len(),
{
    if names.len() > 0 {
        let front = unreported(names.drop_last(), reported);
        let fresh = unreported(names, reported);
        fresh_is_new(names.drop_last(), reported);
        assert forall|i: int| 0 <= i < fresh.len() implies !reported.contains(#[trigger] fresh[i]) by {
            if i < front.len() {
                assert(fresh[i] == front[i]);
            }
        }
    }
}

proof fn fresh_covers(names: Seq<Seq<char>>, reported: Seq<Seq<char>>, i: int)
    requires
        0 <= i < names.len(),
    ensures
        reported.contains(names[i]) || unreported(names, reported).contains(names[i]),
    decreases names.len(),
{
    let front = unreported(names.drop_last(), reported);
    let fresh = unreported(names, reported);
    if i < names.len() - 1 {
        fresh_covers(names.drop_last(), reported, i);
        if front.contains(names[i]) {
            let j = choose|j: int| 0 <= j < front.len() && front[j] == names[i];
            assert(fresh[j] == names[i]);
        }
    } else if !reported.contains(names.last()) && !front.contains(names.last()) {
        assert(fresh[fresh.len() - 1] == names.last());
    }
}

proof fn nothing_fresh(names: Seq<Seq<char>>, reported: Seq<Seq<char>>)
    requires
        forall|i: int| 0 <= i < names.len() ==> reported.contains(#[trigger] names[i]),
    ensures
        unreported(names, reported).len() == 0,
    decreases names.len(),
{
    if names.len() > 0 {
        let front = names.drop_last();
        assert forall|i: int| 0 <= i < front.len() implies reported.contains(#[trigger] front[i]) by {
            assert(front[i] == names[i]);
        }
        nothing_fresh(front, reported);
        assert(reported.contains(names[names.len() - 1]));
    }
}

/// Once GitHub refuses requests or the daemon stops, no further discovery of the
/// cycle is claimed, and the cycle learns of it.
pub proof fn refused_batch_is_over(batch: Batch, ended: Discovered)
    ensures
        stops(ended) ==> !batch.ended(ended).goes_on() && !batch.ended(ended).available,
        !stops(ended) ==> batch.ended(ended) == batch,
{
}

/// A discovery that the daemon stops is due again at once, and no pull request
/// is watched for it.
pub proof fn stopping_loses_no_discovery(
    state: State,
    viewer_id: i64,
    found: FoundModel,
    endpoint: Seq<char>,
    now: Timestamp,
    i: int,
)
    requires
        now.wf(),
        0 <= i < state.discoveries.len(),
        running_discovery("github.com"@, viewer_id, found.notification_id)(state.discoveries[i]),
    ensures
        ({
            let after = not_read(
                state,
                viewer_id,
                found,
                GhErrorModel::Cancelled { endpoint },
                now,
            );
            &&& after.1 == Discovered::Stopped
            &&& after.0.tracked_pulls == state.tracked_pulls
            &&& after.0.discoveries.len() == state.discoveries.len()
            &&& after.0.discoveries[i].status == DiscoveryStatus::Pending
            &&& after.0.discoveries[i].due_at == now.in_millis()
        }),
{
}

} // verus!
