//! Registered repositories, their bootstraps, and named values.

use vstd::prelude::*;
use crate::db::rows::{
    ActionModel, ActionStatus, BootstrapModel, BootstrapRecord, DbError, DiscoveryModel,
    DiscoveryRecord, DiscoveryStatus, MetadataEntry, MetadataModel, PollModel, PollState,
    RegisteredRepositoryRecord, RegistrationModel, ReviewAction, TrackedModel, TrackedPullRequest,
};
use crate::db::{Database, State};
use crate::model::{opt_model, RegisteredModel, RegisteredRepository};
use crate::order::{models, sort, sorted, Ranked};
use crate::paths::{path_eq, paths_equal};
use crate::table::{
    any, any_row, copy_rows, count_is_zero, find_row, lookup, remove_where, removed, update_where,
    updated, Change, Test,
};
use crate::text::{opt_text, str_eq, str_le, text_le, text_le_total, text_le_transitive};

verus! {

// ---------------------------------------------------------------------------
// Registrations
// ---------------------------------------------------------------------------

pub open spec fn of_repository(host: Seq<char>, repository_id: i64) -> spec_fn(
    RegistrationModel,
) -> bool {
    |m: RegistrationModel| m.host == host && m.repository.repository.id == repository_id
}

pub open spec fn of_name(host: Seq<char>, full_name: Seq<char>) -> spec_fn(
    RegistrationModel,
) -> bool {
    |m: RegistrationModel| m.host == host && m.repository.repository.full_name == full_name
}

/// Another repository has the name.
pub open spec fn takes_name(host: Seq<char>, repository: RegisteredModel) -> spec_fn(
    RegistrationModel,
) -> bool {
    |m: RegistrationModel|
        m.host == host && m.repository.repository.id != repository.repository.id
            && m.repository.repository.full_name == repository.repository.full_name
}

pub open spec fn bootstraps_of(host: Seq<char>, repository_id: i64) -> spec_fn(
    BootstrapModel,
) -> bool {
    |m: BootstrapModel| m.host == host && m.repository_id == repository_id
}

pub open spec fn bootstrap_of(host: Seq<char>, viewer_id: i64, repository_id: i64) -> spec_fn(
    BootstrapModel,
) -> bool {
    |m: BootstrapModel|
        m.host == host && m.viewer_id == viewer_id && m.repository_id == repository_id
}

pub open spec fn pulls_of(host: Seq<char>, repository_id: i64) -> spec_fn(TrackedModel) -> bool {
    |m: TrackedModel| m.host == host && m.repository_id == repository_id
}

pub open spec fn waiting_in(host: Seq<char>, repository_id: i64) -> spec_fn(ActionModel) -> bool {
    |m: ActionModel|
        m.host == host && m.repository_id == repository_id && m.status.is_undispatched()
}

pub open spec fn unfinished_of(host: Seq<char>, repository_id: i64) -> spec_fn(
    DiscoveryModel,
) -> bool {
    |m: DiscoveryModel|
        m.host == host && m.repository_id == repository_id && m.status
            != DiscoveryStatus::Completed
}

pub open spec fn has_key(key: Seq<char>) -> spec_fn(MetadataModel) -> bool {
    |m: MetadataModel| m.key == key
}

pub open spec fn poll_of(host: Seq<char>, viewer_id: i64) -> spec_fn(PollModel) -> bool {
    |m: PollModel| m.host == host && m.viewer_id == viewer_id
}

impl RegistrationModel {
    /// The registration says something else than `repository`.
    pub open spec fn differs(self, repository: RegisteredModel) -> bool {
        ||| self.repository.repository.full_name != repository.repository.full_name
        ||| self.repository.repository.html_url != repository.repository.html_url
        ||| self.repository.origin_url != repository.origin_url
        ||| !paths_equal(self.repository.local_path, repository.local_path)
    }

    pub open spec fn replaced(
        self,
        repository: RegisteredModel,
        changed: bool,
        now: i64,
    ) -> RegistrationModel {
        RegistrationModel {
            repository: RegisteredModel {
                bootstrap_pending: changed || self.repository.bootstrap_pending,
                ..repository
            },
            updated_at: now,
            ..self
        }
    }

    pub open spec fn created(
        host: Seq<char>,
        repository: RegisteredModel,
        now: i64,
    ) -> RegistrationModel {
        RegistrationModel {
            host,
            repository: RegisteredModel { bootstrap_pending: true, ..repository },
            registered_at: now,
            updated_at: now,
        }
    }
}

impl BootstrapModel {
    pub open spec fn with(self, pending: bool, now: i64) -> BootstrapModel {
        BootstrapModel { pending, updated_at: now, ..self }
    }
}

impl TrackedModel {
    pub open spec fn deactivated(self, now: i64) -> TrackedModel {
        TrackedModel { active: false, updated_at: now, ..self }
    }
}

impl ActionModel {
    /// Cancelled along with its repository.
    pub open spec fn abandoned(self, now: i64) -> ActionModel {
        ActionModel { status: ActionStatus::Cancelled, updated_at: now, ..self }
    }
}

impl State {
    /// The repository is new, or something about it changed.
    pub open spec fn registration_changes(
        self,
        host: Seq<char>,
        repository: RegisteredModel,
    ) -> bool {
        match lookup(self.registrations, of_repository(host, repository.repository.id)) {
            Some(m) => m.differs(repository),
            None => true,
        }
    }

    pub open spec fn upsert_registration(
        self,
        host: Seq<char>,
        repository: RegisteredModel,
        now: i64,
    ) -> Result<State, DbError> {
        let id = repository.repository.id;
        let changed = self.registration_changes(host, repository);
        if any(self.registrations, takes_name(host, repository)) {
            Err(DbError::NameTaken)
        } else {
            Ok(
                State {
                    registrations: if any(self.registrations, of_repository(host, id)) {
                        updated(
                            self.registrations,
                            of_repository(host, id),
                            |m: RegistrationModel| m.replaced(repository, changed, now),
                        )
                    } else {
                        self.registrations.push(RegistrationModel::created(host, repository, now))
                    },
                    bootstraps: if changed {
                        updated(
                            self.bootstraps,
                            bootstraps_of(host, id),
                            |m: BootstrapModel| m.with(true, now),
                        )
                    } else {
                        self.bootstraps
                    },
                    ..self
                },
            )
        }
    }

    pub open spec fn remove_registration(
        self,
        host: Seq<char>,
        repository_id: i64,
        now: i64,
    ) -> State {
        State {
            tracked_pulls: updated(
                self.tracked_pulls,
                pulls_of(host, repository_id),
                |m: TrackedModel| m.deactivated(now),
            ),
            actions: updated(
                self.actions,
                waiting_in(host, repository_id),
                |m: ActionModel| m.abandoned(now),
            ),
            discoveries: removed(self.discoveries, unfinished_of(host, repository_id)),
            registrations: removed(self.registrations, of_repository(host, repository_id)),
            bootstraps: if any(self.registrations, of_repository(host, repository_id)) {
                removed(self.bootstraps, bootstraps_of(host, repository_id))
            } else {
                self.bootstraps
            },
            ..self
        }
    }

    /// Whether the viewer still has to bootstrap a registered repository.
    /// Where nothing is recorded for the viewer, they do.
    pub open spec fn bootstrap_pending(
        self,
        host: Seq<char>,
        viewer_id: i64,
        repository_id: i64,
    ) -> Option<bool> {
        if any(self.registrations, of_repository(host, repository_id)) {
            match lookup(self.bootstraps, bootstrap_of(host, viewer_id, repository_id)) {
                Some(m) => Some(m.pending),
                None => Some(true),
            }
        } else {
            None
        }
    }

    pub open spec fn mark_bootstrap_complete(
        self,
        host: Seq<char>,
        viewer_id: i64,
        repository_id: i64,
        now: i64,
    ) -> State {
        let key = bootstrap_of(host, viewer_id, repository_id);
        if !any(self.registrations, of_repository(host, repository_id)) {
            self
        } else if any(self.bootstraps, key) {
            State {
                bootstraps: updated(self.bootstraps, key, |m: BootstrapModel| m.with(false, now)),
                ..self
            }
        } else {
            State {
                bootstraps: self.bootstraps.push(
                    BootstrapModel {
                        host,
                        viewer_id,
                        repository_id,
                        pending: false,
                        updated_at: now,
                    },
                ),
                ..self
            }
        }
    }

    pub open spec fn set_metadata(self, key: Seq<char>, value: Seq<char>, now: i64) -> State {
        let entry = MetadataModel { key, value, updated_at: now };
        State {
            metadata: if any(self.metadata, has_key(key)) {
                updated(self.metadata, has_key(key), |m: MetadataModel| entry)
            } else {
                self.metadata.push(entry)
            },
            ..self
        }
    }

    pub open spec fn set_poll_state(
        self,
        host: Seq<char>,
        viewer_id: i64,
        last_modified: Option<Seq<char>>,
        high_water: Option<Seq<char>>,
        now: i64,
    ) -> State {
        let state = PollModel { host, viewer_id, last_modified, high_water, updated_at: now };
        State {
            poll_states: if any(self.poll_states, poll_of(host, viewer_id)) {
                updated(self.poll_states, poll_of(host, viewer_id), |m: PollModel| state)
            } else {
                self.poll_states.push(state)
            },
            ..self
        }
    }
}

impl Ranked for RegisteredRepositoryRecord {
    /// By name.
    open spec fn at_most(a: RegistrationModel, b: RegistrationModel) -> bool {
        text_le(a.repository.repository.full_name, b.repository.repository.full_name)
    }

    proof fn total(a: RegistrationModel, b: RegistrationModel) {
        text_le_total(a.repository.repository.full_name, b.repository.repository.full_name);
    }

    proof fn transitive(a: RegistrationModel, b: RegistrationModel, c: RegistrationModel) {
        text_le_transitive(
            a.repository.repository.full_name,
            b.repository.repository.full_name,
            c.repository.repository.full_name,
        );
    }

    fn is_at_most(&self, other: &Self) -> (r: bool) {
        str_le(
            self.repository.repository.full_name.as_str(),
            other.repository.repository.full_name.as_str(),
        )
    }
}

// ---------------------------------------------------------------------------
// Rules
// ---------------------------------------------------------------------------

struct OfRepository<'a> {
    host: &'a str,
    repository_id: i64,
}

impl<'a> Test<RegisteredRepositoryRecord> for OfRepository<'a> {
    closed spec fn holds(&self, m: RegistrationModel) -> bool {
        of_repository(self.host@, self.repository_id)(m)
    }

    fn check(&self, row: &RegisteredRepositoryRecord) -> (r: bool) {
        str_eq(row.host.as_str(), self.host) && row.repository.repository.id == self.repository_id
    }
}

struct Unfinished<'a> {
    host: &'a str,
    repository_id: i64,
}

impl<'a> Test<DiscoveryRecord> for Unfinished<'a> {
    closed spec fn holds(&self, m: DiscoveryModel) -> bool {
        unfinished_of(self.host@, self.repository_id)(m)
    }

    fn check(&self, row: &DiscoveryRecord) -> (r: bool) {
        str_eq(row.host.as_str(), self.host) && row.repository_id == self.repository_id
            && row.status != DiscoveryStatus::Completed
    }
}

struct OfName<'a> {
    host: &'a str,
    full_name: &'a str,
}

impl<'a> Test<RegisteredRepositoryRecord> for OfName<'a> {
    closed spec fn holds(&self, m: RegistrationModel) -> bool {
        of_name(self.host@, self.full_name@)(m)
    }

    fn check(&self, row: &RegisteredRepositoryRecord) -> (r: bool) {
        str_eq(row.host.as_str(), self.host) && str_eq(
            row.repository.repository.full_name.as_str(),
            self.full_name,
        )
    }
}

struct TakesName<'a> {
    host: &'a str,
    repository: &'a RegisteredRepository,
}

impl<'a> Test<RegisteredRepositoryRecord> for TakesName<'a> {
    closed spec fn holds(&self, m: RegistrationModel) -> bool {
        takes_name(self.host@, self.repository@)(m)
    }

    fn check(&self, row: &RegisteredRepositoryRecord) -> (r: bool) {
        str_eq(row.host.as_str(), self.host) && row.repository.repository.id
            != self.repository.repository.id && str_eq(
            row.repository.repository.full_name.as_str(),
            self.repository.repository.full_name.as_str(),
        )
    }
}

struct Reregister<'a> {
    host: &'a str,
    repository: &'a RegisteredRepository,
    changed: bool,
    now: i64,
}

impl<'a> Test<RegisteredRepositoryRecord> for Reregister<'a> {
    closed spec fn holds(&self, m: RegistrationModel) -> bool {
        of_repository(self.host@, self.repository@.repository.id)(m)
    }

    fn check(&self, row: &RegisteredRepositoryRecord) -> (r: bool) {
        str_eq(row.host.as_str(), self.host) && row.repository.repository.id
            == self.repository.repository.id
    }
}

impl<'a> Change<RegisteredRepositoryRecord> for Reregister<'a> {
    closed spec fn changed(&self, m: RegistrationModel) -> RegistrationModel {
        m.replaced(self.repository@, self.changed, self.now)
    }

    fn apply(&self, row: &mut RegisteredRepositoryRecord) {
        let pending = self.changed || row.repository.bootstrap_pending;
        row.repository = self.repository.clone();
        row.repository.bootstrap_pending = pending;
        row.updated_at = self.now;
    }
}

struct Reboot<'a> {
    host: &'a str,
    repository_id: i64,
    now: i64,
}

impl<'a> Test<BootstrapRecord> for Reboot<'a> {
    closed spec fn holds(&self, m: BootstrapModel) -> bool {
        bootstraps_of(self.host@, self.repository_id)(m)
    }

    fn check(&self, row: &BootstrapRecord) -> (r: bool) {
        str_eq(row.host.as_str(), self.host) && row.repository_id == self.repository_id
    }
}

impl<'a> Change<BootstrapRecord> for Reboot<'a> {
    closed spec fn changed(&self, m: BootstrapModel) -> BootstrapModel {
        m.with(true, self.now)
    }

    fn apply(&self, row: &mut BootstrapRecord) {
        row.pending = true;
        row.updated_at = self.now;
    }
}

struct Booted<'a> {
    host: &'a str,
    viewer_id: i64,
    repository_id: i64,
    now: i64,
}

impl<'a> Test<BootstrapRecord> for Booted<'a> {
    closed spec fn holds(&self, m: BootstrapModel) -> bool {
        bootstrap_of(self.host@, self.viewer_id, self.repository_id)(m)
    }

    fn check(&self, row: &BootstrapRecord) -> (r: bool) {
        str_eq(row.host.as_str(), self.host) && row.viewer_id == self.viewer_id
            && row.repository_id == self.repository_id
    }
}

impl<'a> Change<BootstrapRecord> for Booted<'a> {
    closed spec fn changed(&self, m: BootstrapModel) -> BootstrapModel {
        m.with(false, self.now)
    }

    fn apply(&self, row: &mut BootstrapRecord) {
        row.pending = false;
        row.updated_at = self.now;
    }
}

struct Leave<'a> {
    host: &'a str,
    repository_id: i64,
    now: i64,
}

impl<'a> Test<TrackedPullRequest> for Leave<'a> {
    closed spec fn holds(&self, m: TrackedModel) -> bool {
        pulls_of(self.host@, self.repository_id)(m)
    }

    fn check(&self, row: &TrackedPullRequest) -> (r: bool) {
        str_eq(row.host.as_str(), self.host) && row.repository_id == self.repository_id
    }
}

impl<'a> Change<TrackedPullRequest> for Leave<'a> {
    closed spec fn changed(&self, m: TrackedModel) -> TrackedModel {
        m.deactivated(self.now)
    }

    fn apply(&self, row: &mut TrackedPullRequest) {
        row.active = false;
        row.updated_at = self.now;
    }
}

struct Abandon<'a> {
    host: &'a str,
    repository_id: i64,
    now: i64,
}

impl<'a> Test<ReviewAction> for Abandon<'a> {
    closed spec fn holds(&self, m: ActionModel) -> bool {
        waiting_in(self.host@, self.repository_id)(m)
    }

    fn check(&self, row: &ReviewAction) -> (r: bool) {
        str_eq(row.host.as_str(), self.host) && row.repository_id == self.repository_id
            && row.status.undispatched()
    }
}

impl<'a> Change<ReviewAction> for Abandon<'a> {
    closed spec fn changed(&self, m: ActionModel) -> ActionModel {
        m.abandoned(self.now)
    }

    fn apply(&self, row: &mut ReviewAction) {
        row.status = ActionStatus::Cancelled;
        row.updated_at = self.now;
    }
}

struct SetValue<'a> {
    key: &'a str,
    value: &'a str,
    now: i64,
}

impl<'a> Test<MetadataEntry> for SetValue<'a> {
    closed spec fn holds(&self, m: MetadataModel) -> bool {
        has_key(self.key@)(m)
    }

    fn check(&self, row: &MetadataEntry) -> (r: bool) {
        str_eq(row.key.as_str(), self.key)
    }
}

impl<'a> Change<MetadataEntry> for SetValue<'a> {
    closed spec fn changed(&self, m: MetadataModel) -> MetadataModel {
        MetadataModel { key: self.key@, value: self.value@, updated_at: self.now }
    }

    fn apply(&self, row: &mut MetadataEntry) {
        row.value = self.value.to_owned();
        row.updated_at = self.now;
    }
}

struct SetPoll<'a> {
    host: &'a str,
    viewer_id: i64,
    last_modified: Option<&'a str>,
    high_water: Option<&'a str>,
    now: i64,
}

/// The text that an optional borrowed string holds.
pub open spec fn opt_str(o: Option<&str>) -> Option<Seq<char>> {
    match o {
        Some(s) => Some(s@),
        None => None,
    }
}

fn opt_owned(o: Option<&str>) -> (r: Option<String>)
    ensures
        opt_text(r) == opt_str(o),
{
    match o {
        Some(s) => Some(s.to_owned()),
        None => None,
    }
}

impl<'a> Test<PollState> for SetPoll<'a> {
    closed spec fn holds(&self, m: PollModel) -> bool {
        poll_of(self.host@, self.viewer_id)(m)
    }

    fn check(&self, row: &PollState) -> (r: bool) {
        str_eq(row.host.as_str(), self.host) && row.viewer_id == self.viewer_id
    }
}

impl<'a> Change<PollState> for SetPoll<'a> {
    closed spec fn changed(&self, m: PollModel) -> PollModel {
        PollModel {
            host: self.host@,
            viewer_id: self.viewer_id,
            last_modified: opt_str(self.last_modified),
            high_water: opt_str(self.high_water),
            updated_at: self.now,
        }
    }

    fn apply(&self, row: &mut PollState) {
        row.last_modified = opt_owned(self.last_modified);
        row.high_water = opt_owned(self.high_water);
        row.updated_at = self.now;
    }
}

// ---------------------------------------------------------------------------
// Operations
// ---------------------------------------------------------------------------

impl Database {
    /// Registers a local clone, in place of the one that was registered for
    /// the repository before. Where something about it changed, every viewer
    /// has to bootstrap it again.
    pub fn upsert_registration(
        &mut self,
        host: &str,
        repository: &RegisteredRepository,
        now: i64,
    ) -> (r: Result<(), DbError>)
        ensures
            match r {
                Ok(_) => old(self)@.upsert_registration(host@, repository@, now) == Ok::<
                    State,
                    DbError,
                >(final(self)@),
                Err(error) => old(self)@.upsert_registration(host@, repository@, now) == Err::<
                    State,
                    DbError,
                >(error) && *final(self) == *old(self),
            },
    {
        let ghost model = repository@;
        let id: i64 = repository.repository.id;
        let taken = TakesName { host, repository };
        assert((|m: RegistrationModel| taken.holds(m)) =~= takes_name(host@, model));
        if any_row(&self.registrations, &taken) {
            return Err(DbError::NameTaken);
        }
        let test = OfRepository { host, repository_id: id };
        assert((|m: RegistrationModel| test.holds(m)) =~= of_repository(host@, id));
        let existing = find_row(&self.registrations, &test);
        proof {
            crate::table::first_exists(self@.registrations, of_repository(host@, id));
        }
        let changed = match &existing {
            Some(row) => {
                let known = &row.repository;
                !str_eq(
                    known.repository.full_name.as_str(),
                    repository.repository.full_name.as_str(),
                ) || !str_eq(
                    known.repository.html_url.as_str(),
                    repository.repository.html_url.as_str(),
                ) || !str_eq(known.origin_url.as_str(), repository.origin_url.as_str()) || !path_eq(
                    known.local_path.as_str(),
                    repository.local_path.as_str(),
                )
            },
            None => true,
        };
        assert(changed == self@.registration_changes(host@, model));
        if existing.is_some() {
            let rule = Reregister { host, repository, changed, now };
            assert((|m: RegistrationModel| rule.holds(m)) =~= of_repository(host@, id));
            assert((|m: RegistrationModel| rule.changed(m)) =~= (|m: RegistrationModel|
                m.replaced(model, changed, now)));
            let n = update_where(&mut self.registrations, &rule);
        } else {
            let ghost before = self.registrations@;
            let mut stored = repository.clone();
            stored.bootstrap_pending = true;
            self.registrations.push(
                RegisteredRepositoryRecord {
                    host: host.to_owned(),
                    repository: stored,
                    registered_at: now,
                    updated_at: now,
                },
            );
            assert(models(self.registrations@) =~= models(before).push(
                RegistrationModel::created(host@, model, now),
            ));
        }
        if changed {
            let rule = Reboot { host, repository_id: id, now };
            assert((|m: BootstrapModel| rule.holds(m)) =~= bootstraps_of(host@, id));
            assert((|m: BootstrapModel| rule.changed(m)) =~= (|m: BootstrapModel|
                m.with(true, now)));
            let n = update_where(&mut self.bootstraps, &rule);
        }
        Ok(())
    }

    /// Every registration, by name.
    pub fn list_registrations(&self) -> (r: Vec<RegisteredRepositoryRecord>)
        ensures
            models(r@) == sorted::<RegisteredRepositoryRecord>(self@.registrations),
    {
        sort(copy_rows(&self.registrations))
    }

    pub fn get_registration(&self, host: &str, repository_id: i64) -> (r: Option<
        RegisteredRepositoryRecord,
    >)
        ensures
            opt_model(r) == lookup(self@.registrations, of_repository(host@, repository_id)),
    {
        let test = OfRepository { host, repository_id };
        assert((|m: RegistrationModel| test.holds(m)) =~= of_repository(host@, repository_id));
        find_row(&self.registrations, &test)
    }

    pub fn get_registration_by_name(&self, host: &str, full_name: &str) -> (r: Option<
        RegisteredRepositoryRecord,
    >)
        ensures
            opt_model(r) == lookup(self@.registrations, of_name(host@, full_name@)),
    {
        let test = OfName { host, full_name };
        assert((|m: RegistrationModel| test.holds(m)) =~= of_name(host@, full_name@));
        find_row(&self.registrations, &test)
    }

    pub fn is_registered(&self, host: &str, repository_id: i64) -> (r: bool)
        ensures
            r == any(self@.registrations, of_repository(host@, repository_id)),
    {
        let test = OfRepository { host, repository_id };
        assert((|m: RegistrationModel| test.holds(m)) =~= of_repository(host@, repository_id));
        any_row(&self.registrations, &test)
    }

    /// Forgets a repository. Its pull requests are no longer watched, and the
    /// work that waits for it is dropped.
    pub fn remove_registration(&mut self, host: &str, repository_id: i64, now: i64) -> (r: bool)
        ensures
            final(self)@ == old(self)@.remove_registration(host@, repository_id, now),
            r == any(old(self)@.registrations, of_repository(host@, repository_id)),
    {
        let leave = Leave { host, repository_id, now };
        assert((|m: TrackedModel| leave.holds(m)) =~= pulls_of(host@, repository_id));
        assert((|m: TrackedModel| leave.changed(m)) =~= (|m: TrackedModel| m.deactivated(now)));
        let abandon = Abandon { host, repository_id, now };
        assert((|m: ActionModel| abandon.holds(m)) =~= waiting_in(host@, repository_id));
        assert((|m: ActionModel| abandon.changed(m)) =~= (|m: ActionModel| m.abandoned(now)));
        let unfinished = Unfinished { host, repository_id };
        assert((|m: DiscoveryModel| unfinished.holds(m)) =~= unfinished_of(host@, repository_id));
        let test = OfRepository { host, repository_id };
        assert((|m: RegistrationModel| test.holds(m)) =~= of_repository(host@, repository_id));
        let boots = Reboot { host, repository_id, now };
        assert((|m: BootstrapModel| boots.holds(m)) =~= bootstraps_of(host@, repository_id));
        proof {
            count_is_zero(self@.registrations, of_repository(host@, repository_id));
        }
        let left = update_where(&mut self.tracked_pulls, &leave);
        let abandoned = update_where(&mut self.actions, &abandon);
        let dropped = remove_where(&mut self.discoveries, &unfinished);
        let gone = remove_where(&mut self.registrations, &test);
        if gone != 0 {
            let forgotten = remove_where(&mut self.bootstraps, &boots);
        }
        gone != 0
    }

    /// Whether the viewer still has to bootstrap the repository. There is no
    /// answer for one that is not registered.
    pub fn bootstrap_pending(&self, host: &str, viewer_id: i64, repository_id: i64) -> (r: Option<
        bool,
    >)
        ensures
            r == self@.bootstrap_pending(host@, viewer_id, repository_id),
    {
        if !self.is_registered(host, repository_id) {
            return None;
        }
        let test = Booted { host, viewer_id, repository_id, now: 0 };
        assert((|m: BootstrapModel| test.holds(m)) =~= bootstrap_of(
            host@,
            viewer_id,
            repository_id,
        ));
        match find_row(&self.bootstraps, &test) {
            Some(row) => Some(row.pending),
            None => Some(true),
        }
    }

    /// Records that one viewer bootstrapped the repository. The other viewers
    /// are not concerned.
    pub fn mark_bootstrap_complete(
        &mut self,
        host: &str,
        viewer_id: i64,
        repository_id: i64,
        now: i64,
    ) -> (r: bool)
        ensures
            final(self)@ == old(self)@.mark_bootstrap_complete(
                host@,
                viewer_id,
                repository_id,
                now,
            ),
            r == any(old(self)@.registrations, of_repository(host@, repository_id)),
    {
        if !self.is_registered(host, repository_id) {
            return false;
        }
        let rule = Booted { host, viewer_id, repository_id, now };
        let ghost key = bootstrap_of(host@, viewer_id, repository_id);
        assert((|m: BootstrapModel| rule.holds(m)) =~= key);
        assert((|m: BootstrapModel| rule.changed(m)) =~= (|m: BootstrapModel| m.with(false, now)));
        if any_row(&self.bootstraps, &rule) {
            let n = update_where(&mut self.bootstraps, &rule);
        } else {
            let ghost before = self.bootstraps@;
            self.bootstraps.push(
                BootstrapRecord {
                    host: host.to_owned(),
                    viewer_id,
                    repository_id,
                    pending: false,
                    updated_at: now,
                },
            );
            assert(models(self.bootstraps@) =~= models(before).push(
                BootstrapModel {
                    host: host@,
                    viewer_id,
                    repository_id,
                    pending: false,
                    updated_at: now,
                },
            ));
        }
        true
    }

    pub fn get_metadata(&self, key: &str) -> (r: Option<String>)
        ensures
            opt_text(r) == match lookup(self@.metadata, has_key(key@)) {
                Some(m) => Some(m.value),
                None => None,
            },
    {
        let test = SetValue { key, value: "", now: 0 };
        assert((|m: MetadataModel| test.holds(m)) =~= has_key(key@));
        match find_row(&self.metadata, &test) {
            Some(row) => Some(row.value),
            None => None,
        }
    }

    pub fn set_metadata(&mut self, key: &str, value: &str, now: i64)
        ensures
            final(self)@ == old(self)@.set_metadata(key@, value@, now),
    {
        let rule = SetValue { key, value, now };
        let ghost entry = MetadataModel { key: key@, value: value@, updated_at: now };
        assert((|m: MetadataModel| rule.holds(m)) =~= has_key(key@));
        assert((|m: MetadataModel| rule.changed(m)) =~= (|m: MetadataModel| entry));
        if any_row(&self.metadata, &rule) {
            let n = update_where(&mut self.metadata, &rule);
        } else {
            let ghost before = self.metadata@;
            self.metadata.push(
                MetadataEntry { key: key.to_owned(), value: value.to_owned(), updated_at: now },
            );
            assert(models(self.metadata@) =~= models(before).push(entry));
        }
    }

    pub fn poll_state(&self, host: &str, viewer_id: i64) -> (r: Option<PollState>)
        ensures
            opt_model(r) == lookup(self@.poll_states, poll_of(host@, viewer_id)),
    {
        let test = SetPoll { host, viewer_id, last_modified: None, high_water: None, now: 0 };
        assert((|m: PollModel| test.holds(m)) =~= poll_of(host@, viewer_id));
        find_row(&self.poll_states, &test)
    }

    /// Records what the next conditional poll starts from.
    pub fn set_poll_state(
        &mut self,
        host: &str,
        viewer_id: i64,
        last_modified: Option<&str>,
        high_water: Option<&str>,
        now: i64,
    )
        ensures
            final(self)@ == old(self)@.set_poll_state(
                host@,
                viewer_id,
                opt_str(last_modified),
                opt_str(high_water),
                now,
            ),
    {
        let rule = SetPoll { host, viewer_id, last_modified, high_water, now };
        let ghost state = PollModel {
            host: host@,
            viewer_id,
            last_modified: opt_str(last_modified),
            high_water: opt_str(high_water),
            updated_at: now,
        };
        assert((|m: PollModel| rule.holds(m)) =~= poll_of(host@, viewer_id));
        assert((|m: PollModel| rule.changed(m)) =~= (|m: PollModel| state));
        if any_row(&self.poll_states, &rule) {
            let n = update_where(&mut self.poll_states, &rule);
        } else {
            let ghost before = self.poll_states@;
            self.poll_states.push(
                PollState {
                    host: host.to_owned(),
                    viewer_id,
                    last_modified: opt_owned(last_modified),
                    high_water: opt_owned(high_water),
                    updated_at: now,
                },
            );
            assert(models(self.poll_states@) =~= models(before).push(state));
        }
    }
}

} // verus!
