//! The leases by which at most one daemon acts for a viewer.

use vstd::prelude::*;
use crate::db::rows::{DaemonLease, DbError, LeaseModel};
use crate::db::{Database, State};
use crate::order::models;
use crate::table::{
    any, any_row, count_is_zero, remove_where, removed, update_where, updated, Change, Test,
};
use crate::text::str_eq;
use crate::time::{has_date, MAX_MILLIS, MIN_MILLIS};

verus! {

pub open spec fn lease_of(host: Seq<char>, viewer_id: i64) -> spec_fn(LeaseModel) -> bool {
    |m: LeaseModel| m.host == host && m.viewer_id == viewer_id
}

/// The lease is over, or `owner` holds it.
pub open spec fn open_to(host: Seq<char>, viewer_id: i64, owner: Seq<char>, now: i64) -> spec_fn(
    LeaseModel,
) -> bool {
    |m: LeaseModel|
        m.host == host && m.viewer_id == viewer_id && (m.expires_at <= now || m.owner == owner)
}

/// `owner` holds the lease, and it is not over.
pub open spec fn live_for(host: Seq<char>, viewer_id: i64, owner: Seq<char>, now: i64) -> spec_fn(
    LeaseModel,
) -> bool {
    |m: LeaseModel|
        m.host == host && m.viewer_id == viewer_id && m.owner == owner && m.expires_at > now
}

pub open spec fn held_by(host: Seq<char>, viewer_id: i64, owner: Seq<char>) -> spec_fn(
    LeaseModel,
) -> bool {
    |m: LeaseModel| m.host == host && m.viewer_id == viewer_id && m.owner == owner
}

/// When a lease of `duration` milliseconds from `now` ends.
pub open spec fn expiry(now: i64, duration: i64) -> Result<i64, DbError> {
    if duration <= 0 {
        Err(DbError::LeaseDurationNotPositive)
    } else if !has_date(now + duration) {
        Err(DbError::LeaseExpiryOverflow)
    } else {
        Ok((now + duration) as i64)
    }
}

impl LeaseModel {
    pub open spec fn renewed(self, expires_at: i64, now: i64) -> LeaseModel {
        LeaseModel { expires_at, updated_at: now, ..self }
    }
}

impl State {
    pub open spec fn acquire_lease(
        self,
        host: Seq<char>,
        viewer_id: i64,
        viewer_login: Seq<char>,
        owner: Seq<char>,
        now: i64,
        duration: i64,
    ) -> Result<(State, bool), DbError> {
        match expiry(now, duration) {
            Err(error) => Err(error),
            Ok(expires_at) => {
                let lease = LeaseModel {
                    host,
                    viewer_id,
                    viewer_login,
                    owner,
                    expires_at,
                    updated_at: now,
                };
                if !any(self.leases, lease_of(host, viewer_id)) {
                    Ok((State { leases: self.leases.push(lease), ..self }, true))
                } else {
                    Ok(
                        (
                            State {
                                leases: updated(
                                    self.leases,
                                    open_to(host, viewer_id, owner, now),
                                    |m: LeaseModel| lease,
                                ),
                                ..self
                            },
                            any(self.leases, open_to(host, viewer_id, owner, now)),
                        ),
                    )
                }
            },
        }
    }

    pub open spec fn renew_lease(
        self,
        host: Seq<char>,
        viewer_id: i64,
        owner: Seq<char>,
        now: i64,
        duration: i64,
    ) -> Result<(State, bool), DbError> {
        match expiry(now, duration) {
            Err(error) => Err(error),
            Ok(expires_at) => Ok(
                (
                    State {
                        leases: updated(
                            self.leases,
                            live_for(host, viewer_id, owner, now),
                            |m: LeaseModel| m.renewed(expires_at, now),
                        ),
                        ..self
                    },
                    any(self.leases, live_for(host, viewer_id, owner, now)),
                ),
            ),
        }
    }

    pub open spec fn release_lease(
        self,
        host: Seq<char>,
        viewer_id: i64,
        owner: Seq<char>,
    ) -> State {
        State { leases: removed(self.leases, held_by(host, viewer_id, owner)), ..self }
    }
}

fn lease_expiry(now: i64, duration: i64) -> (r: Result<i64, DbError>)
    ensures
        r == expiry(now, duration),
{
    if duration <= 0 {
        return Err(DbError::LeaseDurationNotPositive);
    }
    let end: i128 = now as i128 + duration as i128;
    if end < MIN_MILLIS as i128 || end > MAX_MILLIS as i128 {
        return Err(DbError::LeaseExpiryOverflow);
    }
    Ok(end as i64)
}

struct LeaseOf<'a> {
    host: &'a str,
    viewer_id: i64,
}

impl<'a> Test<DaemonLease> for LeaseOf<'a> {
    closed spec fn holds(&self, m: LeaseModel) -> bool {
        lease_of(self.host@, self.viewer_id)(m)
    }

    fn check(&self, row: &DaemonLease) -> (r: bool) {
        str_eq(row.host.as_str(), self.host) && row.viewer_id == self.viewer_id
    }
}

struct Take<'a> {
    host: &'a str,
    viewer_id: i64,
    viewer_login: &'a str,
    owner: &'a str,
    expires_at: i64,
    now: i64,
}

impl<'a> Test<DaemonLease> for Take<'a> {
    closed spec fn holds(&self, m: LeaseModel) -> bool {
        open_to(self.host@, self.viewer_id, self.owner@, self.now)(m)
    }

    fn check(&self, row: &DaemonLease) -> (r: bool) {
        str_eq(row.host.as_str(), self.host) && row.viewer_id == self.viewer_id && (row.expires_at
            <= self.now || str_eq(row.owner.as_str(), self.owner))
    }
}

impl<'a> Change<DaemonLease> for Take<'a> {
    closed spec fn changed(&self, m: LeaseModel) -> LeaseModel {
        LeaseModel {
            host: self.host@,
            viewer_id: self.viewer_id,
            viewer_login: self.viewer_login@,
            owner: self.owner@,
            expires_at: self.expires_at,
            updated_at: self.now,
        }
    }

    fn apply(&self, row: &mut DaemonLease) {
        row.viewer_login = self.viewer_login.to_owned();
        row.owner = self.owner.to_owned();
        row.expires_at = self.expires_at;
        row.updated_at = self.now;
    }
}

struct Renew<'a> {
    host: &'a str,
    viewer_id: i64,
    owner: &'a str,
    expires_at: i64,
    now: i64,
}

impl<'a> Test<DaemonLease> for Renew<'a> {
    closed spec fn holds(&self, m: LeaseModel) -> bool {
        live_for(self.host@, self.viewer_id, self.owner@, self.now)(m)
    }

    fn check(&self, row: &DaemonLease) -> (r: bool) {
        str_eq(row.host.as_str(), self.host) && row.viewer_id == self.viewer_id && str_eq(
            row.owner.as_str(),
            self.owner,
        ) && row.expires_at > self.now
    }
}

impl<'a> Change<DaemonLease> for Renew<'a> {
    closed spec fn changed(&self, m: LeaseModel) -> LeaseModel {
        m.renewed(self.expires_at, self.now)
    }

    fn apply(&self, row: &mut DaemonLease) {
        row.expires_at = self.expires_at;
        row.updated_at = self.now;
    }
}

struct HeldBy<'a> {
    host: &'a str,
    viewer_id: i64,
    owner: &'a str,
}

impl<'a> Test<DaemonLease> for HeldBy<'a> {
    closed spec fn holds(&self, m: LeaseModel) -> bool {
        held_by(self.host@, self.viewer_id, self.owner@)(m)
    }

    fn check(&self, row: &DaemonLease) -> (r: bool) {
        str_eq(row.host.as_str(), self.host) && row.viewer_id == self.viewer_id && str_eq(
            row.owner.as_str(),
            self.owner,
        )
    }
}

impl Database {
    /// Takes a lease that nobody holds or that is over, or refreshes one that
    /// `owner` holds. A live lease of another owner is never taken. The
    /// duration is in milliseconds.
    pub fn acquire_lease(
        &mut self,
        host: &str,
        viewer_id: i64,
        viewer_login: &str,
        owner: &str,
        now: i64,
        duration: i64,
    ) -> (r: Result<bool, DbError>)
        ensures
            match r {
                Ok(taken) => old(self)@.acquire_lease(
                    host@,
                    viewer_id,
                    viewer_login@,
                    owner@,
                    now,
                    duration,
                ) == Ok::<(State, bool), DbError>((final(self)@, taken)),
                Err(error) => old(self)@.acquire_lease(
                    host@,
                    viewer_id,
                    viewer_login@,
                    owner@,
                    now,
                    duration,
                ) == Err::<(State, bool), DbError>(error) && *final(self) == *old(self),
            },
    {
        let expires_at: i64 = match lease_expiry(now, duration) {
            Ok(end) => end,
            Err(error) => {
                return Err(error);
            },
        };
        let ghost lease = LeaseModel {
            host: host@,
            viewer_id,
            viewer_login: viewer_login@,
            owner: owner@,
            expires_at,
            updated_at: now,
        };
        let test = LeaseOf { host, viewer_id };
        assert((|m: LeaseModel| test.holds(m)) =~= lease_of(host@, viewer_id));
        if !any_row(&self.leases, &test) {
            let ghost before = self.leases@;
            self.leases.push(
                DaemonLease {
                    host: host.to_owned(),
                    viewer_id,
                    viewer_login: viewer_login.to_owned(),
                    owner: owner.to_owned(),
                    expires_at,
                    updated_at: now,
                },
            );
            assert(models(self.leases@) =~= models(before).push(lease));
            return Ok(true);
        }
        let rule = Take { host, viewer_id, viewer_login, owner, expires_at, now };
        let ghost key = open_to(host@, viewer_id, owner@, now);
        assert((|m: LeaseModel| rule.holds(m)) =~= key);
        assert((|m: LeaseModel| rule.changed(m)) =~= (|m: LeaseModel| lease));
        proof {
            count_is_zero(self@.leases, key);
        }
        Ok(update_where(&mut self.leases, &rule) != 0)
    }

    /// Extends a lease that `owner` holds and that is not over.
    pub fn renew_lease(
        &mut self,
        host: &str,
        viewer_id: i64,
        owner: &str,
        now: i64,
        duration: i64,
    ) -> (r: Result<bool, DbError>)
        ensures
            match r {
                Ok(renewed) => old(self)@.renew_lease(host@, viewer_id, owner@, now, duration)
                    == Ok::<(State, bool), DbError>((final(self)@, renewed)),
                Err(error) => old(self)@.renew_lease(host@, viewer_id, owner@, now, duration)
                    == Err::<(State, bool), DbError>(error) && *final(self) == *old(self),
            },
    {
        let expires_at: i64 = match lease_expiry(now, duration) {
            Ok(end) => end,
            Err(error) => {
                return Err(error);
            },
        };
        let rule = Renew { host, viewer_id, owner, expires_at, now };
        let ghost key = live_for(host@, viewer_id, owner@, now);
        assert((|m: LeaseModel| rule.holds(m)) =~= key);
        assert((|m: LeaseModel| rule.changed(m)) =~= (|m: LeaseModel| m.renewed(expires_at, now)));
        proof {
            count_is_zero(self@.leases, key);
        }
        Ok(update_where(&mut self.leases, &rule) != 0)
    }

    /// Gives up a lease that `owner` holds.
    pub fn release_lease(&mut self, host: &str, viewer_id: i64, owner: &str) -> (r: bool)
        ensures
            final(self)@ == old(self)@.release_lease(host@, viewer_id, owner@),
            r == any(old(self)@.leases, held_by(host@, viewer_id, owner@)),
    {
        let test = HeldBy { host, viewer_id, owner };
        let ghost key = held_by(host@, viewer_id, owner@);
        assert((|m: LeaseModel| test.holds(m)) =~= key);
        proof {
            count_is_zero(self@.leases, key);
        }
        remove_where(&mut self.leases, &test) != 0
    }
}

} // verus!
