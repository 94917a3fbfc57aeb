//! The pull requests that are watched.

use vstd::prelude::*;
use crate::db::actions::MAX_STORED_NUMBER;
use crate::db::rows::{DbError, TrackedModel, TrackedPullRequest};
use crate::db::{Database, State};
use crate::order::{models, sort, sorted, Ranked};
use crate::table::{
    any, any_row, count_is_zero, limited, select, update_where, updated, Change, Test,
};
use crate::text::str_eq;

verus! {

pub open spec fn pull_of(
    host: Seq<char>,
    viewer_id: i64,
    repository_id: i64,
    pull_request_id: i64,
) -> spec_fn(TrackedModel) -> bool {
    |m: TrackedModel|
        m.host == host && m.viewer_id == viewer_id && m.repository_id == repository_id
            && m.pull_request.id == pull_request_id
}

pub open spec fn due_pull(host: Seq<char>, viewer_id: i64, now: i64) -> spec_fn(
    TrackedModel,
) -> bool {
    |m: TrackedModel|
        m.host == host && m.viewer_id == viewer_id && m.active && m.next_check_at <= now
}

impl TrackedModel {
    /// The same pull request, watched for the same viewer.
    pub open spec fn key(self) -> spec_fn(TrackedModel) -> bool {
        pull_of(self.host, self.viewer_id, self.repository_id, self.pull_request.id)
    }
}

impl State {
    pub open spec fn upsert_tracked_pull_request(self, pull: TrackedModel) -> Result<
        State,
        DbError,
    > {
        if pull.pull_request.number > MAX_STORED_NUMBER {
            Err(DbError::NumberTooLarge)
        } else {
            Ok(
                State {
                    tracked_pulls: if any(self.tracked_pulls, pull.key()) {
                        updated(self.tracked_pulls, pull.key(), |m: TrackedModel| pull)
                    } else {
                        self.tracked_pulls.push(pull)
                    },
                    ..self
                },
            )
        }
    }

    /// The active pull requests that are due, the longest due first.
    pub open spec fn due_pulls(self, host: Seq<char>, viewer_id: i64, now: i64) -> Seq<
        TrackedModel,
    > {
        sorted::<TrackedPullRequest>(self.tracked_pulls.filter(due_pull(host, viewer_id, now)))
    }

    pub open spec fn deactivate_tracked_pull_request(
        self,
        host: Seq<char>,
        viewer_id: i64,
        repository_id: i64,
        pull_request_id: i64,
        now: i64,
    ) -> State {
        State {
            tracked_pulls: updated(
                self.tracked_pulls,
                pull_of(host, viewer_id, repository_id, pull_request_id),
                |m: TrackedModel| m.deactivated(now),
            ),
            ..self
        }
    }
}

impl Ranked for TrackedPullRequest {
    /// By the time of the next check, and id.
    open spec fn at_most(a: TrackedModel, b: TrackedModel) -> bool {
        if a.next_check_at != b.next_check_at {
            a.next_check_at < b.next_check_at
        } else {
            a.pull_request.id <= b.pull_request.id
        }
    }

    proof fn total(a: TrackedModel, b: TrackedModel) {
    }

    proof fn transitive(a: TrackedModel, b: TrackedModel, c: TrackedModel) {
    }

    fn is_at_most(&self, other: &Self) -> (r: bool) {
        if self.next_check_at != other.next_check_at {
            self.next_check_at < other.next_check_at
        } else {
            self.pull_request.id <= other.pull_request.id
        }
    }
}

struct Replace<'a> {
    pull: &'a TrackedPullRequest,
}

impl<'a> Test<TrackedPullRequest> for Replace<'a> {
    closed spec fn holds(&self, m: TrackedModel) -> bool {
        self.pull@.key()(m)
    }

    fn check(&self, row: &TrackedPullRequest) -> (r: bool) {
        str_eq(row.host.as_str(), self.pull.host.as_str()) && row.viewer_id == self.pull.viewer_id
            && row.repository_id == self.pull.repository_id && row.pull_request.id
            == self.pull.pull_request.id
    }
}

impl<'a> Change<TrackedPullRequest> for Replace<'a> {
    closed spec fn changed(&self, m: TrackedModel) -> TrackedModel {
        self.pull@
    }

    fn apply(&self, row: &mut TrackedPullRequest) {
        *row = self.pull.clone();
    }
}

struct DuePull<'a> {
    host: &'a str,
    viewer_id: i64,
    now: i64,
}

impl<'a> Test<TrackedPullRequest> for DuePull<'a> {
    closed spec fn holds(&self, m: TrackedModel) -> bool {
        due_pull(self.host@, self.viewer_id, self.now)(m)
    }

    fn check(&self, row: &TrackedPullRequest) -> (r: bool) {
        str_eq(row.host.as_str(), self.host) && row.viewer_id == self.viewer_id && row.active
            && row.next_check_at <= self.now
    }
}

struct Deactivate<'a> {
    host: &'a str,
    viewer_id: i64,
    repository_id: i64,
    pull_request_id: i64,
    now: i64,
}

impl<'a> Test<TrackedPullRequest> for Deactivate<'a> {
    closed spec fn holds(&self, m: TrackedModel) -> bool {
        pull_of(self.host@, self.viewer_id, self.repository_id, self.pull_request_id)(m)
    }

    fn check(&self, row: &TrackedPullRequest) -> (r: bool) {
        str_eq(row.host.as_str(), self.host) && row.viewer_id == self.viewer_id
            && row.repository_id == self.repository_id && row.pull_request.id
            == self.pull_request_id
    }
}

impl<'a> Change<TrackedPullRequest> for Deactivate<'a> {
    closed spec fn changed(&self, m: TrackedModel) -> TrackedModel {
        m.deactivated(self.now)
    }

    fn apply(&self, row: &mut TrackedPullRequest) {
        row.active = false;
        row.updated_at = self.now;
    }
}

impl Database {
    /// Watches a pull request, in place of what was known of it before.
    pub fn upsert_tracked_pull_request(&mut self, pull: &TrackedPullRequest) -> (r: Result<
        (),
        DbError,
    >)
        ensures
            match r {
                Ok(_) => old(self)@.upsert_tracked_pull_request(pull@) == Ok::<State, DbError>(
                    final(self)@,
                ),
                Err(error) => old(self)@.upsert_tracked_pull_request(pull@) == Err::<
                    State,
                    DbError,
                >(error) && *final(self) == *old(self),
            },
    {
        if pull.pull_request.number > MAX_STORED_NUMBER {
            return Err(DbError::NumberTooLarge);
        }
        let rule = Replace { pull };
        let ghost model = pull@;
        assert((|m: TrackedModel| rule.holds(m)) =~= model.key());
        assert((|m: TrackedModel| rule.changed(m)) =~= (|m: TrackedModel| model));
        if any_row(&self.tracked_pulls, &rule) {
            let n = update_where(&mut self.tracked_pulls, &rule);
        } else {
            let ghost before = self.tracked_pulls@;
            self.tracked_pulls.push(pull.clone());
            assert(models(self.tracked_pulls@) =~= models(before).push(model));
        }
        Ok(())
    }

    /// The active pull requests that are due, at most `limit` of them.
    pub fn due_tracked_pull_requests(
        &self,
        host: &str,
        viewer_id: i64,
        now: i64,
        limit: usize,
    ) -> (r: Vec<TrackedPullRequest>)
        ensures
            models(r@) == if limit < self@.due_pulls(host@, viewer_id, now).len() {
                self@.due_pulls(host@, viewer_id, now).take(limit as int)
            } else {
                self@.due_pulls(host@, viewer_id, now)
            },
    {
        let test = DuePull { host, viewer_id, now };
        assert((|m: TrackedModel| test.holds(m)) =~= due_pull(host@, viewer_id, now));
        let ordered = sort(select(&self.tracked_pulls, &test));
        assert(models(ordered@).len() == ordered@.len());
        limited(ordered, limit)
    }

    pub fn deactivate_tracked_pull_request(
        &mut self,
        host: &str,
        viewer_id: i64,
        repository_id: i64,
        pull_request_id: i64,
        now: i64,
    ) -> (r: bool)
        ensures
            final(self)@ == old(self)@.deactivate_tracked_pull_request(
                host@,
                viewer_id,
                repository_id,
                pull_request_id,
                now,
            ),
            r == any(
                old(self)@.tracked_pulls,
                pull_of(host@, viewer_id, repository_id, pull_request_id),
            ),
    {
        let rule = Deactivate { host, viewer_id, repository_id, pull_request_id, now };
        let ghost key = pull_of(host@, viewer_id, repository_id, pull_request_id);
        assert((|m: TrackedModel| rule.holds(m)) =~= key);
        assert((|m: TrackedModel| rule.changed(m)) =~= (|m: TrackedModel| m.deactivated(now)));
        proof {
            count_is_zero(self@.tracked_pulls, key);
        }
        update_where(&mut self.tracked_pulls, &rule) != 0
    }
}

} // verus!
