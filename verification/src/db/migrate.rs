//! How an older store is brought up to date.

use vstd::prelude::*;
use crate::db::rows::{ActionModel, ActionStatus, DbError, ReviewAction};
use crate::order::models;
use crate::table::{best, choose_row, select, Choice, Test};
use crate::text::str_eq;

verus! {

/// The version of the store that this library works on.
pub const SCHEMA_VERSION: i64 = 5;

/// One step on the way to the current version.
#[derive(Clone, Copy, Debug, PartialEq, Eq, Structural)]
pub enum Migration {
    /// Creates every table.
    CreateSchema,
    /// Gives the actions a column for the base revision.
    AddBaseSha,
    /// Records bootstraps per viewer.
    AddBootstraps,
    /// Drops the base revision from the identity of an action.
    CollapseActions,
    /// Queues the discovery of notifications.
    AddDiscoveries,
}

impl Migration {
    /// The version that the step starts from.
    pub open spec fn starts_from(self) -> int {
        match self {
            Migration::CreateSchema => 0,
            Migration::AddBaseSha => 1,
            Migration::AddBootstraps => 2,
            Migration::CollapseActions => 3,
            Migration::AddDiscoveries => 4,
        }
    }

    /// The version that the step leads to.
    pub open spec fn leads_to(self) -> int {
        match self {
            Migration::CreateSchema => 5,
            Migration::AddBaseSha => 2,
            Migration::AddBootstraps => 3,
            Migration::CollapseActions => 4,
            Migration::AddDiscoveries => 5,
        }
    }

    pub fn version(self) -> (r: i64)
        ensures
            r == self.leads_to(),
    {
        match self {
            Migration::CreateSchema => 5,
            Migration::AddBaseSha => 2,
            Migration::AddBootstraps => 3,
            Migration::CollapseActions => 4,
            Migration::AddDiscoveries => 5,
        }
    }
}

/// The steps lead from `version` to the current one, each from where the one
/// before it led.
pub open spec fn leads_up(version: int, steps: Seq<Migration>) -> bool
    decreases steps.len(),
{
    if steps.len() == 0 {
        version == SCHEMA_VERSION
    } else {
        steps[0].starts_from() == version && leads_up(steps[0].leads_to(), steps.skip(1))
    }
}

/// The steps for a store of the given version. One that is newer than this
/// library is refused. A negative version is left alone.
pub open spec fn steps_from(version: int) -> Result<Seq<Migration>, DbError> {
    if version > SCHEMA_VERSION {
        Err(DbError::SchemaTooNew { version: version as i64 })
    } else if version == 0 {
        Ok(seq![Migration::CreateSchema])
    } else if version == 1 {
        Ok(
            seq![
                Migration::AddBaseSha,
                Migration::AddBootstraps,
                Migration::CollapseActions,
                Migration::AddDiscoveries,
            ],
        )
    } else if version == 2 {
        Ok(seq![Migration::AddBootstraps, Migration::CollapseActions, Migration::AddDiscoveries])
    } else if version == 3 {
        Ok(seq![Migration::CollapseActions, Migration::AddDiscoveries])
    } else if version == 4 {
        Ok(seq![Migration::AddDiscoveries])
    } else {
        Ok(seq![])
    }
}

pub fn migration_plan(version: i64) -> (r: Result<Vec<Migration>, DbError>)
    ensures
        match r {
            Ok(steps) => steps_from(version as int) == Ok::<Seq<Migration>, DbError>(steps@),
            Err(error) => steps_from(version as int) == Err::<Seq<Migration>, DbError>(error),
        },
{
    if version > SCHEMA_VERSION {
        return Err(DbError::SchemaTooNew { version });
    }
    let mut steps: Vec<Migration> = Vec::new();
    if version == 0 {
        steps.push(Migration::CreateSchema);
    }
    if version == 1 {
        steps.push(Migration::AddBaseSha);
    }
    if version == 1 || version == 2 {
        steps.push(Migration::AddBootstraps);
    }
    if 1 <= version && version <= 3 {
        steps.push(Migration::CollapseActions);
    }
    if 1 <= version && version <= 4 {
        steps.push(Migration::AddDiscoveries);
    }
    proof {
        let planned = steps_from(version as int)->Ok_0;
        assert(steps@ =~= planned);
    }
    Ok(steps)
}

/// The plan for a store of any known version leads to the current version.
pub proof fn plan_reaches_current_version(version: int)
    requires
        0 <= version <= SCHEMA_VERSION,
    ensures
        steps_from(version) matches Ok(steps) && leads_up(version, steps),
{
    reveal_with_fuel(leads_up, 6);
    if version == 0 {
        let s = seq![Migration::CreateSchema];
        assert(s.skip(1).len() == 0);
    } else if version < 5 {
        let s4 = seq![Migration::AddDiscoveries];
        assert(s4.skip(1).len() == 0);
        assert(leads_up(4, s4));
        let s3 = seq![Migration::CollapseActions, Migration::AddDiscoveries];
        assert(s3.skip(1) =~= s4);
        assert(leads_up(3, s3));
        let s2 = seq![
            Migration::AddBootstraps,
            Migration::CollapseActions,
            Migration::AddDiscoveries,
        ];
        assert(s2.skip(1) =~= s3);
        assert(leads_up(2, s2));
        let s1 = seq![
            Migration::AddBaseSha,
            Migration::AddBootstraps,
            Migration::CollapseActions,
            Migration::AddDiscoveries,
        ];
        assert(s1.skip(1) =~= s2);
    }
}

// ---------------------------------------------------------------------------
// Actions that differ in their base revision only
// ---------------------------------------------------------------------------

impl ActionStatus {
    /// The rank of a status when one of several actions is kept.
    pub open spec fn rank(self) -> int {
        match self {
            ActionStatus::Succeeded => 0,
            ActionStatus::Running => 1,
            ActionStatus::Pending => 2,
            ActionStatus::Parked => 3,
            ActionStatus::Cancelled => 4,
        }
    }

    fn rank_number(self) -> (r: u8)
        ensures
            r == self.rank(),
    {
        match self {
            ActionStatus::Succeeded => 0,
            ActionStatus::Running => 1,
            ActionStatus::Pending => 2,
            ActionStatus::Parked => 3,
            ActionStatus::Cancelled => 4,
        }
    }
}

impl ActionModel {
    /// `self` is kept rather than `other`: by status, then the later change,
    /// then the larger number.
    pub open spec fn kept_before(self, other: ActionModel) -> bool {
        if self.status.rank() != other.status.rank() {
            self.status.rank() < other.status.rank()
        } else if self.updated_at != other.updated_at {
            self.updated_at > other.updated_at
        } else {
            self.id >= other.id
        }
    }
}

pub open spec fn identical_to(m: ActionModel) -> spec_fn(ActionModel) -> bool {
    |c: ActionModel| c.identical(m)
}

/// The position of the one action that is kept of those identical to `m`.
pub open spec fn keeper(rows: Seq<ActionModel>, m: ActionModel) -> Option<int> {
    best(rows, identical_to(m), |a: ActionModel, b: ActionModel| a.kept_before(b))
}

/// Of the actions with the same identity, one is kept.
pub open spec fn collapsed(rows: Seq<ActionModel>) -> Seq<ActionModel> {
    rows.filter(
        |m: ActionModel| keeper(rows, m) matches Some(k) && rows[k].id == m.id,
    )
}

struct IdenticalTo<'a> {
    row: &'a ReviewAction,
}

impl<'a> Test<ReviewAction> for IdenticalTo<'a> {
    closed spec fn holds(&self, m: ActionModel) -> bool {
        identical_to(self.row@)(m)
    }

    fn check(&self, row: &ReviewAction) -> (r: bool) {
        str_eq(row.host.as_str(), self.row.host.as_str()) && row.viewer_id == self.row.viewer_id
            && row.repository_id == self.row.repository_id && row.pull_request_id
            == self.row.pull_request_id && str_eq(
            row.head_sha.as_str(),
            self.row.head_sha.as_str(),
        ) && str_eq(row.trigger_key.as_str(), self.row.trigger_key.as_str())
    }
}

impl<'a> Choice<ReviewAction> for IdenticalTo<'a> {
    closed spec fn precedes(&self, a: ActionModel, b: ActionModel) -> bool {
        a.kept_before(b)
    }

    fn is_before(&self, a: &ReviewAction, b: &ReviewAction) -> (r: bool) {
        let first: u8 = a.status.rank_number();
        let second: u8 = b.status.rank_number();
        if first != second {
            first < second
        } else if a.updated_at != b.updated_at {
            a.updated_at > b.updated_at
        } else {
            a.id >= b.id
        }
    }
}

struct Kept<'a> {
    rows: &'a Vec<ReviewAction>,
}

impl<'a> Test<ReviewAction> for Kept<'a> {
    closed spec fn holds(&self, m: ActionModel) -> bool {
        keeper(models(self.rows@), m) matches Some(k) && models(self.rows@)[k].id == m.id
    }

    fn check(&self, row: &ReviewAction) -> (r: bool) {
        let rule = IdenticalTo { row };
        assert((|m: ActionModel| rule.holds(m)) =~= identical_to(row@));
        assert((|a: ActionModel, b: ActionModel| rule.precedes(a, b)) =~= (|
            a: ActionModel,
            b: ActionModel,
        | a.kept_before(b)));
        match choose_row(self.rows, &rule) {
            Some(k) => self.rows[k].id == row.id,
            None => false,
        }
    }
}

/// Keeps one of the actions that differ in their base revision only.
pub fn collapse_actions(rows: &Vec<ReviewAction>) -> (r: Vec<ReviewAction>)
    ensures
        models(r@) == collapsed(models(rows@)),
{
    let test = Kept { rows };
    assert((|m: ActionModel| test.holds(m)) =~= (|m: ActionModel|
        keeper(models(rows@), m) matches Some(k) && models(rows@)[k].id == m.id));
    select(rows, &test)
}

/// No two actions have the same number.
pub open spec fn distinct_ids(rows: Seq<ActionModel>) -> bool {
    forall|i: int, j: int|
        #![trigger rows[i], rows[j]]
        0 <= i < rows.len() && 0 <= j < rows.len() && rows[i].id == rows[j].id ==> i == j
}

/// One of the rows has the identity of `m`, and has succeeded if `m` has.
pub open spec fn represented(rows: Seq<ActionModel>, m: ActionModel) -> bool {
    exists|j: int|
        0 <= j < rows.len() && #[trigger] rows[j].identical(m) && (m.status
            == ActionStatus::Succeeded ==> rows[j].status == ActionStatus::Succeeded)
}

proof fn keeper_is_shared(rows: Seq<ActionModel>, a: ActionModel, b: ActionModel)
    requires
        a.identical(b),
    ensures
        keeper(rows, a) == keeper(rows, b),
{
    assert(identical_to(a) =~= identical_to(b));
}

/// Collapsing leaves no two actions with the same identity, drops no identity,
/// and keeps a success where there is one.
pub proof fn collapse_keeps_one_of_each(rows: Seq<ActionModel>)
    requires
        distinct_ids(rows),
    ensures
        forall|i: int, j: int|
            #![trigger collapsed(rows)[i], collapsed(rows)[j]]
            0 <= i < collapsed(rows).len() && 0 <= j < collapsed(rows).len() && collapsed(
                rows,
            )[i].identical(collapsed(rows)[j]) ==> collapsed(rows)[i] == collapsed(rows)[j],
        forall|i: int|
            0 <= i < rows.len() ==> represented(collapsed(rows), #[trigger] rows[i]),
{
    let before = |a: ActionModel, b: ActionModel| a.kept_before(b);
    let drop = |m: ActionModel| !(keeper(rows, m) matches Some(k) && rows[k].id == m.id);
    let left = collapsed(rows);
    assert((|m: ActionModel| !drop(m)) =~= (|m: ActionModel|
        keeper(rows, m) matches Some(k) && rows[k].id == m.id));
    crate::table::removed_keeps(rows, drop);
    assert(crate::table::removed(rows, drop) == left);
    assert forall|i: int, j: int|
        #![trigger left[i], left[j]]
        0 <= i < left.len() && 0 <= j < left.len() && left[i].identical(left[j]) implies left[i]
        == left[j] by {
        keeper_is_shared(rows, left[i], left[j]);
        let a = choose|a: int| 0 <= a < rows.len() && rows[a] == left[i];
        let b = choose|b: int| 0 <= b < rows.len() && rows[b] == left[j];
        assert(rows[a].id == rows[b].id);
    }
    assert forall|i: int| 0 <= i < rows.len() implies represented(left, #[trigger] rows[i]) by {
        let m = rows[i];
        crate::table::best_is_best(rows, identical_to(m), before);
        assert(identical_to(m)(rows[i]));
        assert(crate::table::any(rows, identical_to(m)));
        let k = keeper(rows, m)->0;
        assert(identical_to(m)(rows[k]));
        assert(before(rows[k], rows[i]));
        keeper_is_shared(rows, rows[k], m);
        assert(!drop(rows[k]));
        let j = choose|j: int| 0 <= j < left.len() && left[j] == rows[k];
        assert(left[j].identical(rows[i]));
    }
}

} // verus!
