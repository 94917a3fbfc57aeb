//! The daemon: what it reads of GitHub, which reviews it starts, and when it
//! stops.

pub mod cycle;
pub mod discovery;
pub mod effects;
pub mod laws;
pub mod prepare;
pub mod refresh;
pub mod report;
pub mod retry;
pub mod round;
pub mod shutdown;

use vstd::prelude::*;
use crate::db::rows::{RegisteredRepositoryRecord, RegistrationModel};
use crate::model::{PullModel, PullRequestState};
use crate::order::models;

verus! {

/// The only host.
pub const HOST: &'static str = "github.com";

/// The registration of a repository: the last one of the list, where the
/// repository occurs more than once.
pub open spec fn registration_in(registrations: Seq<RegistrationModel>, repository_id: i64) -> Option<
    RegistrationModel,
>
    decreases registrations.len(),
{
    if registrations.len() == 0 {
        None
    } else if registrations.last().repository.repository.id == repository_id {
        Some(registrations.last())
    } else {
        registration_in(registrations.drop_last(), repository_id)
    }
}

pub fn find_registration(
    registrations: &Vec<RegisteredRepositoryRecord>,
    repository_id: i64,
) -> (r: Option<&RegisteredRepositoryRecord>)
    ensures
        match r {
            Some(found) => registration_in(models(registrations@), repository_id) == Some(found@),
            None => registration_in(models(registrations@), repository_id) is None,
        },
{
    let ghost all = models(registrations@);
    let mut i: usize = registrations.len();
    assert(all.take(i as int) =~= all);
    while i > 0
        invariant
            i <= registrations@.len(),
            all == models(registrations@),
            all.len() == registrations@.len(),
            registration_in(all, repository_id) == registration_in(
                all.take(i as int),
                repository_id,
            ),
        decreases i,
    {
        assert(all.take(i as int).drop_last() =~= all.take(i as int - 1));
        assert(all.take(i as int).last() == registrations@[i as int - 1]@);
        i -= 1;
        if registrations[i].repository.repository.id == repository_id {
            return Some(&registrations[i]);
        }
    }
    None
}

/// The teams that count as the viewer's. Where their teams are not known, every
/// team that was asked counts: a notification says that one of them is theirs.
pub open spec fn teams_for(trust: bool, viewer_team_ids: Seq<i64>, pull: PullModel) -> Seq<i64> {
    if trust {
        pull.requested_team_ids
    } else {
        viewer_team_ids
    }
}

pub fn effective_teams<'a>(
    trust: bool,
    viewer_team_ids: &'a Vec<i64>,
    pull: &'a PullRequestState,
) -> (r: &'a Vec<i64>)
    ensures
        r@ == teams_for(trust, viewer_team_ids@, pull@),
{
    if trust {
        &pull.requested_team_ids
    } else {
        viewer_team_ids
    }
}

} // verus!
