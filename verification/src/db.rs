//! The state of the application: registered repositories, notifications,
//! tracked pull requests, review actions and daemon leases.
//!
//! A [`Database`] holds every table in memory. Each operation either changes
//! the tables as its contract says or refuses and changes nothing. The program
//! loads the tables in one transaction, performs an operation and stores them.

pub mod action_effects;
pub mod actions;
pub mod integrity;
pub mod laws;
pub mod leases;
pub mod migrate;
pub mod notification_effects;
pub mod notifications;
pub mod overview;
pub mod overview_effects;
pub mod pulls;
pub mod registry;
pub mod registry_effects;
pub mod rows;

use vstd::prelude::*;
use crate::order::models;
use crate::paths::{path_join, path_joined};
use crate::db::rows::{
    ActionModel, BootstrapModel, BootstrapRecord, DaemonLease, DiscoveryModel, DiscoveryRecord,
    LeaseModel, MetadataEntry, MetadataModel, PollModel, PollState, RegisteredRepositoryRecord,
    RegistrationModel, ReviewAction, StoredModel, StoredNotification, TrackedModel,
    TrackedPullRequest,
};

verus! {

/// Every table of the application.
pub struct Database {
    pub registrations: Vec<RegisteredRepositoryRecord>,
    pub metadata: Vec<MetadataEntry>,
    pub poll_states: Vec<PollState>,
    pub bootstraps: Vec<BootstrapRecord>,
    pub leases: Vec<DaemonLease>,
    pub notifications: Vec<StoredNotification>,
    pub discoveries: Vec<DiscoveryRecord>,
    pub tracked_pulls: Vec<TrackedPullRequest>,
    pub actions: Vec<ReviewAction>,
    /// The largest number that an action ever had.
    pub last_action_id: i64,
}

/// The contents of the tables.
#[verifier::ext_equal]
pub struct State {
    pub registrations: Seq<RegistrationModel>,
    pub metadata: Seq<MetadataModel>,
    pub poll_states: Seq<PollModel>,
    pub bootstraps: Seq<BootstrapModel>,
    pub leases: Seq<LeaseModel>,
    pub notifications: Seq<StoredModel>,
    pub discoveries: Seq<DiscoveryModel>,
    pub tracked_pulls: Seq<TrackedModel>,
    pub actions: Seq<ActionModel>,
    pub last_action_id: i64,
}

impl View for Database {
    type V = State;

    open spec fn view(&self) -> State {
        State {
            registrations: models(self.registrations@),
            metadata: models(self.metadata@),
            poll_states: models(self.poll_states@),
            bootstraps: models(self.bootstraps@),
            leases: models(self.leases@),
            notifications: models(self.notifications@),
            discoveries: models(self.discoveries@),
            tracked_pulls: models(self.tracked_pulls@),
            actions: models(self.actions@),
            last_action_id: self.last_action_id,
        }
    }
}

impl State {
    /// No table holds a row.
    pub open spec fn empty() -> State {
        State {
            registrations: seq![],
            metadata: seq![],
            poll_states: seq![],
            bootstraps: seq![],
            leases: seq![],
            notifications: seq![],
            discoveries: seq![],
            tracked_pulls: seq![],
            actions: seq![],
            last_action_id: 0,
        }
    }
}

impl Database {
    /// Tables without rows.
    pub fn new() -> (r: Database)
        ensures
            r@ == State::empty(),
    {
        let r = Database {
            registrations: Vec::new(),
            metadata: Vec::new(),
            poll_states: Vec::new(),
            bootstraps: Vec::new(),
            leases: Vec::new(),
            notifications: Vec::new(),
            discoveries: Vec::new(),
            tracked_pulls: Vec::new(),
            actions: Vec::new(),
            last_action_id: 0,
        };
        assert(r@ =~= State::empty());
        r
    }

    /// Where the tables are stored: in the configuration of the user whose home
    /// directory is `home`.
    pub fn default_path(home: Option<&str>) -> (r: Result<String, &'static str>)
        ensures
            match home {
                Some(home) => r matches Ok(path) && path@ == path_joined(
                    path_joined(path_joined(home@, ".config"@), "github-reviews"@),
                    "state.sqlite3"@,
                ),
                None => r matches Err(message) && message@ == "no home directory is available"@,
            },
    {
        match home {
            Some(home) => {
                let configuration = path_join(home, ".config");
                let directory = path_join(configuration.as_str(), "github-reviews");
                Ok(path_join(directory.as_str(), "state.sqlite3"))
            },
            None => Err("no home directory is available"),
        }
    }
}

} // verus!
