//! What the commands print.

use vstd::prelude::*;
use crate::cli::PullRequestSelector;
use crate::daemon::HOST;
use crate::db::overview::StatusSnapshot;
use crate::db::rows::{
    ActionModel, DaemonLease, LeaseModel, PollModel, PollState, RegisteredRepositoryRecord,
    RegistrationModel, ReviewAction,
};
use crate::db::{Database, State};
use crate::number::{decimal, i64_text, int_text, u64_text};
use crate::order::models;
use crate::paths::path_joined;
use crate::text::{push_text, texts};
use crate::time::{date_text, has_date, show_millis};

verus! {

// ---------------------------------------------------------------------------
// Status
// ---------------------------------------------------------------------------

pub open spec fn repository_line(m: RegistrationModel) -> Seq<char> {
    "  "@ + m.repository.repository.full_name + " -> "@ + m.repository.local_path
}

pub open spec fn lease_line(m: LeaseModel) -> Seq<char> {
    "daemon: "@ + m.viewer_login + "@"@ + m.host + " lease expires "@ + date_text(m.expires_at)->0
}

pub open spec fn poll_line(m: PollModel) -> Seq<char> {
    "last poll: "@ + date_text(m.updated_at)->0 + " (viewer "@ + int_text(m.viewer_id as int)
        + ", validator "@ + (match m.last_modified {
        Some(value) => value,
        None => "none"@,
    }) + ")"@
}

pub open spec fn counts_line(
    pending: u64,
    running: u64,
    parked: u64,
    succeeded: u64,
    cancelled: u64,
) -> Seq<char> {
    "actions: "@ + decimal(pending as nat) + " pending, "@ + decimal(running as nat)
        + " running, "@ + decimal(parked as nat) + " parked, "@ + decimal(succeeded as nat)
        + " succeeded, "@ + decimal(cancelled as nat) + " cancelled"@
}

pub open spec fn action_line(m: ActionModel) -> Seq<char> {
    "  #"@ + int_text(m.id as int) + " "@ + m.repository_full_name + "#"@ + decimal(
        m.pull_request_number as nat,
    ) + " "@ + m.status.text() + " (attempts: "@ + decimal(m.attempts as nat) + (
    match m.last_error {
        Some(error) => ", error: "@ + error,
        None => ""@,
    }) + ")"@
}

fn show_repository(record: &RegisteredRepositoryRecord) -> (r: String)
    ensures
        r@ == repository_line(record@),
{
    let mut r = "  ".to_owned();
    r.append(record.repository.repository.full_name.as_str());
    r.append(" -> ");
    r.append(record.repository.local_path.as_str());
    r
}

fn show_date(millis: i64) -> (r: String)
    requires
        has_date(millis as int),
    ensures
        Some(r@) == date_text(millis),
{
    match show_millis(millis) {
        Some(text) => text,
        None => String::new(),
    }
}

fn show_lease(lease: &DaemonLease) -> (r: String)
    requires
        has_date(lease.expires_at as int),
    ensures
        r@ == lease_line(lease@),
{
    let mut r = "daemon: ".to_owned();
    r.append(lease.viewer_login.as_str());
    r.append("@");
    r.append(lease.host.as_str());
    r.append(" lease expires ");
    r.append(show_date(lease.expires_at).as_str());
    r
}

fn show_poll(poll: &PollState) -> (r: String)
    requires
        has_date(poll.updated_at as int),
    ensures
        r@ == poll_line(poll@),
{
    let mut r = "last poll: ".to_owned();
    r.append(show_date(poll.updated_at).as_str());
    r.append(" (viewer ");
    r.append(i64_text(poll.viewer_id).as_str());
    r.append(", validator ");
    match &poll.last_modified {
        Some(value) => r.append(value.as_str()),
        None => r.append("none"),
    }
    r.append(")");
    r
}

fn show_counts(snapshot: &StatusSnapshot) -> (r: String)
    ensures
        r@ == counts_line(
            snapshot.action_counts.pending,
            snapshot.action_counts.running,
            snapshot.action_counts.parked,
            snapshot.action_counts.succeeded,
            snapshot.action_counts.cancelled,
        ),
{
    let counts = snapshot.action_counts;
    let mut r = "actions: ".to_owned();
    r.append(u64_text(counts.pending).as_str());
    r.append(" pending, ");
    r.append(u64_text(counts.running).as_str());
    r.append(" running, ");
    r.append(u64_text(counts.parked).as_str());
    r.append(" parked, ");
    r.append(u64_text(counts.succeeded).as_str());
    r.append(" succeeded, ");
    r.append(u64_text(counts.cancelled).as_str());
    r.append(" cancelled");
    r
}

fn show_action(action: &ReviewAction) -> (r: String)
    ensures
        r@ == action_line(action@),
{
    let mut r = "  #".to_owned();
    r.append(i64_text(action.id).as_str());
    r.append(" ");
    r.append(action.repository_full_name.as_str());
    r.append("#");
    r.append(u64_text(action.pull_request_number).as_str());
    r.append(" ");
    r.append(action.status.as_str());
    r.append(" (attempts: ");
    r.append(u64_text(action.attempts as u64).as_str());
    let error = match &action.last_error {
        Some(error) => {
            let mut text = ", error: ".to_owned();
            text.append(error.as_str());
            text
        },
        None => "".to_owned(),
    };
    r.append(error.as_str());
    r.append(")");
    r
}

/// Every lease and poll of the snapshot has a date.
pub open spec fn snapshot_dated(snapshot: StatusSnapshot) -> bool {
    &&& forall|i: int|
        0 <= i < snapshot.leases@.len() ==> has_date(
            (#[trigger] snapshot.leases@[i]).expires_at as int,
        )
    &&& forall|i: int|
        0 <= i < snapshot.poll_states@.len() ==> has_date(
            (#[trigger] snapshot.poll_states@[i]).updated_at as int,
        )
}

/// What the status command prints.
pub open spec fn status_lines(path: Seq<char>, snapshot: StatusSnapshot) -> Seq<Seq<char>> {
    seq![
        "state: "@ + path,
        "registered repositories: "@ + decimal(snapshot.repositories@.len()),
    ] + models(snapshot.repositories@).map_values(|m: RegistrationModel| repository_line(m))
        + models(snapshot.leases@).map_values(|m: LeaseModel| lease_line(m)) + models(
        snapshot.poll_states@,
    ).map_values(|m: PollModel| poll_line(m)) + seq![
        counts_line(
            snapshot.action_counts.pending,
            snapshot.action_counts.running,
            snapshot.action_counts.parked,
            snapshot.action_counts.succeeded,
            snapshot.action_counts.cancelled,
        ),
    ] + models(snapshot.pending_and_failed_actions@).map_values(|m: ActionModel| action_line(m))
}

fn push_repositories(lines: &mut Vec<String>, rows: &Vec<RegisteredRepositoryRecord>)
    ensures
        texts(final(lines)@) == texts(old(lines)@) + models(rows@).map_values(
            |m: RegistrationModel| repository_line(m),
        ),
{
    let ghost shown = models(rows@).map_values(|m: RegistrationModel| repository_line(m));
    let ghost start = texts(lines@);
    let mut i: usize = 0;
    assert(start =~= start + shown.take(0));
    while i < rows.len()
        invariant
            i <= rows@.len(),
            shown == models(rows@).map_values(|m: RegistrationModel| repository_line(m)),
            texts(lines@) == start + shown.take(i as int),
        decreases rows@.len() - i,
    {
        assert(shown[i as int] == repository_line(rows@[i as int]@));
        push_text(lines, show_repository(&rows[i]).as_str());
        assert(shown.take(i as int + 1) =~= shown.take(i as int).push(shown[i as int]));
        i += 1;
    }
    assert(shown.take(i as int) =~= shown);
}

fn push_leases(lines: &mut Vec<String>, rows: &Vec<DaemonLease>)
    requires
        forall|i: int| 0 <= i < rows@.len() ==> has_date((#[trigger] rows@[i]).expires_at as int),
    ensures
        texts(final(lines)@) == texts(old(lines)@) + models(rows@).map_values(
            |m: LeaseModel| lease_line(m),
        ),
{
    let ghost shown = models(rows@).map_values(|m: LeaseModel| lease_line(m));
    let ghost start = texts(lines@);
    let mut i: usize = 0;
    assert(start =~= start + shown.take(0));
    while i < rows.len()
        invariant
            i <= rows@.len(),
            forall|i: int|
                0 <= i < rows@.len() ==> has_date((#[trigger] rows@[i]).expires_at as int),
            shown == models(rows@).map_values(|m: LeaseModel| lease_line(m)),
            texts(lines@) == start + shown.take(i as int),
        decreases rows@.len() - i,
    {
        assert(shown[i as int] == lease_line(rows@[i as int]@));
        push_text(lines, show_lease(&rows[i]).as_str());
        assert(shown.take(i as int + 1) =~= shown.take(i as int).push(shown[i as int]));
        i += 1;
    }
    assert(shown.take(i as int) =~= shown);
}

fn push_polls(lines: &mut Vec<String>, rows: &Vec<PollState>)
    requires
        forall|i: int| 0 <= i < rows@.len() ==> has_date((#[trigger] rows@[i]).updated_at as int),
    ensures
        texts(final(lines)@) == texts(old(lines)@) + models(rows@).map_values(
            |m: PollModel| poll_line(m),
        ),
{
    let ghost shown = models(rows@).map_values(|m: PollModel| poll_line(m));
    let ghost start = texts(lines@);
    let mut i: usize = 0;
    assert(start =~= start + shown.take(0));
    while i < rows.len()
        invariant
            i <= rows@.len(),
            forall|i: int|
                0 <= i < rows@.len() ==> has_date((#[trigger] rows@[i]).updated_at as int),
            shown == models(rows@).map_values(|m: PollModel| poll_line(m)),
            texts(lines@) == start + shown.take(i as int),
        decreases rows@.len() - i,
    {
        assert(shown[i as int] == poll_line(rows@[i as int]@));
        push_text(lines, show_poll(&rows[i]).as_str());
        assert(shown.take(i as int + 1) =~= shown.take(i as int).push(shown[i as int]));
        i += 1;
    }
    assert(shown.take(i as int) =~= shown);
}

fn push_actions(lines: &mut Vec<String>, rows: &Vec<ReviewAction>)
    ensures
        texts(final(lines)@) == texts(old(lines)@) + models(rows@).map_values(
            |m: ActionModel| action_line(m),
        ),
{
    let ghost shown = models(rows@).map_values(|m: ActionModel| action_line(m));
    let ghost start = texts(lines@);
    let mut i: usize = 0;
    assert(start =~= start + shown.take(0));
    while i < rows.len()
        invariant
            i <= rows@.len(),
            shown == models(rows@).map_values(|m: ActionModel| action_line(m)),
            texts(lines@) == start + shown.take(i as int),
        decreases rows@.len() - i,
    {
        assert(shown[i as int] == action_line(rows@[i as int]@));
        push_text(lines, show_action(&rows[i]).as_str());
        assert(shown.take(i as int + 1) =~= shown.take(i as int).push(shown[i as int]));
        i += 1;
    }
    assert(shown.take(i as int) =~= shown);
}

/// What the status command prints, line by line.
pub fn status_report(path: &str, snapshot: &StatusSnapshot) -> (r: Vec<String>)
    requires
        snapshot_dated(*snapshot),
    ensures
        texts(r@) == status_lines(path@, *snapshot),
{
    let mut lines: Vec<String> = Vec::new();
    assert(texts(lines@) =~= seq![]);
    let mut state = "state: ".to_owned();
    state.append(path);
    push_text(&mut lines, state.as_str());
    let mut number = "registered repositories: ".to_owned();
    number.append(u64_text(snapshot.repositories.len() as u64).as_str());
    push_text(&mut lines, number.as_str());
    assert(texts(lines@) =~= seq![
        "state: "@ + path@,
        "registered repositories: "@ + decimal(snapshot.repositories@.len()),
    ]);
    push_repositories(&mut lines, &snapshot.repositories);
    push_leases(&mut lines, &snapshot.leases);
    push_polls(&mut lines, &snapshot.poll_states);
    let counts = show_counts(snapshot);
    let ghost before = texts(lines@);
    push_text(&mut lines, counts.as_str());
    assert(texts(lines@) =~= before + seq![counts@]);
    push_actions(&mut lines, &snapshot.pending_and_failed_actions);
    lines
}

// ---------------------------------------------------------------------------
// The place of the state
// ---------------------------------------------------------------------------

/// Where the state is stored: where the user says, if they say so, and else in
/// their configuration.
pub fn state_path(variable: Option<&str>, home: Option<&str>) -> (r: Result<String, &'static str>)
    ensures
        variable is Some && variable->0@.len() > 0 ==> (r matches Ok(path) && path@
            == variable->0@),
        variable is None || variable->0@.len() == 0 ==> match home {
            Some(home) => r matches Ok(path) && path@ == path_joined(
                path_joined(path_joined(home@, ".config"@), "github-reviews"@),
                "state.sqlite3"@,
            ),
            None => r matches Err(message) && message@ == "no home directory is available"@,
        },
{
    if let Some(path) = variable {
        if path.unicode_len() > 0 {
            return Ok(path.to_owned());
        }
    }
    Database::default_path(home)
}

// ---------------------------------------------------------------------------
// Other commands
// ---------------------------------------------------------------------------

/// What the register command prints.
pub fn registered_message(full_name: &str, local_path: &str) -> (r: String)
    ensures
        r@ == "registered "@ + full_name@ + " at "@ + local_path@,
{
    let mut r = "registered ".to_owned();
    r.append(full_name);
    r.append(" at ");
    r.append(local_path);
    r
}

/// What the unregister command prints.
pub fn unregistered_message(full_name: &str, removed: bool) -> (r: String)
    ensures
        r@ == (if removed {
            "unregistered "@ + full_name@
        } else {
            full_name@ + " was not registered"@
        }),
{
    if removed {
        let mut r = "unregistered ".to_owned();
        r.append(full_name);
        r
    } else {
        let mut r = full_name.to_owned();
        r.append(" was not registered");
        r
    }
}

/// A pull request as the user names it.
pub open spec fn selected(full_name: Seq<char>, number: u64) -> Seq<char> {
    full_name + "#"@ + decimal(number as nat)
}

/// The state after the newest parked action of a pull request was started afresh, and
/// what the user is told.
pub open spec fn retried(
    state: State,
    viewer_id: i64,
    full_name: Seq<char>,
    number: u64,
    now: i64,
) -> (State, Result<Seq<char>, Seq<char>>) {
    let name = selected(full_name, number);
    match state.retry_newest_parked("github.com"@, viewer_id, full_name, number, now) {
        Ok((after, Some(id))) => (
            after,
            Ok("queued action "@ + int_text(id as int) + " for "@ + name),
        ),
        Ok((after, None)) => (after, Err("no parked action found for "@ + name)),
        Err(error) => (state, Err(error.text())),
    }
}

/// Starts the newest parked action of a pull request afresh, and says what the
/// user is told.
pub fn retry(db: &mut Database, viewer_id: i64, selector: &PullRequestSelector, now: i64) -> (r:
    Result<String, String>)
    ensures
        ({
            let (after, told) = retried(
                old(db)@,
                viewer_id,
                selector.full_name@,
                selector.number,
                now,
            );
            &&& final(db)@ == after
            &&& match r {
                Ok(text) => told == Ok::<Seq<char>, Seq<char>>(text@),
                Err(text) => told == Err::<Seq<char>, Seq<char>>(text@),
            }
        }),
        ({
            let name = selected(selector.full_name@, selector.number);
            match old(db)@.retry_newest_parked(
                "github.com"@,
                viewer_id,
                selector.full_name@,
                selector.number,
                now,
            ) {
                Ok((after, Some(id))) => final(db)@ == after && (r matches Ok(text) && text@
                    == "queued action "@ + int_text(id as int) + " for "@ + name),
                Ok((after, None)) => final(db)@ == after && (r matches Err(text) && text@
                    == "no parked action found for "@ + name),
                Err(error) => *final(db) == *old(db) && (r matches Err(text) && text@
                    == error.text()),
            }
        }),
{
    let mut name = selector.full_name.clone();
    name.append("#");
    name.append(u64_text(selector.number).as_str());
    match db.retry_newest_parked(
        HOST,
        viewer_id,
        selector.full_name.as_str(),
        selector.number,
        now,
    ) {
        Ok(Some(id)) => {
            let mut r = "queued action ".to_owned();
            r.append(i64_text(id).as_str());
            r.append(" for ");
            r.append(name.as_str());
            Ok(r)
        },
        Ok(None) => {
            let mut r = "no parked action found for ".to_owned();
            r.append(name.as_str());
            Err(r)
        },
        Err(error) => Err(error.message()),
    }
}

// ---------------------------------------------------------------------------
// Laws
// ---------------------------------------------------------------------------

/// The status tells the path of the state, the repositories with their clones, the
/// leases, the polls, the number of actions in each status, and the actions that are
/// open, in this order and one line each.
pub proof fn status_has_a_line_for_each(path: Seq<char>, snapshot: StatusSnapshot, i: int)
    ensures
        ({
            let lines = status_lines(path, snapshot);
            let repositories = snapshot.repositories@.len();
            let leases = snapshot.leases@.len();
            let polls = snapshot.poll_states@.len();
            let actions = snapshot.pending_and_failed_actions@.len();
            &&& lines.len() == 3 + repositories + leases + polls + actions
            &&& lines[0] == "state: "@ + path
            &&& lines[1] == "registered repositories: "@ + decimal(repositories)
            &&& 0 <= i < repositories ==> lines[2 + i] == "  "@
                + snapshot.repositories@[i]@.repository.repository.full_name + " -> "@
                + snapshot.repositories@[i]@.repository.local_path
            &&& 0 <= i < leases ==> lines[2 + repositories + i] == lease_line(
                snapshot.leases@[i]@,
            )
            &&& 0 <= i < polls ==> lines[2 + repositories + leases + i] == poll_line(
                snapshot.poll_states@[i]@,
            )
            &&& lines[2 + repositories + leases + polls as int] == "actions: "@ + decimal(
                snapshot.action_counts.pending as nat,
            ) + " pending, "@ + decimal(snapshot.action_counts.running as nat) + " running, "@
                + decimal(snapshot.action_counts.parked as nat) + " parked, "@ + decimal(
                snapshot.action_counts.succeeded as nat,
            ) + " succeeded, "@ + decimal(snapshot.action_counts.cancelled as nat) + " cancelled"@
            &&& 0 <= i < actions ==> lines[3 + repositories + leases + polls + i] == action_line(
                snapshot.pending_and_failed_actions@[i]@,
            )
        }),
{
}

/// An open action is told by its number, its pull request, its status, its attempts and
/// its last error, if any; a lease by its viewer and end, a poll by its time, viewer and
/// validator.
pub proof fn lines_tell_their_row(action: ActionModel, lease: LeaseModel, poll: PollModel)
    ensures
        action.last_error is None ==> action_line(action) == "  #"@ + int_text(action.id as int)
            + " "@ + action.repository_full_name + "#"@ + decimal(
            action.pull_request_number as nat,
        ) + " "@ + action.status.text() + " (attempts: "@ + decimal(action.attempts as nat) + ""@
            + ")"@,
        action.last_error matches Some(error) ==> action_line(action) == "  #"@ + int_text(
            action.id as int,
        ) + " "@ + action.repository_full_name + "#"@ + decimal(action.pull_request_number as nat)
            + " "@ + action.status.text() + " (attempts: "@ + decimal(action.attempts as nat) + (
        ", error: "@ + error) + ")"@,
        lease_line(lease) == "daemon: "@ + lease.viewer_login + "@"@ + lease.host
            + " lease expires "@ + date_text(lease.expires_at)->0,
        poll.last_modified matches Some(validator) ==> poll_line(poll) == "last poll: "@
            + date_text(poll.updated_at)->0 + " (viewer "@ + int_text(poll.viewer_id as int)
            + ", validator "@ + validator + ")"@,
        poll.last_modified is None ==> poll_line(poll) == "last poll: "@ + date_text(
            poll.updated_at,
        )->0 + " (viewer "@ + int_text(poll.viewer_id as int) + ", validator "@ + "none"@ + ")"@,
{
}

} // verus!
