//! What the operations on notifications, discoveries and watched pull requests
//! do, row by row.

use vstd::prelude::*;
use crate::db::notifications::{discovery_of, due_discovery, stored_as};
use crate::db::pulls::due_pull;
use crate::db::registry::of_repository;
use crate::db::rows::{
    DbError, DiscoveryModel, DiscoveryStatus, NotificationDiscovery, StoredModel, TrackedModel,
    TrackedPullRequest,
};
use crate::db::State;
use crate::model::NotificationModel;
use crate::order::sorted_is_sorted;
use crate::table::{any, best, best_is_best, count, first, first_in_range, lookup};
use crate::text::{text_le, text_le_total, text_le_transitive};

verus! {

/// The row is for the notification with that id.
pub open spec fn stored_for(m: StoredModel, host: Seq<char>, viewer_id: i64, id: Seq<char>) -> bool {
    m.host == host && m.viewer_id == viewer_id && m.notification.id == id
}

/// The discovery is for the notification with that id.
pub open spec fn found_by(
    m: DiscoveryModel,
    host: Seq<char>,
    viewer_id: i64,
    id: Seq<char>,
) -> bool {
    m.host == host && m.viewer_id == viewer_id && m.notification_id == id
}

/// The whole milliseconds of the time at which GitHub changed a notification.
pub open spec fn changed_at(n: NotificationModel) -> int {
    n.updated_at.seconds * 1000 + n.updated_at.nanos as int / 1_000_000
}

/// A repository of that number is registered.
pub open spec fn registered(state: State, host: Seq<char>, id: i64) -> bool {
    exists|k: int|
        0 <= k < state.registrations.len() && (#[trigger] state.registrations[k]).host == host
            && state.registrations[k].repository.repository.id == id
}

proof fn registered_is_any(state: State, host: Seq<char>, id: i64)
    ensures
        registered(state, host, id) == any(state.registrations, of_repository(host, id)),
{
    let p = of_repository(host, id);
    if registered(state, host, id) {
        let k = choose|k: int|
            0 <= k < state.registrations.len() && (#[trigger] state.registrations[k]).host == host
                && state.registrations[k].repository.repository.id == id;
        assert(p(state.registrations[k]));
    }
    if any(state.registrations, p) {
        let k = choose|k: int|
            0 <= k < state.registrations.len() && p(#[trigger] state.registrations[k]);
        assert(state.registrations[k].host == host);
    }
}

/// A notification is stored whatever it is about: under its id, once, in its newest
/// revision, with the times at which it was first and last seen. The others stay as
/// they were.
pub proof fn notifications_are_stored(
    state: State,
    host: Seq<char>,
    viewer_id: i64,
    n: NotificationModel,
    raw: Seq<char>,
    now: i64,
)
    ensures
        ({
            let next = state.upsert_notification(host, viewer_id, n, raw, now);
            let known = exists|i: int|
                0 <= i < state.notifications.len() && stored_for(
                    #[trigger] state.notifications[i],
                    host,
                    viewer_id,
                    n.id,
                );
            &&& next == (State {
                notifications: next.notifications,
                discoveries: next.discoveries,
                ..state
            })
            &&& !known ==> next.notifications == state.notifications.push(
                StoredModel {
                    host,
                    viewer_id,
                    notification: n,
                    raw,
                    first_seen_at: now,
                    last_seen_at: now,
                },
            )
            &&& known ==> next.notifications.len() == state.notifications.len()
            &&& forall|i: int|
                0 <= i < state.notifications.len() ==> {
                    let m = #[trigger] state.notifications[i];
                    let newer = changed_at(n) >= changed_at(m.notification);
                    next.notifications[i] == if !stored_for(m, host, viewer_id, n.id) {
                        m
                    } else if newer {
                        StoredModel { notification: n, raw, last_seen_at: now, ..m }
                    } else {
                        StoredModel { last_seen_at: now, ..m }
                    }
                }
        }),
{
    let p = stored_as(host, viewer_id, n.id);
    assert forall|i: int| 0 <= i < state.notifications.len() implies p(
        #[trigger] state.notifications[i],
    ) == stored_for(state.notifications[i], host, viewer_id, n.id) by {}
    if any(state.notifications, p) {
        let i = choose|i: int|
            0 <= i < state.notifications.len() && p(#[trigger] state.notifications[i]);
        assert(stored_for(state.notifications[i], host, viewer_id, n.id));
    }
}

/// A notification of a registered repository queues a discovery where its reason is
/// a review request and its subject a pull request, whether or not it was read and
/// whatever else it says. No other notification touches the discoveries. A new
/// discovery is due at once; a known one starts afresh where the notification has
/// changed since, and goes on as it was otherwise.
pub proof fn review_requests_queue_discoveries(
    state: State,
    host: Seq<char>,
    viewer_id: i64,
    n: NotificationModel,
    raw: Seq<char>,
    now: i64,
)
    ensures
        ({
            let next = state.upsert_notification(host, viewer_id, n, raw, now);
            let asks = n.reason == "review_requested"@ && n.subject_kind == "PullRequest"@
                && registered(state, host, n.repository_id);
            let known = exists|i: int|
                0 <= i < state.discoveries.len() && found_by(
                    #[trigger] state.discoveries[i],
                    host,
                    viewer_id,
                    n.id,
                );
            &&& !asks ==> next.discoveries == state.discoveries
            &&& asks ==> any(next.discoveries, discovery_of(host, viewer_id, n.id)) && exists|
                i: int,
            |
                0 <= i < next.discoveries.len() && found_by(
                    #[trigger] next.discoveries[i],
                    host,
                    viewer_id,
                    n.id,
                )
            &&& asks && !known ==> next.discoveries == state.discoveries.push(
                DiscoveryModel {
                    host,
                    viewer_id,
                    notification_id: n.id,
                    repository_id: n.repository_id,
                    notification_updated_at: changed_at(n) as i64,
                    status: DiscoveryStatus::Pending,
                    attempts: 0,
                    due_at: now,
                    last_error: None,
                    created_at: now,
                    updated_at: now,
                    completed_at: None,
                },
            )
            &&& asks && known ==> next.discoveries.len() == state.discoveries.len()
            &&& asks ==> forall|i: int|
                0 <= i < state.discoveries.len() ==> {
                    let m = #[trigger] state.discoveries[i];
                    let same = DiscoveryModel {
                        repository_id: n.repository_id,
                        notification_updated_at: changed_at(n) as i64,
                        updated_at: now,
                        ..m
                    };
                    next.discoveries[i] == if !found_by(m, host, viewer_id, n.id) {
                        m
                    } else if changed_at(n) > m.notification_updated_at {
                        DiscoveryModel {
                            status: DiscoveryStatus::Pending,
                            attempts: 0,
                            due_at: now,
                            last_error: None,
                            completed_at: None,
                            ..same
                        }
                    } else {
                        same
                    }
                }
        }),
{
    let next = state.upsert_notification(host, viewer_id, n, raw, now);
    let p = discovery_of(host, viewer_id, n.id);
    registered_is_any(state, host, n.repository_id);
    assert forall|i: int| 0 <= i < state.discoveries.len() implies p(
        #[trigger] state.discoveries[i],
    ) == found_by(state.discoveries[i], host, viewer_id, n.id) by {}
    if n.reason == "review_requested"@ && n.subject_kind == "PullRequest"@ && registered(
        state,
        host,
        n.repository_id,
    ) {
        if any(state.discoveries, p) {
            let i = choose|i: int|
                0 <= i < state.discoveries.len() && p(#[trigger] state.discoveries[i]);
            assert(found_by(state.discoveries[i], host, viewer_id, n.id));
            assert(p(next.discoveries[i]));
            assert(found_by(next.discoveries[i], host, viewer_id, n.id));
        } else {
            let last = state.discoveries.len() as int;
            assert(p(next.discoveries[last]));
            assert(found_by(next.discoveries[last], host, viewer_id, n.id));
        }
    }
}

/// The notification is a review request of a registered repository, and the
/// discovery is for it.
pub open spec fn asks_for(
    state: State,
    host: Seq<char>,
    viewer_id: i64,
    n: NotificationModel,
    d: DiscoveryModel,
) -> bool {
    &&& n.reason == "review_requested"@
    &&& n.subject_kind == "PullRequest"@
    &&& registered(state, host, n.repository_id)
    &&& found_by(d, host, viewer_id, n.id)
}

/// A notification of the page asks for the discovery.
pub open spec fn asked_by(
    state: State,
    host: Seq<char>,
    viewer_id: i64,
    page: Seq<(NotificationModel, Seq<char>)>,
    d: DiscoveryModel,
) -> bool {
    exists|j: int|
        0 <= j < page.len() && asks_for(state, host, viewer_id, #[trigger] page[j].0, d)
}

/// After a page of notifications was stored, every review request in it of a
/// registered repository has a discovery, and every notification in it is stored.
pub proof fn pages_queue_every_review_request(
    state: State,
    host: Seq<char>,
    viewer_id: i64,
    page: Seq<(NotificationModel, Seq<char>)>,
    now: i64,
)
    ensures
        ({
            let next = state.store_all(host, viewer_id, page, now);
            &&& next == (State {
                notifications: next.notifications,
                discoveries: next.discoveries,
                ..state
            })
            &&& forall|j: int|
                0 <= j < page.len() ==> exists|i: int|
                    0 <= i < next.notifications.len() && stored_for(
                        #[trigger] next.notifications[i],
                        host,
                        viewer_id,
                        (#[trigger] page[j]).0.id,
                    )
            &&& forall|j: int|
                0 <= j < page.len() && (#[trigger] page[j]).0.reason == "review_requested"@
                    && page[j].0.subject_kind == "PullRequest"@ && registered(
                    state,
                    host,
                    page[j].0.repository_id,
                ) ==> exists|i: int|
                    0 <= i < next.discoveries.len() && found_by(
                        #[trigger] next.discoveries[i],
                        host,
                        viewer_id,
                        page[j].0.id,
                    )
            &&& forall|i: int|
                state.discoveries.len() <= i < next.discoveries.len() ==> asked_by(
                    state,
                    host,
                    viewer_id,
                    page,
                    #[trigger] next.discoveries[i],
                )
            &&& state.discoveries.len() <= next.discoveries.len()
        }),
    decreases page.len(),
{
    if page.len() > 0 {
        let front = page.drop_last();
        let middle = state.store_all(host, viewer_id, front, now);
        let n = page.last().0;
        let raw = page.last().1;
        let next = state.store_all(host, viewer_id, page, now);
        pages_queue_every_review_request(state, host, viewer_id, front, now);
        notifications_are_stored(middle, host, viewer_id, n, raw, now);
        review_requests_queue_discoveries(middle, host, viewer_id, n, raw, now);
        assert(page[page.len() - 1] == page.last());
        assert(registered(middle, host, n.repository_id) == registered(
            state,
            host,
            n.repository_id,
        ));
        assert forall|j: int| 0 <= j < page.len() implies exists|i: int|
            0 <= i < next.notifications.len() && stored_for(
                #[trigger] next.notifications[i],
                host,
                viewer_id,
                (#[trigger] page[j]).0.id,
            ) by {
            if j < front.len() {
                assert(front[j] == page[j]);
                let i = choose|i: int|
                    0 <= i < middle.notifications.len() && stored_for(
                        #[trigger] middle.notifications[i],
                        host,
                        viewer_id,
                        front[j].0.id,
                    );
                assert(stored_for(next.notifications[i], host, viewer_id, page[j].0.id));
            } else {
                if exists|i: int|
                    0 <= i < middle.notifications.len() && stored_for(
                        #[trigger] middle.notifications[i],
                        host,
                        viewer_id,
                        n.id,
                    ) {
                    let i = choose|i: int|
                        0 <= i < middle.notifications.len() && stored_for(
                            #[trigger] middle.notifications[i],
                            host,
                            viewer_id,
                            n.id,
                        );
                    assert(stored_for(next.notifications[i], host, viewer_id, n.id));
                } else {
                    let last = middle.notifications.len() as int;
                    assert(stored_for(next.notifications[last], host, viewer_id, n.id));
                }
            }
        }
        assert forall|j: int|
            0 <= j < page.len() && (#[trigger] page[j]).0.reason == "review_requested"@
                && page[j].0.subject_kind == "PullRequest"@ && registered(
                state,
                host,
                page[j].0.repository_id,
            ) implies exists|i: int|
            0 <= i < next.discoveries.len() && found_by(
                #[trigger] next.discoveries[i],
                host,
                viewer_id,
                page[j].0.id,
            ) by {
            if j < front.len() {
                assert(front[j] == page[j]);
                let i = choose|i: int|
                    0 <= i < middle.discoveries.len() && found_by(
                        #[trigger] middle.discoveries[i],
                        host,
                        viewer_id,
                        front[j].0.id,
                    );
                assert(found_by(next.discoveries[i], host, viewer_id, page[j].0.id));
            }
        }
        assert forall|i: int| state.discoveries.len() <= i < next.discoveries.len() implies asked_by(
            state,
            host,
            viewer_id,
            page,
            #[trigger] next.discoveries[i],
        ) by {
            if i < middle.discoveries.len() {
                assert(asked_by(state, host, viewer_id, front, middle.discoveries[i]));
                let j = choose|j: int|
                    0 <= j < front.len() && asks_for(
                        state,
                        host,
                        viewer_id,
                        #[trigger] front[j].0,
                        middle.discoveries[i],
                    );
                assert(page[j] == front[j]);
                assert(asks_for(state, host, viewer_id, page[j].0, next.discoveries[i]));
            } else {
                let j = page.len() - 1;
                assert(page[j].0 == n);
                assert(asks_for(state, host, viewer_id, page[j].0, next.discoveries[i]));
            }
        }
    }
}

/// The discovery waits and is due.
pub open spec fn is_due(m: DiscoveryModel, host: Seq<char>, viewer_id: i64, now: i64) -> bool {
    m.host == host && m.viewer_id == viewer_id && m.status == DiscoveryStatus::Pending && m.due_at
        <= now
}

/// No notification with that id is stored for the viewer.
pub open spec fn lacks_notification(
    state: State,
    host: Seq<char>,
    viewer_id: i64,
    id: Seq<char>,
) -> bool {
    forall|s: int|
        0 <= s < state.notifications.len() ==> !stored_for(
            #[trigger] state.notifications[s],
            host,
            viewer_id,
            id,
        )
}

/// A claim takes the viewer's discovery that has been due for longest, marks it as
/// running with one more attempt, and hands it out with its notification. It takes
/// none exactly where none is due, and fails only where one that is due has no
/// notification or was tried as often as can be counted.
pub proof fn claims_take_the_longest_due(state: State, host: Seq<char>, viewer_id: i64, now: i64)
    ensures
        match state.claim_pending_discovery(host, viewer_id, now) {
            Ok((next, None)) => next == state && forall|i: int|
                0 <= i < state.discoveries.len() ==> !is_due(
                    #[trigger] state.discoveries[i],
                    host,
                    viewer_id,
                    now,
                ),
            Ok((next, Some(found))) => {
                &&& next == (State { discoveries: next.discoveries, ..state })
                &&& exists|k: int|
                    0 <= k < state.discoveries.len() && is_due(
                        #[trigger] state.discoveries[k],
                        host,
                        viewer_id,
                        now,
                    ) && next.discoveries == state.discoveries.update(
                        k,
                        DiscoveryModel {
                            status: DiscoveryStatus::Running,
                            attempts: (state.discoveries[k].attempts + 1) as u32,
                            updated_at: now,
                            last_error: None,
                            ..state.discoveries[k]
                        },
                    ) && found.notification_id == state.discoveries[k].notification_id
                        && found.repository_id == state.discoveries[k].repository_id
                        && found.notification_updated_at
                        == state.discoveries[k].notification_updated_at && found.attempts
                        == state.discoveries[k].attempts + 1 && found.due_at
                        == state.discoveries[k].due_at && found.created_at
                        == state.discoveries[k].created_at
                &&& forall|j: int|
                    0 <= j < state.discoveries.len() && is_due(
                        #[trigger] state.discoveries[j],
                        host,
                        viewer_id,
                        now,
                    ) ==> {
                        let other = state.discoveries[j];
                        ||| found.due_at < other.due_at
                        ||| found.due_at == other.due_at && found.created_at < other.created_at
                        ||| found.due_at == other.due_at && found.created_at == other.created_at
                            && text_le(found.notification_id, other.notification_id)
                    }
                &&& exists|s: int|
                    0 <= s < state.notifications.len() && stored_for(
                        #[trigger] state.notifications[s],
                        host,
                        viewer_id,
                        found.notification_id,
                    ) && found.notification == state.notifications[s].notification && found.raw
                        == state.notifications[s].raw
                &&& found.host == host && found.viewer_id == viewer_id
                &&& found.status == DiscoveryStatus::Running
                &&& found.last_error is None
                &&& found.updated_at == now
            },
            Err(error) => exists|k: int|
                0 <= k < state.discoveries.len() && is_due(
                    #[trigger] state.discoveries[k],
                    host,
                    viewer_id,
                    now,
                ) && ((error == DbError::NotificationMissing && lacks_notification(
                    state,
                    host,
                    viewer_id,
                    state.discoveries[k].notification_id,
                )) || (error == DbError::AttemptsExhausted && state.discoveries[k].attempts
                    == u32::MAX)),
        },
{
    let test = due_discovery(host, viewer_id, now);
    let before = |a: DiscoveryModel, b: DiscoveryModel| a.claimed_before(b);
    assert forall|a: DiscoveryModel, b: DiscoveryModel| #[trigger] before(a, b) || before(b, a) by {
        text_le_total(a.notification_id, b.notification_id);
    }
    assert forall|a: DiscoveryModel, b: DiscoveryModel, c: DiscoveryModel|
        #[trigger] before(a, b) && #[trigger] before(b, c) implies before(a, c) by {
        if text_le(a.notification_id, b.notification_id) && text_le(
            b.notification_id,
            c.notification_id,
        ) {
            text_le_transitive(a.notification_id, b.notification_id, c.notification_id);
        }
    }
    best_is_best(state.discoveries, test, before);
    assert forall|j: int| 0 <= j < state.discoveries.len() implies test(
        #[trigger] state.discoveries[j],
    ) == is_due(state.discoveries[j], host, viewer_id, now) by {}
    if let Some(k) = best(state.discoveries, test, before) {
        let d = state.discoveries[k];
        let q = stored_as(d.host, d.viewer_id, d.notification_id);
        assert(test(d));
        first_in_range(state.notifications, q, 0);
        if let Some(s) = first(state.notifications, q) {
            assert(stored_for(state.notifications[s], host, viewer_id, d.notification_id));
        } else {
            assert forall|s: int| 0 <= s < state.notifications.len() implies !stored_for(
                #[trigger] state.notifications[s],
                host,
                viewer_id,
                d.notification_id,
            ) by {
                assert(!q(state.notifications[s]));
            }
        }
        assert(is_due(state.discoveries[k], host, viewer_id, now));
        assert forall|j: int|
            0 <= j < state.discoveries.len() && is_due(
                #[trigger] state.discoveries[j],
                host,
                viewer_id,
                now,
            ) implies d.claimed_before(state.discoveries[j]) by {
            assert(test(state.discoveries[j]));
            assert(before(d, state.discoveries[j]));
        }
    }
}

/// A discovery that runs ends with its notification: completed, or back in the
/// queue for later with its error. A daemon that starts puts back those that an
/// earlier one left running. No other discovery changes.
pub proof fn discoveries_end_by_their_notification(
    state: State,
    host: Seq<char>,
    viewer_id: i64,
    id: Seq<char>,
    error: Seq<char>,
    retry_at: i64,
    now: i64,
    i: int,
)
    requires
        0 <= i < state.discoveries.len(),
    ensures
        ({
            let m = state.discoveries[i];
            let runs = m.host == host && m.viewer_id == viewer_id && m.status
                == DiscoveryStatus::Running;
            let done = state.complete_discovery(host, viewer_id, id, now);
            let back = state.defer_discovery(host, viewer_id, id, error, retry_at, now);
            let again = state.recover_running_discoveries(host, viewer_id, retry_at, now);
            &&& done == (State { discoveries: done.discoveries, ..state })
            &&& back == (State { discoveries: back.discoveries, ..state })
            &&& again == (State { discoveries: again.discoveries, ..state })
            &&& done.discoveries.len() == state.discoveries.len()
            &&& back.discoveries.len() == state.discoveries.len()
            &&& again.discoveries.len() == state.discoveries.len()
            &&& done.discoveries[i] == if runs && m.notification_id == id {
                DiscoveryModel {
                    status: DiscoveryStatus::Completed,
                    completed_at: Some(now),
                    updated_at: now,
                    last_error: None,
                    ..m
                }
            } else {
                m
            }
            &&& back.discoveries[i] == if runs && m.notification_id == id {
                DiscoveryModel {
                    status: DiscoveryStatus::Pending,
                    due_at: retry_at,
                    completed_at: None,
                    updated_at: now,
                    last_error: Some(error),
                    ..m
                }
            } else {
                m
            }
            &&& again.discoveries[i] == if runs {
                DiscoveryModel {
                    status: DiscoveryStatus::Pending,
                    due_at: retry_at,
                    updated_at: now,
                    last_error: Some("daemon stopped while notification discovery was running"@),
                    ..m
                }
            } else {
                m
            }
        }),
{
}

/// The row watches that pull request for the viewer.
pub open spec fn watches(
    m: TrackedModel,
    host: Seq<char>,
    viewer_id: i64,
    repository_id: i64,
    pull_request_id: i64,
) -> bool {
    m.host == host && m.viewer_id == viewer_id && m.repository_id == repository_id
        && m.pull_request.id == pull_request_id
}

/// A watched pull request is kept once, as it was last given; the others stay as
/// they were. One whose number does not fit is refused.
pub proof fn watching_replaces_its_own_row(state: State, pull: TrackedModel)
    ensures
        match state.upsert_tracked_pull_request(pull) {
            Err(error) => error == DbError::NumberTooLarge && pull.pull_request.number > i64::MAX,
            Ok(next) => {
                let known = exists|i: int|
                    0 <= i < state.tracked_pulls.len() && watches(
                        #[trigger] state.tracked_pulls[i],
                        pull.host,
                        pull.viewer_id,
                        pull.repository_id,
                        pull.pull_request.id,
                    );
                &&& pull.pull_request.number <= i64::MAX
                &&& next == (State { tracked_pulls: next.tracked_pulls, ..state })
                &&& !known ==> next.tracked_pulls == state.tracked_pulls.push(pull)
                &&& known ==> next.tracked_pulls.len() == state.tracked_pulls.len()
                &&& forall|i: int|
                    0 <= i < state.tracked_pulls.len() ==> next.tracked_pulls[i] == if watches(
                        #[trigger] state.tracked_pulls[i],
                        pull.host,
                        pull.viewer_id,
                        pull.repository_id,
                        pull.pull_request.id,
                    ) {
                        pull
                    } else {
                        state.tracked_pulls[i]
                    }
            },
        },
{
    let p = pull.key();
    assert forall|i: int| 0 <= i < state.tracked_pulls.len() implies p(
        #[trigger] state.tracked_pulls[i],
    ) == watches(
        state.tracked_pulls[i],
        pull.host,
        pull.viewer_id,
        pull.repository_id,
        pull.pull_request.id,
    ) by {}
    if any(state.tracked_pulls, p) {
        let i = choose|i: int|
            0 <= i < state.tracked_pulls.len() && p(#[trigger] state.tracked_pulls[i]);
        assert(p(state.tracked_pulls[i]));
    }
}

/// A pull request that is dropped is no longer active; what is known of it stays,
/// and so do the others.
pub proof fn dropping_changes_its_own_row(
    state: State,
    host: Seq<char>,
    viewer_id: i64,
    repository_id: i64,
    pull_request_id: i64,
    now: i64,
    i: int,
)
    requires
        0 <= i < state.tracked_pulls.len(),
    ensures
        ({
            let next = state.deactivate_tracked_pull_request(
                host,
                viewer_id,
                repository_id,
                pull_request_id,
                now,
            );
            let m = state.tracked_pulls[i];
            &&& next == (State { tracked_pulls: next.tracked_pulls, ..state })
            &&& next.tracked_pulls.len() == state.tracked_pulls.len()
            &&& next.tracked_pulls[i] == if watches(
                m,
                host,
                viewer_id,
                repository_id,
                pull_request_id,
            ) {
                TrackedModel { active: false, updated_at: now, ..m }
            } else {
                m
            }
        }),
{
}

/// The pull requests that are due are the viewer's active ones whose time of the
/// next check has come, the longest due first.
pub proof fn due_pulls_are_those_to_check(
    state: State,
    host: Seq<char>,
    viewer_id: i64,
    now: i64,
    m: TrackedModel,
)
    ensures
        ({
            let due = state.due_pulls(host, viewer_id, now);
            &&& due.contains(m) <==> state.tracked_pulls.contains(m) && m.host == host
                && m.viewer_id == viewer_id && m.active && m.next_check_at <= now
            &&& forall|i: int, j: int|
                #![trigger due[i], due[j]]
                0 <= i < j < due.len() ==> due[i].next_check_at < due[j].next_check_at || (
                due[i].next_check_at == due[j].next_check_at && due[i].pull_request.id
                    <= due[j].pull_request.id)
        }),
{
    let p = due_pull(host, viewer_id, now);
    let some = state.tracked_pulls.filter(p);
    let due = state.due_pulls(host, viewer_id, now);
    sorted_is_sorted::<TrackedPullRequest>(some);
    some.to_multiset_ensures();
    due.to_multiset_ensures();
    assert(due.to_multiset().count(m) == some.to_multiset().count(m));
    assert(due.contains(m) == some.contains(m));
    filter_has(state.tracked_pulls, p, m);
}

/// A filtered list holds what passes the test, and nothing else.
pub proof fn filter_has<M>(s: Seq<M>, p: spec_fn(M) -> bool, m: M)
    ensures
        s.filter(p).contains(m) <==> s.contains(m) && p(m),
    decreases s.len(),
{
    reveal(Seq::filter);
    if s.len() > 0 {
        let front = s.drop_last();
        filter_has(front, p, m);
        let rest = front.filter(p);
        if s.filter(p).contains(m) {
            let k = choose|k: int| 0 <= k < s.filter(p).len() && s.filter(p)[k] == m;
            if k < rest.len() {
                assert(rest[k] == m);
                let i = choose|i: int| 0 <= i < front.len() && front[i] == m;
                assert(s[i] == m);
            } else {
                assert(s[s.len() - 1] == m);
            }
        }
        if s.contains(m) && p(m) {
            let i = choose|i: int| 0 <= i < s.len() && s[i] == m;
            if i < front.len() {
                assert(front[i] == m);
                let k = choose|k: int| 0 <= k < rest.len() && rest[k] == m;
                assert(s.filter(p)[k] == m);
            } else {
                assert(s.filter(p)[rest.len() as int] == m);
            }
        }
    }
}

/// The discoveries that are counted as due are the viewer's that wait and whose time
/// has come; those that are listed have their notification stored.
pub proof fn due_discoveries_are_those_that_wait(
    state: State,
    host: Seq<char>,
    viewer_id: i64,
    now: i64,
)
    ensures
        count(state.discoveries, due_discovery(host, viewer_id, now)) == count(
            state.discoveries,
            |m: DiscoveryModel|
                m.host == host && m.viewer_id == viewer_id && m.status == DiscoveryStatus::Pending
                    && m.due_at <= now,
        ),
        ({
            let due = state.due_discoveries(host, viewer_id, now);
            forall|i: int|
                0 <= i < due.len() ==> {
                    let d = #[trigger] due[i];
                    &&& d.host == host && d.viewer_id == viewer_id
                    &&& d.status == DiscoveryStatus::Pending && d.due_at <= now
                    &&& exists|s: int|
                        0 <= s < state.notifications.len() && stored_for(
                            #[trigger] state.notifications[s],
                            host,
                            viewer_id,
                            d.notification_id,
                        ) && d.notification == state.notifications[s].notification && d.raw
                            == state.notifications[s].raw
                }
        }),
{
    assert(due_discovery(host, viewer_id, now) =~= (|m: DiscoveryModel|
        m.host == host && m.viewer_id == viewer_id && m.status == DiscoveryStatus::Pending
            && m.due_at <= now));
    let p = |d: DiscoveryModel|
        due_discovery(host, viewer_id, now)(d) && state.notification_of(d) is Some;
    let f = |d: DiscoveryModel| d.joined(state.notification_of(d)->0);
    let rows = state.discoveries.filter(p);
    let some = rows.map_values(f);
    let due = state.due_discoveries(host, viewer_id, now);
    sorted_is_sorted::<NotificationDiscovery>(some);
    some.to_multiset_ensures();
    due.to_multiset_ensures();
    assert forall|i: int| 0 <= i < due.len() implies ({
        let d = #[trigger] due[i];
        &&& d.host == host && d.viewer_id == viewer_id
        &&& d.status == DiscoveryStatus::Pending && d.due_at <= now
        &&& exists|s: int|
            0 <= s < state.notifications.len() && stored_for(
                #[trigger] state.notifications[s],
                host,
                viewer_id,
                d.notification_id,
            ) && d.notification == state.notifications[s].notification && d.raw
                == state.notifications[s].raw
    }) by {
        let found = due[i];
        assert(due.contains(found));
        assert(due.to_multiset().count(found) == some.to_multiset().count(found));
        assert(some.contains(found));
        let k = choose|k: int| 0 <= k < some.len() && some[k] == found;
        let d = rows[k];
        assert(rows.contains(d));
        filter_has(state.discoveries, p, d);
        assert(p(d));
        let q = stored_as(d.host, d.viewer_id, d.notification_id);
        first_in_range(state.notifications, q, 0);
        let s = first(state.notifications, q)->0;
        assert(stored_for(state.notifications[s], host, viewer_id, found.notification_id));
    }
}

/// A notification is found by its id.
pub proof fn notifications_are_found_by_id(
    state: State,
    host: Seq<char>,
    viewer_id: i64,
    id: Seq<char>,
)
    ensures
        match lookup(state.notifications, stored_as(host, viewer_id, id)) {
            Some(m) => stored_for(m, host, viewer_id, id) && state.notifications.contains(m),
            None => forall|i: int|
                0 <= i < state.notifications.len() ==> !stored_for(
                    #[trigger] state.notifications[i],
                    host,
                    viewer_id,
                    id,
                ),
        },
{
    let p = stored_as(host, viewer_id, id);
    first_in_range(state.notifications, p, 0);
    assert forall|i: int| 0 <= i < state.notifications.len() implies p(
        #[trigger] state.notifications[i],
    ) == stored_for(state.notifications[i], host, viewer_id, id) by {}
}

/// A page is stored by storing its notifications one after another, each with its own
/// text. A poll stores its page and what the next one starts from; a bootstrap stores
/// its page and is done.
pub proof fn pages_are_stored_one_by_one(
    state: State,
    host: Seq<char>,
    viewer_id: i64,
    repository_id: i64,
    page: Seq<(NotificationModel, Seq<char>)>,
    n: NotificationModel,
    raw: Seq<char>,
    last_modified: Option<Seq<char>>,
    high_water: Option<Seq<char>>,
    now: i64,
)
    ensures
        state.store_all(host, viewer_id, seq![], now) == state,
        state.store_all(host, viewer_id, page.push((n, raw)), now) == state.store_all(
            host,
            viewer_id,
            page,
            now,
        ).upsert_notification(host, viewer_id, n, raw, now),
        ({
            let stored = state.store_all(host, viewer_id, page, now);
            let polled = state.commit_poll(
                host,
                viewer_id,
                page,
                last_modified,
                high_water,
                now,
            );
            let booted = state.commit_bootstrap(host, viewer_id, repository_id, page, now);
            &&& polled == (State { poll_states: polled.poll_states, ..stored })
            &&& booted == (State { bootstraps: booted.bootstraps, ..stored })
        }),
{
    assert(page.push((n, raw)).drop_last() =~= page);
}

} // verus!
