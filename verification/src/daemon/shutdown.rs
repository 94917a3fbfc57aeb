//! Reviews in progress, and how the daemon takes its leave of them.

use std::collections::HashMap;
use vstd::prelude::*;
use crate::daemon::HOST;
use crate::db::actions::{has_id, is_running};
use crate::db::integrity::other_id;
use crate::db::rows::{ActionModel, ActionStatus, ReviewAction};
use crate::db::{Database, State};
use crate::model::opt_model;
use crate::number::{decimal, u64_text};
use crate::order::{sort, sorted, sorted_is_sorted};
use crate::text::{
    debug_text, join, push_text, str_debug, str_join, text_le, text_le_antisymmetric, text_le_total,
    text_le_transitive, texts,
};
use crate::table::{best_in_range, lookup, lookup_unique, updated};

verus! {

broadcast use vstd::std_specs::hash::group_hash_axioms;

// ---------------------------------------------------------------------------
// Reviews in progress
// ---------------------------------------------------------------------------

/// A review whose command may be running.
#[derive(Debug, PartialEq, Eq)]
pub struct InProgressReview {
    pub repository: String,
    pub pull: u64,
    pub title: String,
}

#[verifier::ext_equal]
pub struct InProgressModel {
    pub repository: Seq<char>,
    pub pull: u64,
    pub title: Seq<char>,
}

impl View for InProgressReview {
    type V = InProgressModel;

    open spec fn view(&self) -> InProgressModel {
        InProgressModel { repository: self.repository@, pull: self.pull, title: self.title@ }
    }
}

impl InProgressModel {
    /// How the review is named to the operator.
    pub open spec fn text(self) -> Seq<char> {
        self.repository + "#"@ + decimal(self.pull as nat) + " "@ + debug_text(self.title)
    }

    /// The review of an action.
    pub open spec fn of(action: ActionModel) -> InProgressModel {
        InProgressModel {
            repository: action.repository_full_name,
            pull: action.pull_request_number,
            title: action.envelope.pull_request.title,
        }
    }
}

/// The reviews in progress by the number of their action, and whether the
/// operator asked the daemon to stop.
#[derive(Debug)]
pub struct ShutdownState {
    pub ctrl_c_received: bool,
    pub reviews: HashMap<i64, InProgressReview>,
}

#[verifier::ext_equal]
pub struct ShutdownModel {
    pub ctrl_c_received: bool,
    pub reviews: Map<i64, InProgressModel>,
}

impl View for ShutdownState {
    type V = ShutdownModel;

    open spec fn view(&self) -> ShutdownModel {
        ShutdownModel {
            ctrl_c_received: self.ctrl_c_received,
            reviews: self.reviews@.map_values(|r: InProgressReview| r@),
        }
    }
}

impl Default for ShutdownState {
    fn default() -> (r: Self)
        ensures
            !r@.ctrl_c_received,
            r@.reviews == Map::<i64, InProgressModel>::empty(),
    {
        let r = ShutdownState { ctrl_c_received: false, reviews: HashMap::new() };
        assert(r@.reviews =~= Map::<i64, InProgressModel>::empty());
        r
    }
}

// ---------------------------------------------------------------------------
// The list of reviews
// ---------------------------------------------------------------------------

/// `order` names each key of `reviews` once.
pub open spec fn enumerates(order: Seq<i64>, reviews: Map<i64, InProgressModel>) -> bool {
    order.no_duplicates() && forall|k: i64| order.contains(k) <==> reviews.dom().contains(k)
}

/// The reviews in words, in the order of `order`.
pub open spec fn lines_in(order: Seq<i64>, reviews: Map<i64, InProgressModel>) -> Seq<Seq<char>> {
    order.map_values(|k: i64| reviews[k].text())
}

/// The reviews in words, sorted.
pub open spec fn list_text(order: Seq<i64>, reviews: Map<i64, InProgressModel>) -> Seq<char> {
    join(sorted::<String>(lines_in(order, reviews)), ", "@)
}

proof fn enumerations_agree(a: Seq<i64>, b: Seq<i64>, reviews: Map<i64, InProgressModel>)
    requires
        a.no_duplicates(),
        b.no_duplicates(),
        forall|k: i64| a.contains(k) <==> b.contains(k),
    ensures
        lines_in(a, reviews).to_multiset() == lines_in(b, reviews).to_multiset(),
    decreases a.len(),
{
    broadcast use vstd::seq_lib::group_to_multiset_ensures;

    if a.len() == 0 {
        if b.len() > 0 {
            assert(b.contains(b[0]));
            assert(a.contains(b[0]));
        }
        assert(lines_in(a, reviews) =~= lines_in(b, reviews));
    } else {
        let x = a.last();
        assert(a.contains(a[a.len() - 1]));
        assert(b.contains(x));
        let j = choose|j: int| 0 <= j < b.len() && b[j] == x;
        let short = a.drop_last();
        let rest = b.remove(j);
        assert(rest.no_duplicates()) by {
            assert forall|p: int, q: int|
                0 <= p < rest.len() && 0 <= q < rest.len() && p != q implies rest[p] != rest[q] by {
                let pp = if p < j {
                    p
                } else {
                    p + 1
                };
                let qq = if q < j {
                    q
                } else {
                    q + 1
                };
                assert(rest[p] == b[pp]);
                assert(rest[q] == b[qq]);
            }
        }
        assert forall|k: i64| short.contains(k) <==> rest.contains(k) by {
            if short.contains(k) {
                let i = choose|i: int| 0 <= i < short.len() && short[i] == k;
                assert(a[i] == k);
                assert(a.contains(k));
                assert(k != x);
                let p = choose|p: int| 0 <= p < b.len() && b[p] == k;
                assert(p != j);
                if p < j {
                    assert(rest[p] == k);
                } else {
                    assert(rest[p - 1] == k);
                }
            }
            if rest.contains(k) {
                let p = choose|p: int| 0 <= p < rest.len() && rest[p] == k;
                let q = if p < j {
                    p
                } else {
                    p + 1
                };
                assert(b[q] == k);
                assert(b.contains(k));
                assert(k != x);
                let i = choose|i: int| 0 <= i < a.len() && a[i] == k;
                assert(short[i] == k);
            }
        }
        enumerations_agree(short, rest, reviews);
        let line = reviews[x].text();
        assert(lines_in(a, reviews) =~= lines_in(short, reviews).push(line));
        assert(lines_in(b, reviews) =~= lines_in(rest, reviews).insert(j, line));
        vstd::seq_lib::to_multiset_insert(lines_in(rest, reviews), j, line);
        assert(lines_in(a, reviews).to_multiset() =~= lines_in(b, reviews).to_multiset());
    }
}

/// The list does not depend on the order in which the reviews are walked.
pub proof fn list_is_stable(a: Seq<i64>, b: Seq<i64>, reviews: Map<i64, InProgressModel>)
    requires
        enumerates(a, reviews),
        enumerates(b, reviews),
    ensures
        list_text(a, reviews) == list_text(b, reviews),
{
    let one = lines_in(a, reviews);
    let other = lines_in(b, reviews);
    enumerations_agree(a, b, reviews);
    sorted_is_sorted::<String>(one);
    sorted_is_sorted::<String>(other);
    let leq = |p: Seq<char>, q: Seq<char>| text_le(p, q);
    assert(vstd::relations::total_ordering(leq)) by {
        assert forall|p: Seq<char>| #[trigger] leq(p, p) by {
            text_le_total(p, p);
        }
        assert forall|p: Seq<char>, q: Seq<char>|
            #[trigger] leq(p, q) && #[trigger] leq(q, p) implies p == q by {
            text_le_antisymmetric(p, q);
        }
        assert forall|p: Seq<char>, q: Seq<char>, r: Seq<char>|
            #[trigger] leq(p, q) && #[trigger] leq(q, r) implies leq(p, r) by {
            text_le_transitive(p, q, r);
        }
        assert forall|p: Seq<char>, q: Seq<char>| #[trigger] leq(p, q) || #[trigger] leq(q, p) by {
            text_le_total(p, q);
        }
    }
    assert(vstd::relations::sorted_by(sorted::<String>(one), leq));
    assert(vstd::relations::sorted_by(sorted::<String>(other), leq));
    vstd::seq_lib::lemma_sorted_unique(sorted::<String>(one), sorted::<String>(other), leq);
}

/// What the operator is told about the reviews that the daemon waits for.
pub open spec fn waiting_text(order: Seq<i64>, reviews: Map<i64, InProgressModel>) -> Seq<char> {
    if order.len() == 0 {
        "waiting for 0 in-progress reviews to complete"@
    } else {
        "waiting for "@ + decimal(order.len()) + " in-progress reviews to complete: "@ + list_text(
            order,
            reviews,
        )
    }
}

impl ShutdownState {
    /// Counts the review of an action among those in progress.
    pub fn track(&mut self, action: &ReviewAction)
        ensures
            final(self)@ == (ShutdownModel {
                reviews: old(self)@.reviews.insert(action.id, InProgressModel::of(action@)),
                ..old(self)@
            }),
    {
        let ghost before = self@;
        let review = InProgressReview {
            repository: action.repository_full_name.clone(),
            pull: action.pull_request_number,
            title: action.envelope.pull_request.title.clone(),
        };
        self.reviews.insert(action.id, review);
        assert(self@.reviews =~= before.reviews.insert(action.id, InProgressModel::of(action@)));
    }

    fn review_lines(&self) -> (r: (Vec<String>, Ghost<Seq<i64>>))
        ensures
            enumerates(r.1@, self@.reviews),
            texts(r.0@) == lines_in(r.1@, self@.reviews),
    {
        let mut lines: Vec<String> = Vec::new();
        let ghost mut order: Seq<i64> = seq![];
        let ghost all = vstd::std_specs::iter::IteratorSpec::remaining(&self.reviews.keys()).unref();
        assert(texts(lines@) =~= lines_in(order, self@.reviews));
        for key in keys: self.reviews.keys()
            invariant
                all == keys.seq().unref(),
                all.to_set() == self.reviews@.dom(),
                keys.seq().no_duplicates(),
                order == all.take(keys.index()),
                texts(lines@) == lines_in(order, self@.reviews),
        {
            proof {
                assert(all[keys.index()] == *key);
                assert(all.to_set().contains(*key));
            }
            if let Some(review) = self.reviews.get(key) {
                let mut line = review.repository.clone();
                line.append("#");
                line.append(u64_text(review.pull).as_str());
                line.append(" ");
                line.append(str_debug(review.title.as_str()).as_str());
                let ghost before = lines@;
                lines.push(line);
                proof {
                    assert(self@.reviews[*key] == review@);
                    assert(texts(lines@) =~= texts(before).push(review@.text()));
                    let longer = order.push(*key);
                    assert(lines_in(longer, self@.reviews) =~= lines_in(order, self@.reviews).push(
                        review@.text(),
                    ));
                    order = longer;
                    assert(order =~= all.take(keys.index() + 1));
                }
            }
        }
        proof {
            assert(order =~= all);
            assert forall|k: i64| order.contains(k) <==> self@.reviews.dom().contains(k) by {
                assert(order.to_set().contains(k) <==> order.contains(k));
            }
        }
        (lines, Ghost(order))
    }

    /// The reviews in progress, in a stable order.
    pub fn review_list(&self) -> (r: String)
        ensures
            forall|order: Seq<i64>| #[trigger]
                enumerates(order, self@.reviews) ==> r@ == list_text(order, self@.reviews),
    {
        let (lines, Ghost(walked)) = self.review_lines();
        let sorted_lines = sort(lines);
        let r = str_join(&sorted_lines, ", ");
        assert(crate::order::models(sorted_lines@) =~= texts(sorted_lines@));
        assert(crate::order::models(lines@) =~= texts(lines@));
        assert forall|order: Seq<i64>| #[trigger] enumerates(order, self@.reviews) implies r@
            == list_text(order, self@.reviews) by {
            list_is_stable(order, walked, self@.reviews);
        }
        r
    }

    /// What the operator is told about the reviews that the daemon waits for.
    pub fn waiting_message(&self) -> (r: String)
        ensures
            forall|order: Seq<i64>| #[trigger]
                enumerates(order, self@.reviews) ==> r@ == waiting_text(order, self@.reviews),
    {
        let waiting: usize = self.reviews.len();
        proof {
            self.enumerations_have_length();
        }
        if waiting == 0 {
            return "waiting for 0 in-progress reviews to complete".to_owned();
        }
        let mut r = "waiting for ".to_owned();
        r.append(u64_text(waiting as u64).as_str());
        r.append(" in-progress reviews to complete: ");
        r.append(self.review_list().as_str());
        r
    }
}

// ---------------------------------------------------------------------------
// Signals
// ---------------------------------------------------------------------------

/// What the operator is told when they ask the daemon to stop.
pub open spec fn stop_messages(order: Seq<i64>, reviews: Map<i64, InProgressModel>) -> Seq<
    Seq<char>,
> {
    let told = seq![
        "CTRL-C received; immediately stopping acceptance of new review requests"@,
        "press CTRL-C again to immediately abort and kill all in-progress reviews"@,
        waiting_text(order, reviews),
    ];
    if order.len() == 0 {
        told.push("all reviews completed, quitting"@)
    } else {
        told
    }
}

/// What the operator is told when a review ends, with `remaining` in progress.
pub open spec fn completion_messages(stopping: bool, remaining: nat) -> Seq<Seq<char>> {
    if !stopping {
        seq![]
    } else {
        let told = seq![
            "review completed; "@ + decimal(remaining) + " in-progress reviews remaining"@,
        ];
        if remaining == 0 {
            told.push("all reviews completed, quitting"@)
        } else {
            told
        }
    }
}

/// What a signal asks for, where `earlier` signals came before it.
#[derive(Clone, Copy, Debug, PartialEq, Eq, Structural)]
pub enum SignalEffect {
    /// Start no further review, and wait for those in progress.
    Stop,
    /// Kill the reviews in progress.
    Abort,
}

/// What a signal does after `earlier` ones.
pub open spec fn effect_after(earlier: usize) -> SignalEffect {
    if earlier > 0 {
        SignalEffect::Abort
    } else {
        SignalEffect::Stop
    }
}

/// The first signal stops the daemon, and every later one aborts its reviews.
pub fn signal_effect(earlier: usize) -> (r: SignalEffect)
    ensures
        r == effect_after(earlier),
        r == (if earlier > 0 {
            SignalEffect::Abort
        } else {
            SignalEffect::Stop
        }),
{
    if earlier > 0 {
        SignalEffect::Abort
    } else {
        SignalEffect::Stop
    }
}

impl ShutdownState {
    /// Notes that the operator asked the daemon to stop, and says what they are
    /// told.
    pub fn request_stop(&mut self) -> (r: Vec<String>)
        ensures
            final(self)@ == (ShutdownModel { ctrl_c_received: true, ..old(self)@ }),
            forall|order: Seq<i64>| #[trigger]
                enumerates(order, old(self)@.reviews) ==> texts(r@) == stop_messages(
                    order,
                    old(self)@.reviews,
                ),
    {
        self.ctrl_c_received = true;
        let waiting = self.waiting_message();
        let mut r: Vec<String> = Vec::new();
        assert(texts(r@) =~= seq![]);
        push_text(
            &mut r,
            "CTRL-C received; immediately stopping acceptance of new review requests",
        );
        push_text(
            &mut r,
            "press CTRL-C again to immediately abort and kill all in-progress reviews",
        );
        push_text(&mut r, waiting.as_str());
        proof {
            self.enumerations_have_length();
        }
        if self.reviews.len() == 0 {
            push_text(&mut r, "all reviews completed, quitting");
        }
        assert forall|order: Seq<i64>| #[trigger]
            enumerates(order, self@.reviews) implies texts(r@) == stop_messages(
            order,
            self@.reviews,
        ) by {
            assert(texts(r@) =~= stop_messages(order, self@.reviews));
        }
        r
    }

    proof fn enumerations_have_length(&self)
        ensures
            self@.reviews.dom().finite(),
            self@.reviews.dom().len() == self.reviews@.dom().len(),
            forall|order: Seq<i64>| #[trigger]
                enumerates(order, self@.reviews) ==> order.len() == self.reviews@.dom().len(),
    {
        assert(self@.reviews.dom() =~= self.reviews@.dom());
        assert forall|order: Seq<i64>| #[trigger] enumerates(order, self@.reviews) implies order.len()
            == self.reviews@.dom().len() by {
            order.unique_seq_to_set();
            assert(order.to_set() =~= self.reviews@.dom());
        }
    }

    /// Takes the review of an action off the list, and says what the operator
    /// is told.
    pub fn complete(&mut self, action_id: i64) -> (r: Vec<String>)
        ensures
            final(self)@ == (ShutdownModel {
                reviews: old(self)@.reviews.remove(action_id),
                ..old(self)@
            }),
            texts(r@) == completion_messages(
                old(self)@.ctrl_c_received,
                old(self)@.reviews.remove(action_id).dom().len(),
            ),
    {
        let ghost before = self@;
        let _ = self.reviews.remove(&action_id);
        assert(self@.reviews =~= before.reviews.remove(action_id));
        let mut r: Vec<String> = Vec::new();
        assert(texts(r@) =~= seq![]);
        if self.ctrl_c_received {
            proof {
                self.enumerations_have_length();
            }
            let remaining: usize = self.reviews.len();
            let mut line = "review completed; ".to_owned();
            line.append(u64_text(remaining as u64).as_str());
            line.append(" in-progress reviews remaining");
            push_text(&mut r, line.as_str());
            if remaining == 0 {
                push_text(&mut r, "all reviews completed, quitting");
            }
        }
        assert(texts(r@) =~= completion_messages(before.ctrl_c_received, self@.reviews.dom().len()));
        r
    }
}

// ---------------------------------------------------------------------------
// Claims
// ---------------------------------------------------------------------------

/// The state after the next review was claimed, and the review.
pub open spec fn claimed_for_processing(
    state: State,
    viewer_id: i64,
    max_concurrency: usize,
    signals: usize,
    now: i64,
) -> (State, Option<ActionModel>) {
    if signals > 0 {
        (state, None)
    } else {
        state.claim_due_action("github.com"@, viewer_id, max_concurrency as nat, now)
    }
}

/// Claims the next review, unless the operator asked the daemon to stop.
pub fn claim_review_for_processing(
    db: &mut Database,
    viewer_id: i64,
    max_concurrency: usize,
    signals: usize,
    now: i64,
) -> (r: Option<ReviewAction>)
    ensures
        (final(db)@, opt_model(r)) == claimed_for_processing(
            old(db)@,
            viewer_id,
            max_concurrency,
            signals,
            now,
        ),
        (final(db)@, opt_model(r)) == (if signals > 0 {
            (old(db)@, None)
        } else {
            old(db)@.claim_due_action("github.com"@, viewer_id, max_concurrency as nat, now)
        }),
{
    if signals > 0 {
        return None;
    }
    db.claim_due_action(HOST, viewer_id, max_concurrency, now)
}

/// The state and the reviews in progress after a claim was confirmed or put back.
pub open spec fn confirmed(
    state: State,
    shutdown: ShutdownModel,
    action: ActionModel,
    signals: usize,
    now: i64,
) -> (State, ShutdownModel) {
    if signals > 0 {
        (
            state.defer_action(
                action.id,
                "daemon shutdown requested before review started"@,
                now,
                now,
            ),
            shutdown,
        )
    } else {
        (
            state,
            ShutdownModel {
                reviews: shutdown.reviews.insert(action.id, InProgressModel::of(action)),
                ..shutdown
            },
        )
    }
}

/// A review that was claimed is put back where the operator asked the daemon to
/// stop in between. Otherwise it counts among those in progress.
pub fn confirm_review(
    shutdown: &mut ShutdownState,
    db: &mut Database,
    action: &ReviewAction,
    signals: usize,
    now: i64,
) -> (r: bool)
    ensures
        (final(db)@, final(shutdown)@) == confirmed(
            old(db)@,
            old(shutdown)@,
            action@,
            signals,
            now,
        ),
        r == (signals == 0),
        r ==> final(db)@ == old(db)@ && final(shutdown)@ == (ShutdownModel {
            reviews: old(shutdown)@.reviews.insert(action.id, InProgressModel::of(action@)),
            ..old(shutdown)@
        }),
        !r ==> final(shutdown)@ == old(shutdown)@ && final(db)@ == old(db)@.defer_action(
            action.id,
            "daemon shutdown requested before review started"@,
            now,
            now,
        ),
{
    if signals > 0 {
        let _ = db.defer_action(
            action.id,
            "daemon shutdown requested before review started",
            now,
            now,
        );
        return false;
    }
    shutdown.track(action);
    true
}

// ---------------------------------------------------------------------------
// Laws
// ---------------------------------------------------------------------------

/// A review that is claimed, and put back because the daemon stops, is due again
/// as it was: the attempt does not count.
pub proof fn stopping_costs_no_attempt(
    state: State,
    viewer_id: i64,
    limit: nat,
    now: i64,
)
    requires
        state.wf(),
        state.claim_due_action("github.com"@, viewer_id, limit, now).1 is Some,
    ensures
        ({
            let claimed = state.claim_due_action("github.com"@, viewer_id, limit, now);
            let id = claimed.1->0.id;
            let after = claimed.0.defer_action(
                id,
                "daemon shutdown requested before review started"@,
                now,
                now,
            );
            let before = lookup(state.actions, has_id(id));
            let back = lookup(after.actions, has_id(id));
            &&& before is Some
            &&& back is Some
            &&& back->0.status == ActionStatus::Pending
            &&& back->0.attempts == before->0.attempts
            &&& back->0.due_at == now
        }),
{
    let k = state.next_action("github.com"@, viewer_id, limit, now)->0;
    best_in_range(
        state.actions,
        state.claimable("github.com"@, viewer_id, now),
        |a: ActionModel, b: ActionModel| a.claimed_before(b),
    );
    let action = state.actions[k];
    let id = action.id;
    let claimed = state.actions.update(k, action.claimed(now));
    let reason = "daemon shutdown requested before review started"@;
    let change = |m: ActionModel| m.deferred(reason, now, now);
    let after = updated(claimed, is_running(id), change);
    lookup_unique(state.actions, has_id(id), k);
    assert(after.len() == claimed.len());
    assert(after[k] == action.claimed(now).deferred(reason, now, now));
    assert forall|j: int| 0 <= j < after.len() && j != k implies !has_id(id)(#[trigger] after[j]) by {
        assert(other_id(state.actions[j], state.actions[k]) || other_id(
            state.actions[k],
            state.actions[j],
        ));
        assert(claimed[j] == state.actions[j]);
    }
    lookup_unique(after, has_id(id), k);
}

/// A review in progress is named by the repository, the number and the title of its
/// pull request.
pub proof fn reviews_are_named_by_their_pull_request(action: ActionModel)
    ensures
        InProgressModel::of(action).repository == action.repository_full_name,
        InProgressModel::of(action).pull == action.pull_request_number,
        InProgressModel::of(action).title == action.envelope.pull_request.title,
        InProgressModel::of(action).text() == action.repository_full_name + "#"@ + decimal(
            action.pull_request_number as nat,
        ) + " "@ + debug_text(action.envelope.pull_request.title),
{
}

/// The end of a review is told only while the daemon stops, with the number of those
/// that remain; the end of the last one says that the daemon quits.
pub proof fn stopping_tells_what_remains(
    stopping: bool,
    remaining: nat,
    order: Seq<i64>,
    reviews: Map<i64, InProgressModel>,
)
    ensures
        ({
            let told = completion_messages(stopping, remaining);
            let quits = "all reviews completed, quitting"@;
            &&& told.len() == if !stopping {
                0nat
            } else if remaining > 0 {
                1
            } else {
                2
            }
            &&& stopping ==> told[0] == "review completed; "@ + decimal(remaining)
                + " in-progress reviews remaining"@
            &&& stopping && remaining == 0 ==> told[1] == quits
            &&& stop_messages(order, reviews).len() == if order.len() == 0 {
                4nat
            } else {
                3
            }
            &&& order.len() == 0 ==> stop_messages(order, reviews)[3] == quits
            &&& stop_messages(order, reviews)[0]
                == "CTRL-C received; immediately stopping acceptance of new review requests"@
            &&& stop_messages(order, reviews)[1]
                == "press CTRL-C again to immediately abort and kill all in-progress reviews"@
            &&& order.len() > 0 ==> stop_messages(order, reviews)[2] == "waiting for "@ + decimal(
                order.len(),
            ) + " in-progress reviews to complete: "@ + join(
                sorted::<String>(lines_in(order, reviews)),
                ", "@,
            )
        }),
{
}

} // verus!
