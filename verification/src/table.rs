//! Tables as lists of rows: searching, changing and removing the rows that a
//! rule applies to.

use vstd::prelude::*;
use crate::order::models;

verus! {

/// A row that can be handed out.
pub trait Row: View + Sized {
    /// A row with the same model.
    fn duplicate(&self) -> (r: Self)
        ensures
            r@ == self@,
    ;
}

/// A test on rows.
pub trait Test<T: View> {
    spec fn holds(&self, m: T::V) -> bool;

    fn check(&self, row: &T) -> (r: bool)
        ensures
            r == self.holds(row@),
    ;
}

/// A change of the rows that a test holds of.
pub trait Change<T: View>: Test<T> {
    spec fn changed(&self, m: T::V) -> T::V;

    fn apply(&self, row: &mut T)
        requires
            self.holds(old(row)@),
        ensures
            final(row)@ == self.changed(old(row)@),
    ;
}

/// An order among the rows that a test holds of.
pub trait Choice<T: View>: Test<T> {
    /// `a` may be chosen though `b` stands behind it in the table.
    spec fn precedes(&self, a: T::V, b: T::V) -> bool;

    fn is_before(&self, a: &T, b: &T) -> (r: bool)
        ensures
            r == self.precedes(a@, b@),
    ;
}

/// The rows, with those changed that `p` holds of.
pub open spec fn updated<M>(s: Seq<M>, p: spec_fn(M) -> bool, f: spec_fn(M) -> M) -> Seq<M> {
    s.map_values(|m: M| if p(m) { f(m) } else { m })
}

/// The rows that `p` does not hold of.
pub open spec fn removed<M>(s: Seq<M>, p: spec_fn(M) -> bool) -> Seq<M> {
    s.filter(|m: M| !p(m))
}

/// The number of rows that `p` holds of.
pub open spec fn count<M>(s: Seq<M>, p: spec_fn(M) -> bool) -> nat {
    s.filter(p).len()
}

/// `p` holds of some row.
pub open spec fn any<M>(s: Seq<M>, p: spec_fn(M) -> bool) -> bool {
    exists|i: int| 0 <= i < s.len() && p(#[trigger] s[i])
}

/// The first row, from `from` on, that `p` holds of.
pub open spec fn first_from<M>(s: Seq<M>, p: spec_fn(M) -> bool, from: int) -> Option<int>
    decreases s.len() - from,
{
    if from < 0 || from >= s.len() {
        None
    } else if p(s[from]) {
        Some(from)
    } else {
        first_from(s, p, from + 1)
    }
}

/// The position of the first row that `p` holds of.
pub open spec fn first<M>(s: Seq<M>, p: spec_fn(M) -> bool) -> Option<int> {
    first_from(s, p, 0)
}

/// The first row that `p` holds of.
pub open spec fn lookup<M>(s: Seq<M>, p: spec_fn(M) -> bool) -> Option<M> {
    match first(s, p) {
        Some(i) => Some(s[i]),
        None => None,
    }
}

/// The position of the row to choose among those that `p` holds of: the first
/// one that no other precedes.
pub open spec fn best<M>(
    s: Seq<M>,
    p: spec_fn(M) -> bool,
    before: spec_fn(M, M) -> bool,
) -> Option<int>
    decreases s.len(),
{
    if s.len() == 0 {
        None
    } else {
        let earlier = best(s.drop_last(), p, before);
        let last = s.len() - 1;
        if !p(s[last]) {
            earlier
        } else {
            match earlier {
                None => Some(last),
                Some(k) => if before(s[k], s[last]) {
                    Some(k)
                } else {
                    Some(last)
                },
            }
        }
    }
}

// ---------------------------------------------------------------------------
// Facts about tables
// ---------------------------------------------------------------------------

pub proof fn first_in_range<M>(s: Seq<M>, p: spec_fn(M) -> bool, from: int)
    requires
        0 <= from,
    ensures
        first_from(s, p, from) matches Some(i) ==> from <= i < s.len() && p(s[i]) && forall|j: int|
            from <= j < i ==> !p(#[trigger] s[j]),
        first_from(s, p, from) is None ==> forall|j: int| from <= j < s.len() ==> !p(#[trigger] s[j]),
    decreases s.len() - from,
{
    if from < s.len() && !p(s[from]) {
        first_in_range(s, p, from + 1);
    }
}

/// There is a first row exactly where there is one.
pub proof fn first_exists<M>(s: Seq<M>, p: spec_fn(M) -> bool)
    ensures
        first(s, p) is Some <==> any(s, p),
        first(s, p) matches Some(i) ==> 0 <= i < s.len() && p(s[i]),
{
    first_in_range(s, p, 0);
    if let Some(i) = first(s, p) {
        assert(p(s[i]));
    }
}

/// The chosen row passes the test, and no row that passes it precedes the
/// chosen one, where the order is total and transitive.
pub proof fn best_is_best<M>(
    s: Seq<M>,
    p: spec_fn(M) -> bool,
    before: spec_fn(M, M) -> bool,
)
    requires
        forall|a: M, b: M| #[trigger] before(a, b) || before(b, a),
        forall|a: M, b: M, c: M|
            #[trigger] before(a, b) && #[trigger] before(b, c) ==> before(a, c),
    ensures
        best(s, p, before) is Some <==> any(s, p),
        best(s, p, before) matches Some(k) ==> 0 <= k < s.len() && p(s[k]) && forall|j: int|
            0 <= j < s.len() && p(#[trigger] s[j]) ==> before(s[k], s[j]),
    decreases s.len(),
{
    if s.len() > 0 {
        let front = s.drop_last();
        let last = s.len() - 1;
        best_is_best(front, p, before);
        if any(front, p) {
            let i = choose|i: int| 0 <= i < front.len() && p(#[trigger] front[i]);
            assert(p(s[i]));
        }
        if any(s, p) && !p(s[last]) {
            let i = choose|i: int| 0 <= i < s.len() && p(#[trigger] s[i]);
            assert(p(front[i]));
        }
        if let Some(k) = best(s, p, before) {
            assert forall|j: int| 0 <= j < s.len() && p(#[trigger] s[j]) implies before(
                s[k],
                s[j],
            ) by {
                if j < last {
                    assert(front[j] == s[j]);
                }
            }
        }
    }
}

/// The position that is chosen lies in the table.
pub proof fn best_in_range<M>(s: Seq<M>, p: spec_fn(M) -> bool, before: spec_fn(M, M) -> bool)
    ensures
        best(s, p, before) matches Some(k) ==> 0 <= k < s.len() && p(s[k]),
    decreases s.len(),
{
    if s.len() > 0 {
        best_in_range(s.drop_last(), p, before);
    }
}

/// A change that keeps the answer of `q` keeps the number of rows that `q`
/// holds of.
pub proof fn count_updated<M>(
    s: Seq<M>,
    p: spec_fn(M) -> bool,
    f: spec_fn(M) -> M,
    q: spec_fn(M) -> bool,
)
    requires
        forall|m: M| #[trigger] p(m) ==> q(f(m)) == q(m),
    ensures
        count(updated(s, p, f), q) == count(s, q),
    decreases s.len(),
{
    reveal(Seq::filter);
    if s.len() > 0 {
        count_updated(s.drop_last(), p, f, q);
        assert(updated(s, p, f).drop_last() =~= updated(s.drop_last(), p, f));
    }
}

/// The number of rows that `p` holds of is zero exactly where there is none.
pub proof fn count_is_zero<M>(s: Seq<M>, p: spec_fn(M) -> bool)
    ensures
        count(s, p) == 0 <==> !any(s, p),
    decreases s.len(),
{
    reveal(Seq::filter);
    if s.len() > 0 {
        let front = s.drop_last();
        count_is_zero(front, p);
        if any(front, p) {
            let i = choose|i: int| 0 <= i < front.len() && p(#[trigger] front[i]);
            assert(p(s[i]));
        }
        if any(s, p) && !p(s.last()) {
            let i = choose|i: int| 0 <= i < s.len() && p(#[trigger] s[i]);
            assert(p(front[i]));
        }
        if p(s.last()) {
            assert(p(s[s.len() - 1]));
        }
    }
}

/// Exchanging one row changes the count by what `p` says of the two.
pub proof fn count_exchange<M>(s: Seq<M>, k: int, m: M, p: spec_fn(M) -> bool)
    requires
        0 <= k < s.len(),
    ensures
        count(s.update(k, m), p) == count(s, p) + (if p(m) {
            1int
        } else {
            0
        }) - (if p(s[k]) {
            1int
        } else {
            0
        }),
    decreases s.len(),
{
    reveal(Seq::filter);
    let t = s.update(k, m);
    if k == s.len() - 1 {
        assert(t.drop_last() =~= s.drop_last());
    } else {
        count_exchange(s.drop_last(), k, m, p);
        assert(t.drop_last() =~= s.drop_last().update(k, m));
    }
}

pub proof fn count_at_most<M>(s: Seq<M>, p: spec_fn(M) -> bool)
    ensures
        count(s, p) <= s.len(),
    decreases s.len(),
{
    reveal(Seq::filter);
    if s.len() > 0 {
        count_at_most(s.drop_last(), p);
    }
}

/// What is left after a removal: every row that stays was there, and every row
/// that `p` does not hold of stays.
pub proof fn removed_keeps<M>(s: Seq<M>, p: spec_fn(M) -> bool)
    ensures
        forall|i: int|
            0 <= i < removed(s, p).len() ==> s.contains(#[trigger] removed(s, p)[i]) && !p(
                removed(s, p)[i],
            ),
        forall|i: int|
            0 <= i < s.len() && !p(#[trigger] s[i]) ==> removed(s, p).contains(s[i]),
    decreases s.len(),
{
    reveal(Seq::filter);
    let q = |m: M| !p(m);
    if s.len() > 0 {
        let front = s.drop_last();
        removed_keeps(front, p);
        assert forall|i: int| 0 <= i < removed(s, p).len() implies s.contains(
            #[trigger] removed(s, p)[i],
        ) && !p(removed(s, p)[i]) by {
            if i < removed(front, p).len() {
                assert(removed(s, p)[i] == removed(front, p)[i]);
                let j = choose|j: int| 0 <= j < front.len() && front[j] == removed(front, p)[i];
                assert(s[j] == removed(s, p)[i]);
            } else {
                assert(s[s.len() - 1] == removed(s, p)[i]);
            }
        }
        assert forall|i: int| 0 <= i < s.len() && !p(#[trigger] s[i]) implies removed(
            s,
            p,
        ).contains(s[i]) by {
            if i < front.len() {
                assert(front[i] == s[i]);
                let j = choose|j: int|
                    0 <= j < removed(front, p).len() && removed(front, p)[j] == s[i];
                assert(removed(s, p)[j] == s[i]);
            } else {
                assert(removed(s, p)[removed(s, p).len() - 1] == s[i]);
            }
        }
    }
}

/// `q` holds of every row.
pub open spec fn all<M>(s: Seq<M>, q: spec_fn(M) -> bool) -> bool {
    forall|i: int| 0 <= i < s.len() ==> q(#[trigger] s[i])
}

/// `r` holds of any two rows.
pub open spec fn pairwise<M>(s: Seq<M>, r: spec_fn(M, M) -> bool) -> bool {
    forall|i: int, j: int| #![trigger s[i], s[j]] 0 <= i < j < s.len() ==> r(s[i], s[j])
}

pub proof fn all_updated<M>(
    s: Seq<M>,
    p: spec_fn(M) -> bool,
    f: spec_fn(M) -> M,
    q: spec_fn(M) -> bool,
)
    requires
        all(s, q),
        forall|m: M| #[trigger] p(m) && q(m) ==> q(f(m)),
    ensures
        all(updated(s, p, f), q),
{
}

pub proof fn all_push<M>(s: Seq<M>, m: M, q: spec_fn(M) -> bool)
    requires
        all(s, q),
        q(m),
    ensures
        all(s.push(m), q),
{
}

pub proof fn all_removed<M>(s: Seq<M>, p: spec_fn(M) -> bool, q: spec_fn(M) -> bool)
    requires
        all(s, q),
    ensures
        all(removed(s, p), q),
{
    removed_keeps(s, p);
    assert forall|i: int| 0 <= i < removed(s, p).len() implies q(#[trigger] removed(s, p)[i]) by {
        let j = choose|j: int| 0 <= j < s.len() && s[j] == removed(s, p)[i];
        assert(q(s[j]));
    }
}

pub proof fn pairwise_updated<M>(
    s: Seq<M>,
    p: spec_fn(M) -> bool,
    f: spec_fn(M) -> M,
    r: spec_fn(M, M) -> bool,
)
    requires
        pairwise(s, r),
        forall|a: M, b: M|
            #[trigger] r(a, b) ==> r(
                if p(a) {
                    f(a)
                } else {
                    a
                },
                if p(b) {
                    f(b)
                } else {
                    b
                },
            ),
    ensures
        pairwise(updated(s, p, f), r),
{
    let t = updated(s, p, f);
    assert forall|i: int, j: int| #![trigger t[i], t[j]] 0 <= i < j < t.len() implies r(
        t[i],
        t[j],
    ) by {
        assert(r(s[i], s[j]));
    }
}

pub proof fn pairwise_push<M>(s: Seq<M>, m: M, r: spec_fn(M, M) -> bool)
    requires
        pairwise(s, r),
        forall|i: int| 0 <= i < s.len() ==> r(#[trigger] s[i], m),
    ensures
        pairwise(s.push(m), r),
{
    let t = s.push(m);
    assert forall|i: int, j: int| #![trigger t[i], t[j]] 0 <= i < j < t.len() implies r(
        t[i],
        t[j],
    ) by {
        if j < s.len() {
            assert(r(s[i], s[j]));
        } else {
            assert(r(s[i], m));
        }
    }
}

pub proof fn pairwise_exchange<M>(s: Seq<M>, k: int, m: M, r: spec_fn(M, M) -> bool)
    requires
        0 <= k < s.len(),
        pairwise(s, r),
        forall|i: int| 0 <= i < k ==> r(#[trigger] s[i], m),
        forall|i: int| k < i < s.len() ==> r(m, #[trigger] s[i]),
    ensures
        pairwise(s.update(k, m), r),
{
    let t = s.update(k, m);
    assert forall|i: int, j: int| #![trigger t[i], t[j]] 0 <= i < j < t.len() implies r(
        t[i],
        t[j],
    ) by {
        if i == k {
            assert(r(m, s[j]));
        } else if j == k {
            assert(r(s[i], m));
        } else {
            assert(r(s[i], s[j]));
        }
    }
}

pub proof fn pairwise_removed<M>(s: Seq<M>, p: spec_fn(M) -> bool, r: spec_fn(M, M) -> bool)
    requires
        pairwise(s, r),
    ensures
        pairwise(removed(s, p), r),
    decreases s.len(),
{
    reveal(Seq::filter);
    if s.len() > 0 {
        let front = s.drop_last();
        assert forall|i: int, j: int|
            #![trigger front[i], front[j]]
            0 <= i < j < front.len() implies r(front[i], front[j]) by {
            assert(r(s[i], s[j]));
        }
        pairwise_removed(front, p, r);
        let kept = removed(front, p);
        let last = s.last();
        if !p(last) {
            removed_keeps(front, p);
            assert(removed(s, p) =~= kept.push(last));
            assert forall|i: int| 0 <= i < kept.len() implies r(#[trigger] kept[i], last) by {
                let j = choose|j: int| 0 <= j < front.len() && front[j] == kept[i];
                assert(r(s[j], s[s.len() - 1]));
            }
            pairwise_push(kept, last, r);
        } else {
            assert(removed(s, p) =~= kept);
        }
    }
}

/// A row that is left after a removal passes no more tests than before.
pub proof fn any_removed<M>(s: Seq<M>, p: spec_fn(M) -> bool, q: spec_fn(M) -> bool)
    ensures
        any(removed(s, p), q) ==> any(s, q),
        any(s, |m: M| q(m) && !p(m)) ==> any(removed(s, p), q),
{
    removed_keeps(s, p);
    if any(removed(s, p), q) {
        let i = choose|i: int| 0 <= i < removed(s, p).len() && q(#[trigger] removed(s, p)[i]);
        let j = choose|j: int| 0 <= j < s.len() && s[j] == removed(s, p)[i];
        assert(q(s[j]));
    }
    let both = |m: M| q(m) && !p(m);
    if any(s, both) {
        let i = choose|i: int| 0 <= i < s.len() && both(#[trigger] s[i]);
        let j = choose|j: int| 0 <= j < removed(s, p).len() && removed(s, p)[j] == s[i];
        assert(q(removed(s, p)[j]));
    }
}

/// A change that keeps the answer of `q` keeps whether some row passes it.
pub proof fn any_updated<M>(
    s: Seq<M>,
    p: spec_fn(M) -> bool,
    f: spec_fn(M) -> M,
    q: spec_fn(M) -> bool,
)
    requires
        forall|m: M| #[trigger] p(m) ==> q(f(m)) == q(m),
    ensures
        any(updated(s, p, f), q) == any(s, q),
{
    let t = updated(s, p, f);
    if any(s, q) {
        let i = choose|i: int| 0 <= i < s.len() && q(#[trigger] s[i]);
        assert(q(t[i]));
    }
    if any(t, q) {
        let i = choose|i: int| 0 <= i < t.len() && q(#[trigger] t[i]);
        assert(q(s[i]));
    }
}

pub proof fn any_push<M>(s: Seq<M>, m: M, q: spec_fn(M) -> bool)
    ensures
        any(s.push(m), q) == (any(s, q) || q(m)),
{
    let t = s.push(m);
    if any(s, q) {
        let i = choose|i: int| 0 <= i < s.len() && q(#[trigger] s[i]);
        assert(q(t[i]));
    }
    if q(m) {
        assert(q(t[s.len() as int]));
    }
    if any(t, q) {
        let i = choose|i: int| 0 <= i < t.len() && q(#[trigger] t[i]);
        if i < s.len() {
            assert(q(s[i]));
        }
    }
}

/// Where no two rows pass `q`, the first that does is the only one.
pub proof fn lookup_unique<M>(s: Seq<M>, q: spec_fn(M) -> bool, i: int)
    requires
        pairwise(s, |a: M, b: M| !(q(a) && q(b))),
        0 <= i < s.len(),
        q(s[i]),
    ensures
        first(s, q) == Some(i),
        lookup(s, q) == Some(s[i]),
{
    first_in_range(s, q, 0);
    let k = first(s, q)->0;
    let r = |a: M, b: M| !(q(a) && q(b));
    if k < i {
        assert(r(s[k], s[i]));
    } else if i < k {
        assert(!q(s[i]));
    }
}

// ---------------------------------------------------------------------------
// Executable operations
// ---------------------------------------------------------------------------

/// Changes the rows that the rule holds of, and tells how many.
pub fn update_where<T: View, C: Change<T>>(rows: &mut Vec<T>, rule: &C) -> (n: usize)
    ensures
        models(final(rows)@) == updated(
            models(old(rows)@),
            |m: T::V| rule.holds(m),
            |m: T::V| rule.changed(m),
        ),
        n == count(models(old(rows)@), |m: T::V| rule.holds(m)),
{
    let ghost s = models(rows@);
    let ghost p = |m: T::V| rule.holds(m);
    let ghost f = |m: T::V| rule.changed(m);
    let mut n: usize = 0;
    let mut i: usize = 0;
    assert(s.take(0).filter(p).len() == 0) by {
        reveal(Seq::filter);
    }
    while i < rows.len()
        invariant
            i <= rows@.len(),
            rows@.len() == s.len(),
            p == (|m: T::V| rule.holds(m)),
            f == (|m: T::V| rule.changed(m)),
            forall|j: int| 0 <= j < i ==> (#[trigger] rows@[j])@ == updated(s, p, f)[j],
            forall|j: int| i <= j < s.len() ==> (#[trigger] rows@[j])@ == s[j],
            n == count(s.take(i as int), p),
            n <= i,
        decreases rows@.len() - i,
    {
        assert(s.take(i as int + 1).drop_last() =~= s.take(i as int));
        assert(s.take(i as int + 1).last() == s[i as int]);
        assert(count(s.take(i as int + 1), p) == n + if p(s[i as int]) {
            1nat
        } else {
            0nat
        }) by {
            reveal(Seq::filter);
        }
        if rule.check(&rows[i]) {
            rule.apply(&mut rows[i]);
            n += 1;
        }
        i += 1;
    }
    assert(s.take(i as int) =~= s);
    assert(models(rows@) =~= updated(s, p, f));
    n
}

/// Removes the rows that the test holds of, and tells how many.
pub fn remove_where<T: View, C: Test<T>>(rows: &mut Vec<T>, test: &C) -> (n: usize)
    ensures
        models(final(rows)@) == removed(models(old(rows)@), |m: T::V| test.holds(m)),
        n == count(models(old(rows)@), |m: T::V| test.holds(m)),
{
    let ghost s = models(rows@);
    let ghost p = |m: T::V| test.holds(m);
    let ghost q = |m: T::V| !p(m);
    let total: usize = rows.len();
    let mut n: usize = 0;
    let mut i: usize = 0;
    assert(s.take(0).filter(p).len() == 0 && s.take(0).filter(q).len() == 0) by {
        reveal(Seq::filter);
    }
    assert(models(rows@).take(0) =~= s.take(0).filter(q));
    assert(models(rows@).skip(0) =~= s.skip(0));
    while i < rows.len()
        invariant
            i <= rows@.len(),
            p == (|m: T::V| test.holds(m)),
            q == (|m: T::V| !p(m)),
            rows@.len() + n == s.len(),
            s.len() == total,
            models(rows@).take(i as int) == s.take(i + n).filter(q),
            models(rows@).skip(i as int) == s.skip(i + n),
            n == count(s.take(i + n), p),
        decreases rows@.len() - i,
    {
        let ghost k = i + n;
        let ghost before = models(rows@);
        assert(s.take(k + 1).drop_last() =~= s.take(k));
        assert(s.take(k + 1).last() == s[k]);
        assert(before[i as int] == before.skip(i as int)[0]);
        assert(s[k] == s.skip(k)[0]);
        assert(count(s.take(k + 1), p) == n + if p(s[k]) {
            1nat
        } else {
            0nat
        }) by {
            reveal(Seq::filter);
        }
        assert(s.take(k + 1).filter(q) == if p(s[k]) {
            s.take(k).filter(q)
        } else {
            s.take(k).filter(q).push(s[k])
        }) by {
            reveal(Seq::filter);
        }
        if test.check(&rows[i]) {
            let gone = rows.remove(i);
            n += 1;
            assert(models(rows@).take(i as int) =~= before.take(i as int));
            assert(models(rows@).skip(i as int) =~= before.skip(i as int).skip(1));
            assert(s.skip(k).skip(1) =~= s.skip(k + 1));
        } else {
            i += 1;
            assert(models(rows@).take(i as int) =~= before.take(i as int - 1).push(s[k]));
            assert(models(rows@).skip(i as int) =~= before.skip(i as int - 1).skip(1));
            assert(s.skip(k).skip(1) =~= s.skip(k + 1));
        }
    }
    assert(s.take(i + n) =~= s);
    assert(models(rows@).take(i as int) =~= models(rows@));
    n
}

/// The position of the first row that the test holds of.
pub fn position<T: View, C: Test<T>>(rows: &Vec<T>, test: &C) -> (r: Option<usize>)
    ensures
        match r {
            Some(i) => first(models(rows@), |m: T::V| test.holds(m)) == Some(i as int) && i
                < rows@.len() && test.holds(rows@[i as int]@),
            None => first(models(rows@), |m: T::V| test.holds(m)) is None,
        },
        r is Some <==> any(models(rows@), |m: T::V| test.holds(m)),
{
    let ghost s = models(rows@);
    let ghost p = |m: T::V| test.holds(m);
    proof {
        first_exists(s, p);
    }
    let mut i: usize = 0;
    while i < rows.len()
        invariant
            i <= rows@.len(),
            s == models(rows@),
            p == (|m: T::V| test.holds(m)),
            first(s, p) == first_from(s, p, i as int),
            first(s, p) is Some <==> any(s, p),
        decreases rows@.len() - i,
    {
        if test.check(&rows[i]) {
            assert(p(s[i as int]));
            return Some(i);
        }
        i += 1;
    }
    None
}

/// A copy of the first row that the test holds of.
pub fn find_row<T: Row, C: Test<T>>(rows: &Vec<T>, test: &C) -> (r: Option<T>)
    ensures
        crate::model::opt_model(r) == lookup(models(rows@), |m: T::V| test.holds(m)),
{
    match position(rows, test) {
        Some(i) => Some(rows[i].duplicate()),
        None => None,
    }
}

/// Some row passes the test.
pub fn any_row<T: View, C: Test<T>>(rows: &Vec<T>, test: &C) -> (r: bool)
    ensures
        r == any(models(rows@), |m: T::V| test.holds(m)),
{
    position(rows, test).is_some()
}

/// The number of rows that pass the test.
pub fn count_rows<T: View, C: Test<T>>(rows: &Vec<T>, test: &C) -> (n: usize)
    ensures
        n == count(models(rows@), |m: T::V| test.holds(m)),
{
    let ghost s = models(rows@);
    let ghost p = |m: T::V| test.holds(m);
    let mut n: usize = 0;
    let mut i: usize = 0;
    assert(s.take(0).filter(p).len() == 0) by {
        reveal(Seq::filter);
    }
    while i < rows.len()
        invariant
            i <= rows@.len(),
            s == models(rows@),
            p == (|m: T::V| test.holds(m)),
            n == count(s.take(i as int), p),
            n <= i,
        decreases rows@.len() - i,
    {
        assert(s.take(i as int + 1).drop_last() =~= s.take(i as int));
        assert(s.take(i as int + 1).last() == s[i as int]);
        assert(count(s.take(i as int + 1), p) == n + if p(s[i as int]) {
            1nat
        } else {
            0nat
        }) by {
            reveal(Seq::filter);
        }
        if test.check(&rows[i]) {
            n += 1;
        }
        i += 1;
    }
    assert(s.take(i as int) =~= s);
    n
}

/// Copies of the rows that pass the test, in the order of the table.
pub fn select<T: Row, C: Test<T>>(rows: &Vec<T>, test: &C) -> (r: Vec<T>)
    ensures
        models(r@) == models(rows@).filter(|m: T::V| test.holds(m)),
{
    let ghost s = models(rows@);
    let ghost p = |m: T::V| test.holds(m);
    let mut r: Vec<T> = Vec::new();
    let mut i: usize = 0;
    assert(s.take(0).filter(p).len() == 0) by {
        reveal(Seq::filter);
    }
    assert(models(r@) =~= s.take(0).filter(p));
    while i < rows.len()
        invariant
            i <= rows@.len(),
            s == models(rows@),
            p == (|m: T::V| test.holds(m)),
            models(r@) == s.take(i as int).filter(p),
        decreases rows@.len() - i,
    {
        assert(s.take(i as int + 1).drop_last() =~= s.take(i as int));
        assert(s.take(i as int + 1).last() == s[i as int]);
        assert(s.take(i as int + 1).filter(p) == if p(s[i as int]) {
            s.take(i as int).filter(p).push(s[i as int])
        } else {
            s.take(i as int).filter(p)
        }) by {
            reveal(Seq::filter);
        }
        if test.check(&rows[i]) {
            let ghost before = r@;
            r.push(rows[i].duplicate());
            assert(models(r@) =~= models(before).push(s[i as int]));
        }
        i += 1;
    }
    assert(s.take(i as int) =~= s);
    r
}

/// Copies of all rows.
pub fn copy_rows<T: Row>(rows: &Vec<T>) -> (r: Vec<T>)
    ensures
        models(r@) == models(rows@),
{
    let mut r: Vec<T> = Vec::new();
    let mut i: usize = 0;
    while i < rows.len()
        invariant
            i <= rows@.len(),
            models(r@) == models(rows@).take(i as int),
        decreases rows@.len() - i,
    {
        let ghost before = r@;
        r.push(rows[i].duplicate());
        i += 1;
        assert(models(r@) =~= models(before).push(models(rows@)[i as int - 1]));
        assert(models(rows@).take(i as int) =~= models(rows@).take(i as int - 1).push(
            models(rows@)[i as int - 1],
        ));
    }
    assert(models(rows@).take(i as int) =~= models(rows@));
    r
}

/// The position of the row to choose.
pub fn choose_row<T: View, C: Choice<T>>(rows: &Vec<T>, rule: &C) -> (r: Option<usize>)
    ensures
        match r {
            Some(i) => best(
                models(rows@),
                |m: T::V| rule.holds(m),
                |a: T::V, b: T::V| rule.precedes(a, b),
            ) == Some(i as int) && i < rows@.len() && rule.holds(rows@[i as int]@),
            None => best(
                models(rows@),
                |m: T::V| rule.holds(m),
                |a: T::V, b: T::V| rule.precedes(a, b),
            ) is None,
        },
{
    let ghost s = models(rows@);
    let ghost p = |m: T::V| rule.holds(m);
    let ghost before = |a: T::V, b: T::V| rule.precedes(a, b);
    let mut found: Option<usize> = None;
    let mut i: usize = 0;
    while i < rows.len()
        invariant
            i <= rows@.len(),
            s == models(rows@),
            p == (|m: T::V| rule.holds(m)),
            before == (|a: T::V, b: T::V| rule.precedes(a, b)),
            match found {
                Some(k) => k < i && best(s.take(i as int), p, before) == Some(k as int)
                    && rule.holds(s[k as int]),
                None => best(s.take(i as int), p, before) is None,
            },
        decreases rows@.len() - i,
    {
        assert(s.take(i as int + 1).drop_last() =~= s.take(i as int));
        if rule.check(&rows[i]) {
            match found {
                None => {
                    found = Some(i);
                },
                Some(k) => {
                    if !rule.is_before(&rows[k], &rows[i]) {
                        found = Some(i);
                    }
                },
            }
        }
        i += 1;
    }
    assert(s.take(i as int) =~= s);
    found
}

/// The first `limit` rows.
pub fn limited<T: View>(rows: Vec<T>, limit: usize) -> (r: Vec<T>)
    ensures
        models(r@) == if limit < rows@.len() {
            models(rows@).take(limit as int)
        } else {
            models(rows@)
        },
{
    let mut r = rows;
    while r.len() > limit
        invariant
            r@.len() <= rows@.len(),
            r@ == rows@.take(r@.len() as int),
            limit < rows@.len() ==> limit <= r@.len(),
            limit >= rows@.len() ==> r@.len() == rows@.len(),
        decreases r@.len(),
    {
        let ghost before = r@;
        let gone = r.pop();
        assert(r@ =~= rows@.take(r@.len() as int));
    }
    assert(models(r@) =~= models(rows@).take(r@.len() as int));
    assert(models(rows@).take(rows@.len() as int) =~= models(rows@));
    r
}

} // verus!
