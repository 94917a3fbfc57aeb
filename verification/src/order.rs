//! Sorting by insertion, stated over the models of the sorted items.

use vstd::prelude::*;
use crate::text;

verus! {

/// The models of a list of items.
pub open spec fn models<T: View>(v: Seq<T>) -> Seq<T::V> {
    v.map_values(|x: T| x@)
}

/// Types whose lists have an order.
pub trait Ranked: View + Sized {
    /// `a` may stand before `b` in a sorted list.
    spec fn at_most(a: Self::V, b: Self::V) -> bool;

    proof fn total(a: Self::V, b: Self::V)
        ensures
            Self::at_most(a, b) || Self::at_most(b, a),
    ;

    proof fn transitive(a: Self::V, b: Self::V, c: Self::V)
        requires
            Self::at_most(a, b),
            Self::at_most(b, c),
        ensures
            Self::at_most(a, c),
    ;

    fn is_at_most(&self, other: &Self) -> (r: bool)
        ensures
            r == Self::at_most(self@, other@),
    ;
}

/// The number of leading items of `s` that are at most `x`.
pub open spec fn place<T: Ranked>(s: Seq<T::V>, x: T::V) -> nat
    decreases s.len(),
{
    if s.len() == 0 {
        0
    } else if T::at_most(s.last(), x) {
        s.len()
    } else {
        place::<T>(s.drop_last(), x)
    }
}

/// `s` sorted. Items of equal rank keep their order.
pub open spec fn sorted<T: Ranked>(s: Seq<T::V>) -> Seq<T::V>
    decreases s.len(),
{
    if s.len() == 0 {
        s
    } else {
        let rest = sorted::<T>(s.drop_last());
        rest.insert(place::<T>(rest, s.last()) as int, s.last())
    }
}

pub open spec fn in_order<T: Ranked>(s: Seq<T::V>) -> bool {
    forall|i: int, j: int| #![trigger s[i], s[j]] 0 <= i < j < s.len() ==> T::at_most(s[i], s[j])
}

pub proof fn place_in_range<T: Ranked>(s: Seq<T::V>, x: T::V)
    ensures
        place::<T>(s, x) <= s.len(),
    decreases s.len(),
{
    if s.len() > 0 && !T::at_most(s.last(), x) {
        place_in_range::<T>(s.drop_last(), x);
    }
}

proof fn place_splits<T: Ranked>(s: Seq<T::V>, x: T::V)
    requires
        in_order::<T>(s),
    ensures
        place::<T>(s, x) <= s.len(),
        forall|i: int| 0 <= i < place::<T>(s, x) ==> T::at_most(#[trigger] s[i], x),
        forall|i: int| place::<T>(s, x) <= i < s.len() ==> T::at_most(x, #[trigger] s[i]),
    decreases s.len(),
{
    if s.len() > 0 {
        if T::at_most(s.last(), x) {
            assert forall|i: int| 0 <= i < s.len() implies T::at_most(#[trigger] s[i], x) by {
                if i < s.len() - 1 {
                    assert(T::at_most(s[i], s[s.len() - 1]));
                    T::transitive(s[i], s.last(), x);
                }
            }
        } else {
            T::total(s.last(), x);
            let rest = s.drop_last();
            assert forall|i: int, j: int|
                #![trigger rest[i], rest[j]]
                0 <= i < j < rest.len() implies T::at_most(rest[i], rest[j]) by {
                assert(T::at_most(s[i], s[j]));
            }
            place_splits::<T>(rest, x);
            assert forall|i: int| 0 <= i < place::<T>(s, x) implies T::at_most(
                #[trigger] s[i],
                x,
            ) by {
                assert(s[i] == rest[i]);
            }
            assert forall|i: int| place::<T>(s, x) <= i < s.len() implies T::at_most(
                x,
                #[trigger] s[i],
            ) by {
                if i < rest.len() {
                    assert(s[i] == rest[i]);
                }
            }
        }
    }
}

/// Sorting gives a sequence in order, with the same items.
pub proof fn sorted_is_sorted<T: Ranked>(s: Seq<T::V>)
    ensures
        in_order::<T>(sorted::<T>(s)),
        sorted::<T>(s).to_multiset() == s.to_multiset(),
        sorted::<T>(s).len() == s.len(),
    decreases s.len(),
{
    broadcast use vstd::seq_lib::group_to_multiset_ensures;

    if s.len() > 0 {
        let front = s.drop_last();
        let x = s.last();
        sorted_is_sorted::<T>(front);
        let rest = sorted::<T>(front);
        place_splits::<T>(rest, x);
        let k = place::<T>(rest, x) as int;
        let all = rest.insert(k, x);
        assert forall|i: int, j: int|
            #![trigger all[i], all[j]]
            0 <= i < j < all.len() implies T::at_most(all[i], all[j]) by {
            let a = if i < k {
                i
            } else {
                i - 1
            };
            let b = if j < k {
                j
            } else {
                j - 1
            };
            if i == k {
                assert(all[j] == rest[b]);
            } else if j == k {
                assert(all[i] == rest[a]);
            } else {
                assert(all[i] == rest[a]);
                assert(all[j] == rest[b]);
                assert(T::at_most(rest[a], rest[b]));
            }
        }
        vstd::seq_lib::to_multiset_insert(rest, k, x);
        assert(s =~= front.push(x));
        assert(all.to_multiset() =~= s.to_multiset());
    }
}

/// Sorts by insertion.
pub fn sort<T: Ranked>(v: Vec<T>) -> (r: Vec<T>)
    ensures
        models(r@) == sorted::<T>(models(v@)),
{
    let mut r: Vec<T> = Vec::new();
    let mut rest: Vec<T> = v;
    let mut reversed: Vec<T> = Vec::new();
    while rest.len() > 0
        invariant
            rest@ + reversed@.reverse() == v@,
        decreases rest@.len(),
    {
        let ghost before = rest@;
        let ghost turned = reversed@;
        let x = rest.pop().unwrap();
        reversed.push(x);
        assert(before + turned.reverse() =~= rest@ + reversed@.reverse());
    }
    assert(rest@ + reversed@.reverse() =~= reversed@.reverse());
    let ghost all = models(v@);
    assert(models(r@) =~= sorted::<T>(all.take(0)));
    while reversed.len() > 0
        invariant
            all == models(v@),
            r@.len() + reversed@.len() == all.len(),
            models(r@) == sorted::<T>(all.take(r@.len() as int)),
            reversed@ == v@.skip(r@.len() as int).reverse(),
        decreases reversed@.len(),
    {
        let ghost done = r@;
        let ghost n = r@.len() as int;
        let ghost before = reversed@;
        let x = reversed.pop().unwrap();
        assert(x == v@[n]) by {
            assert(before.last() == v@.skip(n)[0]);
        }
        assert(reversed@ =~= v@.skip(n + 1).reverse());
        let ghost m = models(done);
        let mut k: usize = r.len();
        assert(m.take(k as int) =~= m);
        while k > 0 && !r[k - 1].is_at_most(&x)
            invariant
                k <= r@.len(),
                r@ == done,
                m == models(done),
                place::<T>(m, x@) == place::<T>(m.take(k as int), x@),
            decreases k,
        {
            assert(m.take(k as int).drop_last() =~= m.take(k as int - 1));
            assert(m.take(k as int).last() == r@[k as int - 1]@);
            k -= 1;
        }
        if k > 0 {
            assert(m.take(k as int).last() == r@[k as int - 1]@);
        }
        assert(place::<T>(m, x@) == k);
        assert(all.take(n + 1).drop_last() =~= all.take(n));
        assert(all.take(n + 1).last() == x@);
        r.insert(k, x);
        assert(models(r@) =~= m.insert(k as int, x@));
    }
    assert(all.take(r@.len() as int) =~= all);
    r
}

impl Ranked for String {
    open spec fn at_most(a: Seq<char>, b: Seq<char>) -> bool {
        text::text_le(a, b)
    }

    proof fn total(a: Seq<char>, b: Seq<char>) {
        text::text_le_total(a, b);
    }

    proof fn transitive(a: Seq<char>, b: Seq<char>, c: Seq<char>) {
        text::text_le_transitive(a, b, c);
    }

    fn is_at_most(&self, other: &Self) -> (r: bool) {
        text::str_le(self.as_str(), other.as_str())
    }
}

} // verus!
