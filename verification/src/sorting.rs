//! Stable sorting by a real key.
use crate::number::Real;
use vstd::multiset::Multiset;
use vstd::prelude::*;

verus! {

/// `x` put behind every item whose key is no larger.
pub open spec fn placed<T>(s: Seq<(Real, T)>, x: (Real, T)) -> Seq<(Real, T)>
    decreases s.len(),
{
    if s.len() == 0 || !x.0.below(s.last().0) {
        s.push(x)
    } else {
        placed(s.drop_last(), x).push(s.last())
    }
}

/// The items by growing key; those of equal keys keep their order.
pub open spec fn by_key<T>(s: Seq<(Real, T)>) -> Seq<(Real, T)>
    decreases s.len(),
{
    if s.len() == 0 {
        s
    } else {
        placed(by_key(s.drop_last()), s.last())
    }
}

/// No key is below one that stands before it.
pub open spec fn ascending<T>(s: Seq<(Real, T)>) -> bool {
    forall|i: int, j: int|
        0 <= i < j < s.len() ==> !(#[trigger] s[j]).0.below((#[trigger] s[i]).0)
}

pub open spec fn no_nan<T>(s: Seq<(Real, T)>) -> bool {
    forall|i: int| 0 <= i < s.len() ==> !(#[trigger] s[i]).0.spec_is_nan()
}

proof fn placed_is_ascending<T>(s: Seq<(Real, T)>, x: (Real, T))
    requires
        ascending(s),
        no_nan(s),
        !x.0.spec_is_nan(),
    ensures
        ascending(placed(s, x)),
        no_nan(placed(s, x)),
        placed(s, x).len() == s.len() + 1,
        forall|b: Real|
            !b.spec_is_nan() && !b.below(x.0) && (forall|i: int|
                0 <= i < s.len() ==> !b.below((#[trigger] s[i]).0)) ==> forall|i: int|
                0 <= i < placed(s, x).len() ==> !b.below((#[trigger] placed(s, x)[i]).0),
        placed(s, x).to_multiset() =~= s.to_multiset().insert(x),
    decreases s.len(),
{
    broadcast use vstd::seq_lib::group_to_multiset_ensures;

    let r = placed(s, x);
    if s.len() == 0 || !x.0.below(s.last().0) {
        assert forall|i: int, j: int| 0 <= i < j < r.len() implies !(#[trigger] r[j]).0.below(
            (#[trigger] r[i]).0,
        ) by {
            if j == s.len() {
                assert(!s[s.len() - 1].0.spec_is_nan());
                if i < s.len() - 1 {
                    assert(!s[s.len() - 1].0.below(s[i].0));
                }
            }
        }
    } else {
        let front = s.drop_last();
        assert(ascending(front)) by {
            assert forall|i: int, j: int| 0 <= i < j < front.len() implies !(
            #[trigger] front[j]).0.below((#[trigger] front[i]).0) by {
                assert(!s[j].0.below(s[i].0));
            }
        }
        assert(no_nan(front)) by {
            assert forall|i: int| 0 <= i < front.len() implies !(
            #[trigger] front[i]).0.spec_is_nan() by {
                assert(!s[i].0.spec_is_nan());
            }
        }
        placed_is_ascending(front, x);
        let p = placed(front, x);
        let last = s[s.len() - 1];
        assert(forall|i: int| 0 <= i < front.len() ==> !last.0.below((#[trigger] front[i]).0)) by {
            assert forall|i: int| 0 <= i < front.len() implies !last.0.below(
                (#[trigger] front[i]).0,
            ) by {
                assert(!s[s.len() - 1].0.below(s[i].0));
            }
        }
        assert(forall|i: int| 0 <= i < p.len() ==> !last.0.below((#[trigger] p[i]).0));
        assert forall|i: int, j: int| 0 <= i < j < r.len() implies !(#[trigger] r[j]).0.below(
            (#[trigger] r[i]).0,
        ) by {
            if j < p.len() {
                assert(!p[j].0.below(p[i].0));
            } else {
                assert(!last.0.below(p[i].0));
            }
        }
        assert forall|i: int| 0 <= i < r.len() implies !(#[trigger] r[i]).0.spec_is_nan() by {
            if i < p.len() {
                assert(!p[i].0.spec_is_nan());
            }
        }
        assert forall|b: Real|
            !b.spec_is_nan() && !b.below(x.0) && (forall|i: int|
                0 <= i < s.len() ==> !b.below((#[trigger] s[i]).0)) implies forall|i: int|
            0 <= i < r.len() ==> !b.below((#[trigger] r[i]).0) by {
            assert forall|i: int| 0 <= i < front.len() implies !b.below((#[trigger] front[i]).0) by {
                assert(!b.below(s[i].0));
            }
            assert(forall|i: int| 0 <= i < p.len() ==> !b.below((#[trigger] p[i]).0));
            assert forall|i: int| 0 <= i < r.len() implies !b.below((#[trigger] r[i]).0) by {
                if i < p.len() {
                    assert(!b.below(p[i].0));
                } else {
                    assert(!b.below(s[s.len() - 1].0));
                }
            }
        }
        assert(front.push(last) =~= s);
        assert(r =~= p.push(last));
        assert(r.to_multiset() =~= s.to_multiset().insert(x));
    }
}

/// Sorting orders the items by key and neither loses nor adds any.
pub proof fn sorting_orders<T>(s: Seq<(Real, T)>)
    requires
        no_nan(s),
    ensures
        ascending(by_key(s)),
        no_nan(by_key(s)),
        by_key(s).len() == s.len(),
        by_key(s).to_multiset() == s.to_multiset(),
    decreases s.len(),
{
    broadcast use vstd::seq_lib::group_to_multiset_ensures;

    if s.len() > 0 {
        let front = s.drop_last();
        assert forall|i: int| 0 <= i < front.len() implies !(
        #[trigger] front[i]).0.spec_is_nan() by {
            assert(!s[i].0.spec_is_nan());
        }
        sorting_orders(front);
        assert(!s[s.len() - 1].0.spec_is_nan());
        placed_is_ascending(by_key(front), s.last());
        assert(front.push(s.last()) =~= s);
    }
}

proof fn placed_splits<T>(s: Seq<(Real, T)>, x: (Real, T), at: int)
    requires
        0 <= at <= s.len(),
        forall|k: int| at <= k < s.len() ==> x.0.below((#[trigger] s[k]).0),
        at == 0 || !x.0.below(s[at - 1].0),
    ensures
        placed(s, x) == s.take(at).push(x) + s.skip(at),
        placed(s, x) == s.insert(at, x),
    decreases s.len(),
{
    if at == s.len() {
        assert(s.take(at).push(x) + s.skip(at) =~= s.push(x));
        assert(s.insert(at, x) =~= s.push(x));
    } else {
        let front = s.drop_last();
        assert(x.0.below(s[s.len() - 1].0));
        assert forall|k: int| at <= k < front.len() implies x.0.below((#[trigger] front[k]).0) by {
            assert(front[k] == s[k]);
        }
        placed_splits(front, x, at);
        assert(placed(s, x) =~= s.take(at).push(x) + s.skip(at));
        assert(s.insert(at, x) =~= s.take(at).push(x) + s.skip(at));
    }
}

/// Sorts the items by growing key; those of equal keys keep their order.
pub fn sort_by_key<T>(v: Vec<(Real, T)>) -> (r: Vec<(Real, T)>)
    ensures
        r@ == by_key(v@),
        r@.len() == v@.len(),
{
    let ghost all = v@;
    let mut left = crate::json_text::reversed(v);
    let mut r: Vec<(Real, T)> = Vec::new();
    assert(all.take(0) == Seq::<(Real, T)>::empty());
    while left.len() > 0
        invariant
            left@.len() + r@.len() == all.len(),
            forall|k: int| 0 <= k < left@.len() ==> left@[k] == all[all.len() - 1 - k],
            r@ == by_key(all.take(all.len() - left@.len())),
        decreases left@.len(),
    {
        let ghost n = all.len() - left@.len();
        if let Some(x) = left.pop() {
            proof {
                assert(x == all[n]);
                assert(all.take(n + 1).drop_last() == all.take(n));
            }
            let mut at: usize = r.len();
            while at > 0 && x.0.lt(r[at - 1].0)
                invariant
                    at <= r.len(),
                    forall|k: int| at <= k < r@.len() ==> x.0.below((#[trigger] r@[k]).0),
                decreases at,
            {
                at = at - 1;
            }
            proof {
                placed_splits(r@, x, at as int);
            }
            r.insert(at, x);
        }
    }
    assert(all.take(all.len() as int) == all);
    r
}

} // verus!
