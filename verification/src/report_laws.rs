//! What reports count, rank and mark.

use crate::graph::{NodeView, OpCode};
use crate::number::Real;
use crate::reports::{quickest, right_options, slowest, weight_mark};
use crate::run_model::OptionStats;
use crate::stats_report::{branch_mark, hot_nodes, hotter_first, is_branch, leans, tally};
use vstd::prelude::*;

verus! {

proof fn right_ones_are_listed(s: Seq<OptionStats>, n: int, k: int)
    requires
        0 <= n <= s.len(),
        s.len() <= usize::MAX,
        0 <= k < n,
    ensures
        right_options(s, n).contains(k as usize) <==> s[k].tries > 0 && s[k].correct == s[k].tries,
    decreases n,
{
    let r = right_options(s, n);
    let front = right_options(s, n - 1);
    if k < n - 1 {
        right_ones_are_listed(s, n - 1, k);
        if front.contains(k as usize) {
            let i = choose|i: int| 0 <= i < front.len() && front[i] == k as usize;
            assert(r[i] == k as usize);
        }
        if r.contains(k as usize) {
            let i = choose|i: int| 0 <= i < r.len() && r[i] == k as usize;
            if i < front.len() {
                assert(front[i] == k as usize);
            }
        }
    } else {
        small_ones_are_listed(s, n - 1);
        if s[k].tries > 0 && s[k].correct == s[k].tries {
            assert(r[r.len() - 1] == k as usize);
        } else if r.contains(k as usize) {
            let i = choose|i: int| 0 <= i < r.len() && r[i] == k as usize;
            assert(front[i] < n - 1);
        }
    }
}

proof fn small_ones_are_listed(s: Seq<OptionStats>, n: int)
    requires
        0 <= n <= s.len(),
        s.len() <= usize::MAX,
    ensures
        forall|i: int| 0 <= i < right_options(s, n).len() ==> #[trigger] right_options(s, n)[i] < n,
    decreases n,
{
    if n > 0 {
        small_ones_are_listed(s, n - 1);
        let r = right_options(s, n);
        let front = right_options(s, n - 1);
        assert forall|i: int| 0 <= i < r.len() implies #[trigger] r[i] < n by {
            if i < front.len() {
                assert(r[i] == front[i]);
            }
        }
    }
}

/// The options that count for a verdict are those that were tried and were right each
/// time.
pub proof fn verdicts_count_right_options(s: Seq<OptionStats>, k: int)
    requires
        s.len() <= usize::MAX,
        0 <= k < s.len(),
    ensures
        right_options(s, s.len() as int).contains(k as usize) <==> s[k].tries > 0 && s[k].correct
            == s[k].tries,
{
    right_ones_are_listed(s, s.len() as int, k);
}

/// The slowest of some options is one of them, and none of them takes longer; the
/// quickest likewise.
pub proof fn extremes_are_extreme(list: Seq<usize>, times: Seq<Real>)
    requires
        list.len() > 0,
        forall|i: int| 0 <= i < list.len() ==> #[trigger] list[i] < times.len(),
        forall|i: int| 0 <= i < times.len() ==> !(#[trigger] times[i]).spec_is_nan(),
    ensures
        list.contains(slowest(list, times)),
        list.contains(quickest(list, times)),
        forall|i: int|
            0 <= i < list.len() ==> !times[slowest(list, times) as int].below(
                times[(#[trigger] list[i]) as int],
            ),
        forall|i: int|
            0 <= i < list.len() ==> !times[(#[trigger] list[i]) as int].below(
                times[quickest(list, times) as int],
            ),
    decreases list.len(),
{
    let n = list.len() as int;
    if n == 1 {
        assert(list[0] == slowest(list, times));
        assert(list[0] == quickest(list, times));
        assert(!times[list[0] as int].spec_is_nan());
    } else {
        let front = list.drop_last();
        assert forall|i: int| 0 <= i < front.len() implies #[trigger] front[i] < times.len() by {
            assert(front[i] == list[i]);
        }
        extremes_are_extreme(front, times);
        let a = slowest(front, times);
        let b = quickest(front, times);
        let i = choose|i: int| 0 <= i < front.len() && front[i] == a;
        let j = choose|j: int| 0 <= j < front.len() && front[j] == b;
        assert(list[i] == a && list[j] == b);
        assert(list[n - 1] == list.last());
        assert(!times[a as int].spec_is_nan() && !times[b as int].spec_is_nan());
        assert(!times[list[n - 1] as int].spec_is_nan());
        assert forall|k: int| 0 <= k < n implies !times[slowest(list, times) as int].below(
            times[(#[trigger] list[k]) as int],
        ) && !times[list[k] as int].below(times[quickest(list, times) as int]) by {
            assert(!times[list[k] as int].spec_is_nan());
            if k < n - 1 {
                assert(front[k] == list[k]);
            }
        }
    }
}

/// What is counted of nodes: those that still do something, those that have a hint,
/// those that choose, and among these those that lean to one side.
pub proof fn tallies_count_nodes(s: Seq<NodeView>, n: int)
    requires
        0 <= n <= s.len(),
    ensures
        ({
            let c = tally(s, n);
            let all = s.take(n);
            &&& c.live == all.filter(|x: NodeView| x.op != OpCode::Noop).len()
            &&& c.hinted == all.filter(
                |x: NodeView| !x.bias.same_value(Real { bits: 0 }),
            ).len()
            &&& c.branches == all.filter(
                |x: NodeView|
                    x.op == OpCode::Branch || x.op == OpCode::AdaptiveChoice || x.op
                        == OpCode::Strategy,
            ).len()
            &&& c.leaning == all.filter(|x: NodeView| is_branch(x.op) && leans(x.weights)).len()
        }),
    decreases n,
{
    let all = s.take(n);
    reveal(Seq::filter);
    if n > 0 {
        tallies_count_nodes(s, n - 1);
        assert(all.drop_last() =~= s.take(n - 1));
        assert(all.last() == s[n - 1]);
    } else {
        assert(all.len() == 0);
    }
}

/// The most that a node fired: none fired more often, and one fired so often unless
/// none fired at all.
pub proof fn the_most_is_the_most(s: Seq<NodeView>, n: int)
    requires
        0 <= n <= s.len(),
    ensures
        forall|i: int| 0 <= i < n ==> (#[trigger] s[i]).activation_count <= tally(s, n).most,
        tally(s, n).most == 0 || exists|i: int|
            0 <= i < n && (#[trigger] s[i]).activation_count == tally(s, n).most,
        tally(s, n).most <= tally(s, n).fired,
        n > 0 ==> tally(s, n).fired - tally(s, n - 1).fired == s[n - 1].activation_count,
        n == 0 ==> tally(s, n).fired == 0,
    decreases n,
{
    if n > 0 {
        the_most_is_the_most(s, n - 1);
        fired_is_no_less(s, n - 1);
        let before = tally(s, n - 1).most;
        if before != 0 && s[n - 1].activation_count <= before {
            let i = choose|i: int| 0 <= i < n - 1 && (#[trigger] s[i]).activation_count == before;
            assert(s[i].activation_count == tally(s, n).most);
        } else if s[n - 1].activation_count > before {
            assert(s[n - 1].activation_count == tally(s, n).most);
        }
    }
}

proof fn fired_is_no_less(s: Seq<NodeView>, n: int)
    ensures
        tally(s, n).fired >= 0,
    decreases n,
{
    if n > 0 {
        fired_is_no_less(s, n - 1);
    }
}

/// Nodes are ranked by how often they fired, most often first.
pub open spec fn ranked(s: Seq<NodeView>, v: Seq<usize>) -> bool {
    forall|i: int, j: int|
        0 <= i <= j < v.len() ==> s[(#[trigger] v[i]) as int].activation_count >= s[(
        #[trigger] v[j]) as int].activation_count
}

proof fn hotter_are_ranked(s: Seq<NodeView>, v: Seq<usize>, x: usize)
    requires
        ranked(s, v),
    ensures
        ranked(s, hotter_first(s, v, x)),
        hotter_first(s, v, x).to_multiset() == v.to_multiset().insert(x),
        hotter_first(s, v, x).len() == v.len() + 1,
        v.len() > 0 ==> hotter_first(s, v, x).last() == v.last() || hotter_first(s, v, x).last()
            == x,
    decreases v.len(),
{
    broadcast use vstd::seq_lib::group_to_multiset_ensures;

    if v.len() == 0 || s[v.last() as int].activation_count >= s[x as int].activation_count {
        let r = v.push(x);
        assert forall|i: int, j: int| 0 <= i <= j < r.len() implies s[(
        #[trigger] r[i]) as int].activation_count >= s[(#[trigger] r[j]) as int].activation_count by {
            if j < v.len() {
                assert(r[i] == v[i] && r[j] == v[j]);
            } else if i < v.len() {
                assert(r[i] == v[i]);
                assert(v[v.len() - 1] == v.last());
                assert(s[v[i] as int].activation_count >= s[v[v.len() - 1] as int].activation_count);
            }
        }
    } else {
        let front = v.drop_last();
        let last = v.last();
        assert(ranked(s, front)) by {
            assert forall|i: int, j: int| 0 <= i <= j < front.len() implies s[(
            #[trigger] front[i]) as int].activation_count >= s[(
            #[trigger] front[j]) as int].activation_count by {
                assert(front[i] == v[i] && front[j] == v[j]);
            }
        }
        hotter_are_ranked(s, front, x);
        let h = hotter_first(s, front, x);
        let r = h.push(last);
        assert(front.push(last) =~= v);
        assert(r.to_multiset() =~= v.to_multiset().insert(x));
        assert forall|i: int, j: int| 0 <= i <= j < r.len() implies s[(
        #[trigger] r[i]) as int].activation_count >= s[(#[trigger] r[j]) as int].activation_count by {
            if j < h.len() {
                assert(r[i] == h[i] && r[j] == h[j]);
            } else if i < h.len() {
                assert(r[i] == h[i]);
                assert(s[h[i] as int].activation_count >= s[h[h.len() - 1] as int].activation_count);
                if front.len() > 0 {
                    assert(v[front.len() - 1] == front.last());
                    assert(v[v.len() - 1] == last);
                    assert(s[front.last() as int].activation_count
                        >= s[last as int].activation_count);
                } else {
                    assert(h =~= seq![x]);
                }
            }
        }
    }
}

/// The hot nodes are those that still do something and fired, the hottest first.
pub proof fn hot_nodes_are_ranked(s: Seq<NodeView>, n: int)
    requires
        0 <= n <= s.len(),
        s.len() <= usize::MAX,
    ensures
        ranked(s, hot_nodes(s, n)),
        forall|k: int|
            0 <= k < n ==> hot_nodes(s, n).to_multiset().count(k as usize) == (if (
            #[trigger] s[k]).op != OpCode::Noop && s[k].activation_count > 0 {
                1nat
            } else {
                0nat
            }),
        forall|x: usize| x >= n ==> #[trigger] hot_nodes(s, n).to_multiset().count(x) == 0,
    decreases n,
{
    broadcast use vstd::seq_lib::group_to_multiset_ensures;

    if n > 0 {
        hot_nodes_are_ranked(s, n - 1);
        hotter_are_ranked(s, hot_nodes(s, n - 1), (n - 1) as usize);
        assert forall|k: int| 0 <= k < n implies hot_nodes(s, n).to_multiset().count(k as usize)
            == (if (#[trigger] s[k]).op != OpCode::Noop && s[k].activation_count > 0 {
            1nat
        } else {
            0nat
        }) by {
            if k == n - 1 {
                assert(hot_nodes(s, n - 1).to_multiset().count(k as usize) == 0);
            }
        }
    }
}

/// A weight above nine tenths wins and one above seven tenths leads; a branch has
/// converged above 0.95 and learns above eight tenths.
pub proof fn marks_go_by_weight(w: Real, all: Seq<Real>)
    ensures
        weight_mark(w) == " <- WINNER\n"@ <==> (Real { bits: 0x3FEC_CCCC_CCCC_CCCD }).below(w),
        !(Real { bits: 0x3FEC_CCCC_CCCC_CCCD }).below(w) ==> (weight_mark(w) == " <- leading\n"@
            <==> (Real { bits: 0x3FE6_6666_6666_6666 }).below(w)),
        branch_mark(all) == "] <- CONVERGED\n"@ <==> exists|i: int|
            0 <= i < all.len() && (Real { bits: 0x3FEE_6666_6666_6666 }).below(#[trigger] all[i]),
        branch_mark(all) == "]\n"@ <==> forall|i: int|
            0 <= i < all.len() ==> !(Real { bits: 0x3FE9_9999_9999_999A }).below(#[trigger] all[i])
                && !(Real { bits: 0x3FEE_6666_6666_6666 }).below(all[i]),
{
    reveal_strlit(" <- WINNER\n");
    reveal_strlit(" <- leading\n");
    reveal_strlit("\n");
    reveal_strlit("] <- CONVERGED\n");
    reveal_strlit("] <- learning\n");
    reveal_strlit("]\n");
    assert(" <- WINNER\n"@.len() == 11);
    assert(" <- leading\n"@.len() == 12);
    assert("\n"@.len() == 1);
    assert("] <- CONVERGED\n"@.len() == 15);
    assert("] <- learning\n"@.len() == 14);
    assert("]\n"@.len() == 2);
}

} // verus!
