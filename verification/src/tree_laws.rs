//! What holds of trees of decisions and of the feedback along their paths.

use crate::hierarchical::{LevelReward, RewardKind, RewardPropagation, Tree, Twig, depth, depth_of, larger, leaf_at, leaves, leaves_of, level_fault, level_reward, name_taken, options_fault, tree_fault};
use crate::hierarchical_state::{HierView, LevelNumbers, credited, fresh_hier, level_after, nudged};
use crate::meta_bandit::{BanditView, CandidateId, CandidateRecord, record_of};
use crate::number::{ONE, Real};
use crate::parse::trimmed;
use vstd::prelude::*;

verus! {

/// The decision that leads to the leaf has the full reward. Discounted, each level
/// above has one more factor; otherwise every level has the full reward.
pub proof fn rewards_fade_towards_the_root(
    p: Option<RewardPropagation>,
    reward: Real,
    i: int,
    n: int,
)
    requires
        0 <= i < n <= usize::MAX,
    ensures
        !(p matches Some(RewardPropagation::Discounted { .. })) ==> level_reward(p, reward, i, n)
            == LevelReward::Known(reward),
        p matches Some(RewardPropagation::Discounted { factor }) ==> {
            &&& level_reward(p, reward, n - 1, n) == (LevelReward::Discounted {
                reward,
                factor,
                power: 0,
            })
            &&& i + 1 < n ==> level_reward(p, reward, i, n) is Discounted && level_reward(
                p,
                reward,
                i,
                n,
            )->power == level_reward(p, reward, i + 1, n)->power + 1
        },
{
}

/// A path goes through the option that its first step names.
pub proof fn paths_go_step_by_step(t: Tree, i: usize, rest: Seq<usize>)
    ensures
        i >= t.options.len() ==> leaf_at(t, seq![i] + rest) is None,
        i < t.options.len() ==> match t.options[i as int] {
            Twig::Leaf(name) => leaf_at(t, seq![i]) == Some(name) && (rest.len() > 0 ==> leaf_at(
                t,
                seq![i] + rest,
            ) is None),
            Twig::Branch(_, sub) => leaf_at(t, seq![i] + rest) == leaf_at(*sub, rest),
        },
        leaf_at(t, Seq::empty()) is None,
{
    assert((seq![i] + rest).drop_first() =~= rest);
    assert((seq![i] + rest)[0] == i);
}

/// What the first `n` options of a level have to keep to: names that are not blank,
/// each given once, and sound decisions below.
pub open spec fn options_keep(s: Seq<Twig>, n: int, d: int) -> bool {
    &&& forall|i: int| 0 <= i < n ==> trimmed((#[trigger] s[i]).name()).len() > 0
    &&& forall|i: int, j: int|
        0 <= i < j < n ==> (#[trigger] s[i]).name() != (#[trigger] s[j]).name()
    &&& forall|i: int|
        0 <= i < n ==> ((#[trigger] s[i]).sub() is Some ==> level_fault(
            s[i].sub()->Some_0,
            d + 1,
        ) is None)
}

proof fn options_are_sound(s: Seq<Twig>, n: nat, d: int)
    requires
        n <= s.len(),
    ensures
        options_fault(s, n, d) is None <==> options_keep(s, n as int, d),
    decreases n,
{
    if n > 0 {
        let m = (n - 1) as nat;
        options_are_sound(s, m, d);
        let o = s[n - 1];
        if options_keep(s, n as int, d) {
            assert(options_keep(s, m as int, d));
            assert(trimmed(o.name()).len() > 0);
            if name_taken(s, n - 1, o.name()) {
                let i = choose|i: int| 0 <= i < n - 1 && (#[trigger] s[i]).name() == o.name();
                assert(s[i].name() != s[n - 1].name());
            }
            if o.sub() is Some {
                assert(level_fault(s[n - 1].sub()->Some_0, d + 1) is None);
            }
        }
        if options_fault(s, n, d) is None {
            assert(options_keep(s, m as int, d));
            assert forall|i: int, j: int| 0 <= i < j < n implies (#[trigger] s[i]).name() != (
            #[trigger] s[j]).name() by {
                if j == n - 1 && s[i].name() == s[j].name() {
                    assert(name_taken(s, n - 1, o.name()));
                }
            }
        }
    }
}

/// A level is sound where it is no deeper than the fourth, has two options or more
/// with names of their own that are not blank, sound decisions below, and rewards
/// that are yes or no or lie in a proper range; and nowhere else.
pub proof fn sound_levels_are_well_formed(t: Tree, d: int)
    ensures
        level_fault(t, d) is None <==> {
            &&& d <= 4
            &&& t.options.len() >= 2
            &&& options_keep(t.options, t.options.len() as int, d)
            &&& t.reward.kind == RewardKind::Bernoulli || (t.reward.range is Some
                && t.reward.range->Some_0@[0].spec_is_finite()
                && t.reward.range->Some_0@[1].spec_is_finite()
                && t.reward.range->Some_0@[0].below(t.reward.range->Some_0@[1]))
        },
{
    options_are_sound(t.options, t.options.len(), d);
}

/// A tree is accepted where its levels are sound, the root being the first, and it
/// has no more than 256 leaves.
pub proof fn accepted_trees_are_sound(t: Tree)
    ensures
        tree_fault(t) is None <==> level_fault(t, 1) is None && leaves(t) <= 256,
{
}

/// Leaves count one each, and a decision below counts its own leaves.
pub proof fn leaves_are_counted(t: Tree, u: Tree, o: Twig)
    requires
        u.options == t.options.push(o),
    ensures
        o is Leaf ==> leaves(u) == leaves(t) + 1,
        o is Branch ==> leaves(u) == leaves(t) + leaves(o.sub()->Some_0),
        t.options.len() == 0 ==> leaves(t) == 0,
{
    assert(u.options.take(t.options.len() as int) =~= t.options.take(t.options.len() as int));
    same_leaves(t.options, u.options, t.options.len());
    assert(leaves_of(u.options, u.options.len()) == leaves_of(u.options, t.options.len()) + (
    match o {
        Twig::Branch(_, sub) => leaves(*sub),
        Twig::Leaf(_) => 1,
    }));
}

proof fn same_leaves(a: Seq<Twig>, b: Seq<Twig>, n: nat)
    requires
        n <= a.len(),
        n <= b.len(),
        a.take(n as int) == b.take(n as int),
    ensures
        leaves_of(a, n) == leaves_of(b, n),
    decreases n,
{
    if n > 0 {
        let m = (n - 1) as nat;
        assert(a.take(m as int) =~= a.take(n as int).take(m as int));
        assert(b.take(m as int) =~= b.take(n as int).take(m as int));
        same_leaves(a, b, m);
        assert(a[n - 1] == a.take(n as int)[n - 1]);
        assert(b[n - 1] == b.take(n as int)[n - 1]);
    }
}

/// Feedback on a level moves the chosen weight, lifts every weight to a millionth at
/// least, and scales all by their sum where that is above zero; the chosen option
/// has one more try, and the portfolio one more round.
pub proof fn level_feedback_moves_the_chosen(b: HierView, chosen: int, n: LevelNumbers, i: int)
    requires
        0 <= chosen < b.weights.len(),
        b.stats.len() == b.weights.len(),
        b.stats[chosen].tries < u64::MAX,
        n.shares@.len() == b.weights.len(),
        0 <= i < b.weights.len(),
        b.meta_bandit.total_rounds < u64::MAX,
    ensures
        ({
            let r = level_after(b, chosen, n);
            let least = Real { bits: 0x3EB0_C6F7_A0B5_ED8D };
            let x = if i == chosen {
                n.moved
            } else {
                b.weights[i]
            };
            &&& (Real { bits: 0 }).below(n.sum) ==> r.weights == n.shares@
            &&& !(Real { bits: 0 }).below(n.sum) && least.at_most(x) ==> r.weights[i] == x
            &&& !(Real { bits: 0 }).below(n.sum) && x.below(least) ==> r.weights[i] == least
            &&& r.stats[chosen].tries == b.stats[chosen].tries + 1
            &&& r.stats[chosen].last_reward == n.reward
            &&& i != chosen ==> r.stats[i] == b.stats[i]
            &&& r.meta_bandit.total_rounds == b.meta_bandit.total_rounds + 1
        }),
{
    assert(n.shares@ + nudged(b.weights, chosen, n.moved).skip(n.shares@.len() as int)
        =~= n.shares@);
}

proof fn record_is_first(c: Seq<CandidateRecord>, id: CandidateId, i: int)
    requires
        0 <= i <= c.len(),
    ensures
        i <= record_of(c, id, i) <= c.len(),
        record_of(c, id, i) < c.len() ==> c[record_of(c, id, i)].id == id,
        record_of(c, id, i) == c.len() ==> forall|k: int|
            i <= k < c.len() ==> (#[trigger] c[k]).id != id,
    decreases c.len() - i,
{
    if i < c.len() && c[i].id != id {
        record_is_first(c, id, i + 1);
    }
}

/// A round is credited to the candidate that chose; the others only fade, and that
/// only where the portfolio forgets.
pub proof fn rounds_are_credited_to_their_candidate(m: BanditView, n: LevelNumbers, k: int)
    requires
        n.records@.len() == m.candidates.len(),
        0 <= k < m.candidates.len(),
        forall|i: int, j: int|
            0 <= i < j < m.candidates.len() ==> (#[trigger] m.candidates[i]).id != (
            #[trigger] m.candidates[j]).id,
    ensures
        ({
            let c = credited(m, n);
            &&& c.len() == m.candidates.len()
            &&& c[k].id == m.candidates[k].id
            &&& c[k].id == n.candidate ==> (c[k].trials, c[k].cumulative_reward) == n.credit
            &&& c[k].id != n.candidate && !m.forgetting_factor.below(Real { bits: ONE }) ==> c[k]
                == m.candidates[k]
            &&& c[k].id != n.candidate && m.forgetting_factor.below(Real { bits: ONE }) ==> (
                c[k].trials,
                c[k].cumulative_reward,
            ) == n.records@[k]
        }),
{
    record_is_first(m.candidates, n.candidate, 0);
    let at = record_of(m.candidates, n.candidate, 0);
    if at < m.candidates.len() && k != at && m.candidates[k].id == n.candidate {
        if k < at {
            assert(m.candidates[k].id != m.candidates[at].id);
        } else {
            assert(m.candidates[at].id != m.candidates[k].id);
        }
    }
}

/// A tree is as deep as its deepest decision below and one more.
pub proof fn depths_go_by_the_deepest(t: Tree, u: Tree, o: Twig)
    requires
        u.options == t.options.push(o),
    ensures
        o is Leaf ==> depth(u) == depth(t),
        o is Branch && depth(o.sub()->Some_0) + 1 >= depth(t) ==> depth(u) == depth(
            o.sub()->Some_0,
        ) + 1,
        o is Branch && depth(o.sub()->Some_0) + 1 <= depth(t) ==> depth(u) == depth(t),
        t.options.len() == 0 ==> depth(t) == 1,
{
    assert(u.options.take(t.options.len() as int) =~= t.options.take(t.options.len() as int));
    same_depth(t.options, u.options, t.options.len());
    assert(depth_of(u.options, u.options.len()) == larger(
        depth_of(u.options, t.options.len()),
        match o {
            Twig::Branch(_, sub) => depth(*sub),
            Twig::Leaf(_) => 0,
        },
    ));
}

proof fn same_depth(a: Seq<Twig>, b: Seq<Twig>, n: nat)
    requires
        n <= a.len(),
        n <= b.len(),
        a.take(n as int) == b.take(n as int),
    ensures
        depth_of(a, n) == depth_of(b, n),
    decreases n,
{
    if n > 0 {
        let m = (n - 1) as nat;
        assert(a.take(m as int) =~= a.take(n as int).take(m as int));
        assert(b.take(m as int) =~= b.take(n as int).take(m as int));
        same_depth(a, b, m);
        assert(a[n - 1] == a.take(n as int)[n - 1]);
        assert(b[n - 1] == b.take(n as int)[n - 1]);
    }
}

/// A decision that has seen nothing gives all its options the same weight; one without
/// options counts as one with one.
pub proof fn fresh_decisions_are_even(options: nat, i: int)
    requires
        0 <= i < options || i == 0,
    ensures
        ({
            let b = fresh_hier(options);
            &&& b.weights.len() == (if options == 0 {
                1
            } else {
                options
            })
            &&& b.stats.len() == b.weights.len()
            &&& b.weights[i] == b.weights[0]
            &&& b.stats[i].tries == 0
            &&& b.meta_bandit.total_rounds == 0
            &&& b.meta_bandit.candidates.len() == 5
        }),
{
}

} // verus!
