//! How a run decides: which option a choice or a strategy takes, how votes are
//! counted, and what is learned from them.

use crate::choice_laws::draws_go_by_running_sums;
use crate::context::SelectionMode;
use crate::graph::{Contract, NodeView, OpCode};
use crate::loop_laws::{about_to_run, course, handed, in_turn, is_over, nodes_are_entered, runs};
use crate::number::{HIDDEN, Real, SIGN, cut_to, real_of_int, whole_numbers_come_back};
use crate::run_model::{Ac, Ct, Ev, Flo, Fr, Mach, NEG_INFINITY, OptionStats, Qu, Wt, agreeing, choice_count, count_true, heaviest, leader, least_tried, least_tries, may_win, read_stat, stats_of, stats_place, strategy_count, tallied, tried, votes, with_stats, written};
use crate::values::{Val, texts};
use crate::weighing::{explores, greatest_time, least_time, voted_weights, within_limits};
use vstd::prelude::*;

verus! {

/// All weights are finite.
pub open spec fn weights_finite(w: Seq<Real>) -> bool {
    forall|i: int| 0 <= i < w.len() ==> (#[trigger] w[i]).spec_is_finite()
}

/// Option `i` is the first of the heaviest among the first `n` that may win.
pub open spec fn first_heaviest(w: Seq<Real>, n: int, mask: Option<Seq<bool>>, i: int) -> bool {
    &&& 0 <= i < n
    &&& mask is Some ==> i < mask->Some_0.len() && mask->Some_0[i]
    &&& forall|k: int|
        0 <= k < n && (mask is None || (k < mask->Some_0.len() && mask->Some_0[k]))
            ==> !w[i].below(#[trigger] w[k])
    &&& forall|k: int|
        0 <= k < i && (mask is None || (k < mask->Some_0.len() && mask->Some_0[k])) ==> (
        #[trigger] w[k]).below(w[i])
}

proof fn lowest_is_below(r: Real)
    requires
        r.spec_is_finite(),
    ensures
        (Real { bits: NEG_INFINITY }).below(r),
{
    let b = r.bits;
    if b >= SIGN {
        assert(b - SIGN < 0x7FF0_0000_0000_0000) by {
            assert((b / HIDDEN) % 0x800 != 0x7FF);
            assert(b >= 0xFFF0_0000_0000_0000u64 ==> (b / 0x10_0000_0000_0000u64) % 0x800u64
                == 0x7FFu64) by (bit_vector);
        }
    }
}

/// The heaviest option is the first among those that may win that no other of them
/// outweighs; the first of all where none may win.
pub proof fn the_first_heaviest_wins(w: Seq<Real>, n: int, mask: Option<Seq<bool>>)
    requires
        weights_finite(w),
        0 <= n <= w.len(),
    ensures
        (exists|k: int| 0 <= k < n && #[trigger] may_win(mask, k)) ==> first_heaviest(
            w,
            n,
            mask,
            heaviest(w, n, mask).0,
        ) && heaviest(w, n, mask).1 == w[heaviest(w, n, mask).0],
        !(exists|k: int| 0 <= k < n && #[trigger] may_win(mask, k)) ==> heaviest(w, n, mask) == (
            0int,
            Real { bits: NEG_INFINITY },
        ),
    decreases n,
{
    if n > 0 {
        the_first_heaviest_wins(w, n - 1, mask);
        assert(w[n - 1].spec_is_finite());
        lowest_is_below(w[n - 1]);
        let (i, best) = heaviest(w, n - 1, mask);
        let r = heaviest(w, n, mask);
        if exists|k: int| 0 <= k < n - 1 && #[trigger] may_win(mask, k) {
            assert(w[i].spec_is_finite());
            let k0 = choose|k: int| 0 <= k < n - 1 && #[trigger] may_win(mask, k);
            if r.0 == n - 1 {
                assert(may_win(mask, n - 1));
                assert forall|k: int|
                    0 <= k < n && (mask is None || (k < mask->Some_0.len()
                        && mask->Some_0[k])) implies !w[n - 1].below(#[trigger] w[k]) by {
                    assert(w[k].spec_is_finite());
                    if k < n - 1 {
                        assert(!w[i].below(w[k]));
                    }
                }
                assert forall|k: int|
                    0 <= k < n - 1 && (mask is None || (k < mask->Some_0.len()
                        && mask->Some_0[k])) implies (#[trigger] w[k]).below(w[n - 1]) by {
                    assert(w[k].spec_is_finite());
                    assert(!w[i].below(w[k]));
                }
            }
        } else {
            if may_win(mask, n - 1) {
                assert forall|k: int|
                    0 <= k < n && (mask is None || (k < mask->Some_0.len()
                        && mask->Some_0[k])) implies !w[n - 1].below(#[trigger] w[k]) by {
                    assert(may_win(mask, k));
                }
                assert forall|k: int|
                    0 <= k < n - 1 && (mask is None || (k < mask->Some_0.len()
                        && mask->Some_0[k])) implies (#[trigger] w[k]).below(w[n - 1]) by {
                    assert(may_win(mask, k));
                }
            }
        }
    }
}

/// How many options a choice has: as many as it has both weights and operands; a
/// last weight that is a tolerance counts for none.
pub proof fn choices_have_so_many_options(node: NodeView)
    ensures
        choice_count(node) <= node.operands.len(),
        choice_count(node) <= node.weights.len(),
        node.contract != Contract::WithinTolerance && node.weights.len() <= node.operands.len()
            ==> choice_count(node) == node.weights.len(),
        node.contract == Contract::WithinTolerance && node.weights.len() == node.operands.len() + 1
            && node.operands.len() > 0 ==> choice_count(node) == node.operands.len(),
        node.weights.len() >= node.operands.len() && node.contract != Contract::WithinTolerance
            ==> choice_count(node) == node.operands.len(),
        strategy_count(node) <= node.operands.len() && strategy_count(node) <= node.weights.len(),
        strategy_count(node) == node.operands.len() || strategy_count(node) == node.weights.len(),
{
}

/// A choice that takes the heaviest option runs the first of the heaviest, keeps
/// which one it was, and hands on what that gives.
pub proof fn greedy_choices_run_the_heaviest(m: Mach, id: u32, x: Mach)
    requires
        about_to_run(m, id),
        m.node(id).op == OpCode::AdaptiveChoice,
        m.options.mode == SelectionMode::Greedy,
        choice_count(m.node(id)) > 0,
        weights_finite(m.node(id).weights),
        in_turn(m, id, seq![x]),
    ensures
        ({
            let now = course(m, Seq::empty());
            exists|i: int|
                #[trigger] first_heaviest(m.node(id).weights, choice_count(m.node(id)), None, i)
                    && runs(now, m.operands(id)[i]) && now.node(id).bias == real_of_int(i)
                    && now.node(id).weights == m.node(id).weights
        }),
        is_over(course(m, seq![x]), m, handed(x)),
{
    let n = choice_count(m.node(id));
    let w = m.node(id).weights;
    the_first_heaviest_wins(w, n, None);
    assert(may_win(None, 0));
    let i = heaviest(w, n, None).0;
    nodes_are_entered(m, id);
    reveal(Mach::dispatch);
    reveal(Mach::pick_option);
    reveal(Mach::chosen);
    assert(first_heaviest(w, n, None, i));
    assert(seq![x].take(0) =~= Seq::<Mach>::empty());
    assert(seq![x][0] == x);
    assert(x.frames == course(m, Seq::empty()).frames);
    reveal(Mach::give);
    assert(x.frames.drop_last() =~= m.frames);
}

/// A choice that draws by weight runs the first option whose running sum is above
/// the roll, and the last where none is; one that explores runs the option of the
/// pick where the roll is below its chance, and else the first of the heaviest.
pub proof fn other_choices_go_by_the_roll(
    m: Mach,
    id: u32,
    sum: Real,
    running: Seq<Real>,
    roll: Real,
    pick: Real,
)
    requires
        m.control == Ct::Wait(Wt::Weighted(id)) || m.control == Ct::Wait(Wt::Explore(id)),
        choice_count(m.node(id)) > 0,
        id < m.graph.nodes.len(),
        weights_finite(m.node(id).weights),
        running.len() == choice_count(m.node(id)),
    ensures
        m.control == Ct::Wait(Wt::Weighted(id)) ==> {
            let now = m.step(Ev::Drawn { sum, running, roll });
            exists|i: int|
                0 <= i < running.len() && runs(now, #[trigger] m.operands(id)[i]) && (if sum.at_most(
                    Real { bits: 0 },
                ) {
                    i == 0
                } else {
                    (roll.below(running[i]) || i == running.len() - 1) && forall|k: int|
                        0 <= k < i ==> !roll.below(#[trigger] running[k])
                })
        },
        m.control == Ct::Wait(Wt::Explore(id)) ==> {
            let now = m.step(Ev::Rolled { roll, pick });
            let p = cut_to(pick, usize::MAX as nat) as int;
            let n = choice_count(m.node(id));
            &&& roll.below(m.options.epsilon) && p < n ==> runs(now, m.operands(id)[p])
            &&& roll.below(m.options.epsilon) && p >= n ==> runs(now, m.operands(id)[n - 1])
            &&& !roll.below(m.options.epsilon) ==> exists|i: int|
                first_heaviest(m.node(id).weights, n, None, i) && runs(
                    now,
                    #[trigger] m.operands(id)[i],
                )
        },
{
    let n = choice_count(m.node(id));
    let w = m.node(id).weights;
    the_first_heaviest_wins(w, n, None);
    assert(may_win(None, 0));
    reveal(Mach::hear);
    reveal(Mach::chosen);
    draws_go_by_running_sums(sum, running, roll);
    if m.control == Ct::Wait(Wt::Weighted(id)) {
        let i = crate::learning::weighted_choice(sum, running, roll).0;
        assert(runs(m.step(Ev::Drawn { sum, running, roll }), m.operands(id)[i]));
    } else {
        let i = heaviest(w, n, None).0;
        if !roll.below(m.options.epsilon) {
            assert(runs(m.step(Ev::Rolled { roll, pick }), m.operands(id)[i]));
        }
    }
}

/// An option is among the least tried exactly where no other was tried less often.
pub proof fn the_least_tried_are_found(s: Seq<OptionStats>, n: int, i: int)
    requires
        0 <= n <= s.len(),
    ensures
        least_tried(s, n).contains(i) <==> 0 <= i < n && forall|k: int|
            0 <= k < s.len() ==> s[i].tries <= (#[trigger] s[k]).tries,
        n == s.len() > 0 ==> least_tried(s, n).len() > 0,
    decreases n,
{
    least_tries_are_least(s);
    let all = least_tried(s, n);
    if n > 0 {
        let front = least_tried(s, n - 1);
        the_least_tried_are_found(s, n - 1, i);
        if s[n - 1].tries == least_tries(s) {
            assert(all[front.len() as int] == n - 1);
            if front.contains(i) {
                let j = choose|j: int| 0 <= j < front.len() && front[j] == i;
                assert(all[j] == i);
            }
            if all.contains(i) && i != n - 1 {
                let j = choose|j: int| 0 <= j < all.len() && all[j] == i;
                assert(front[j] == i);
            }
        }
        if n == s.len() && all.len() == 0 {
            let k = choose|k: int|
                0 <= k < s.len() && (#[trigger] s[k]).tries == least_tries(s);
            the_least_tried_are_found(s, n - 1, k);
            if k < n - 1 {
                assert(front.contains(k));
                let j = choose|j: int| 0 <= j < front.len() && front[j] == k;
            }
        }
    }
}

proof fn least_tries_are_least(s: Seq<OptionStats>)
    ensures
        forall|k: int| 0 <= k < s.len() ==> least_tries(s) <= (#[trigger] s[k]).tries,
        s.len() > 0 ==> exists|k: int|
            0 <= k < s.len() && (#[trigger] s[k]).tries == least_tries(s),
    decreases s.len(),
{
    if s.len() > 0 {
        let front = s.drop_last();
        least_tries_are_least(front);
        assert forall|k: int| 0 <= k < s.len() implies least_tries(s) <= (#[trigger] s[k]).tries by {
            if k < front.len() {
                assert(front[k] == s[k]);
            }
        }
        if s.last().tries < least_tries(front) {
            assert(s[s.len() - 1].tries == least_tries(s));
        } else if front.len() > 0 {
            let k = choose|k: int|
                0 <= k < front.len() && (#[trigger] front[k]).tries == least_tries(front);
            assert(s[k] == front[k]);
        } else {
            assert(s[s.len() - 1].tries == u64::MAX);
        }
    }
}

/// A strategy without a contract explores where the roll is below its chance, which
/// is never taken for less than one in fifty: then it runs one of the least tried
/// options, and else the first of the heaviest. It first asks for the time.
pub proof fn strategies_explore_or_take_the_heaviest(
    m: Mach,
    id: u32,
    s: Seq<OptionStats>,
    roll: Real,
    chance: Real,
)
    requires
        m.control == Ct::Wait(Wt::Exploring(id)),
        id < m.graph.nodes.len(),
        stats_of(m.stats, id) == Some(s),
        s.len() > 0,
        strategy_count(m.node(id)) > 0,
        weights_finite(m.node(id).weights),
    ensures
        ({
            let now = m.step(Ev::Odds { roll, chance });
            let least = Real { bits: 0x3F94_7AE1_47AE_147B };
            let explores = roll.below(chance) || roll.below(least);
            &&& now.control == Ct::Wait(Wt::Clock)
            &&& now.frames.len() == m.frames.len() + 1
            &&& now.frames.drop_last() == m.frames
            &&& now.frames.last() is Timed
            &&& ({
                let i = now.frames.last()->Timed_chosen;
                &&& now.node(id).bias == real_of_int(i)
                &&& explores ==> 0 <= i < s.len() && forall|k: int|
                    0 <= k < s.len() ==> s[i].tries <= (#[trigger] s[k]).tries
                &&& !explores ==> first_heaviest(
                    m.node(id).weights,
                    strategy_count(m.node(id)),
                    None,
                    i,
                )
            })
        }),
{
    let n = strategy_count(m.node(id));
    let w = m.node(id).weights;
    the_first_heaviest_wins(w, n, None);
    assert(may_win(None, 0));
    reveal(Mach::hear);
    reveal(Mach::explore);
    let c = least_tried(s, s.len() as int);
    the_least_tried_are_found(s, s.len() as int, 0);
    let a = (m.node(id).activation_count as usize) as int;
    let at = a % (c.len() as int);
    assert(0 <= at < c.len()) by {
        vstd::arithmetic::div_mod::lemma_mod_bound(a, c.len() as int);
    }
    assert(c.contains(c[at]));
    the_least_tried_are_found(s, s.len() as int, c[at]);
    assert(m.step(Ev::Odds { roll, chance }).frames.drop_last() =~= m.frames);
}

// ---- Votes ----

proof fn leaders_lead(texts: Seq<Seq<char>>, n: int)
    requires
        1 <= n <= texts.len(),
    ensures
        0 <= leader(texts, n) < n,
        forall|k: int|
            0 <= k < n ==> votes(texts, #[trigger] texts[k]) <= votes(
                texts,
                texts[leader(texts, n)],
            ),
        forall|k: int|
            0 <= k < leader(texts, n) ==> votes(texts, #[trigger] texts[k]) < votes(
                texts,
                texts[leader(texts, n)],
            ),
    decreases n,
{
    if n > 1 {
        leaders_lead(texts, n - 1);
    }
}

/// A text's votes are the places where it stands.
pub proof fn votes_are_places(texts: Seq<Seq<char>>, t: Seq<char>)
    ensures
        votes(texts, t) == texts.filter(|x: Seq<char>| x == t).len(),
    decreases texts.len(),
{
    reveal(Seq::filter);
    if texts.len() > 0 {
        votes_are_places(texts.drop_last(), t);
    }
}

/// The text at `b` has the most votes, and no earlier one has as many.
pub open spec fn most_frequent(texts: Seq<Seq<char>>, b: int) -> bool {
    &&& 0 <= b < texts.len()
    &&& forall|k: int|
        0 <= k < texts.len() ==> votes(texts, #[trigger] texts[k]) <= votes(texts, texts[b])
    &&& forall|k: int|
        0 <= k < b ==> votes(texts, #[trigger] texts[k]) < votes(texts, texts[b])
}

/// The options that agree are those that gave the text with the most votes; of
/// several such texts the first counts.
pub proof fn the_most_frequent_result_counts(texts: Seq<Seq<char>>)
    requires
        texts.len() > 0,
    ensures
        agreeing(texts).len() == texts.len(),
        exists|b: int| #[trigger]
            most_frequent(texts, b) && forall|i: int|
                0 <= i < texts.len() ==> #[trigger] agreeing(texts)[i] == (texts[i] == texts[b]),
{
    leaders_lead(texts, texts.len() as int);
    let b = leader(texts, texts.len() as int);
    assert(most_frequent(texts, b));
    assert(forall|i: int|
        0 <= i < texts.len() ==> #[trigger] agreeing(texts)[i] == (texts[i] == texts[b]));
}

/// How many options agree.
pub open spec fn agreeing_count(mask: Seq<bool>) -> nat {
    mask.filter(|b: bool| b).len()
}

proof fn trues_are_counted(mask: Seq<bool>)
    ensures
        count_true(mask) == agreeing_count(mask),
    decreases mask.len(),
{
    reveal(Seq::filter);
    if mask.len() > 0 {
        trues_are_counted(mask.drop_last());
    }
}

/// A vote counts every option that took part as tried once, with its time, and as
/// right where it agreed. More than half must agree for weights to be learned:
/// then the host is asked for the range of times, and else the vote is over.
pub proof fn votes_are_counted(m: Mach, mask: Seq<bool>, s: Seq<OptionStats>, i: int)
    requires
        m.frames.len() > 0,
        m.frames.last() is Vote,
        ({
            let n = m.frames.last()->Vote_n;
            &&& 0 <= i < n == mask.len()
            &&& n == m.frames.last()->Vote_times.len()
            &&& stats_of(m.stats, m.frames.last()->Vote_id) == Some(s)
            &&& n <= s.len()
            &&& s[i].tries < u64::MAX && s[i].correct < u64::MAX
            &&& s[i].total_ns + m.frames.last()->Vote_times[i] <= u128::MAX
        }),
    ensures
        ({
            let n = m.frames.last()->Vote_n;
            let id = m.frames.last()->Vote_id;
            let now = m.voted(mask);
            let t = stats_of(now.stats, id)->Some_0;
            &&& 2 * agreeing_count(mask) > n ==> now.control == Ct::Wait(Wt::VoteRange(mask))
            &&& 2 * agreeing_count(mask) <= n ==> !(now.control is Wait)
            &&& stats_of(now.stats, id) is Some
            &&& t.len() == s.len()
            &&& t[i].tries == s[i].tries + 1
            &&& t[i].total_ns == s[i].total_ns + m.frames.last()->Vote_times[i]
            &&& mask[i] ==> t[i].correct == s[i].correct + 1
            &&& !mask[i] ==> t[i].correct == s[i].correct
        }),
{
    reveal(Mach::voted);
    reveal(Mach::concluded);
    trues_are_counted(mask);
    let id = m.frames.last()->Vote_id;
    let u = tallied(s, m.frames.last()->Vote_n, m.frames.last()->Vote_times, mask);
    kept_stats_are_found(m.stats, id, u);
}

proof fn kept_stats_are_found(
    stats: Seq<(u32, Seq<OptionStats>)>,
    id: u32,
    s: Seq<OptionStats>,
)
    ensures
        stats_of(with_stats(stats, id, s), id) == Some(s),
{
    place_is_right(stats, id);
    let p = stats_place(stats, id);
    let all = with_stats(stats, id, s);
    place_is_right(all, id);
    if p < 0 {
        assert(all.last() == (id, s));
    } else {
        assert(all[p] == (id, s));
        let q = stats_place(all, id);
        assert(q >= 0);
        assert(q >= p);
        if q > p {
            assert(all[q] == stats[q]);
            assert(stats[q].0 == id);
        }
    }
}

proof fn place_is_right(stats: Seq<(u32, Seq<OptionStats>)>, id: u32)
    ensures
        ({
            let p = stats_place(stats, id);
            &&& p < 0 ==> forall|k: int| 0 <= k < stats.len() ==> (#[trigger] stats[k]).0 != id
            &&& p >= 0 ==> p < stats.len() && stats[p].0 == id && forall|k: int|
                p < k < stats.len() ==> (#[trigger] stats[k]).0 != id
        }),
    decreases stats.len(),
{
    if stats.len() > 0 {
        let front = stats.drop_last();
        place_is_right(front, id);
        let p = stats_place(stats, id);
        if stats.last().0 != id {
            assert forall|k: int|
                (p < 0 || p < k) && 0 <= k < stats.len() implies (#[trigger] stats[k]).0 != id by {
                if k < front.len() {
                    assert(front[k] == stats[k]);
                }
            }
            if p >= 0 {
                assert(front[p] == stats[p]);
            }
        }
    }
}

/// A vote ends with the result of the first of the heaviest options that agree, and
/// that option is kept as the choice.
pub proof fn votes_end_with_an_agreeing_result(m: Mach, mask: Seq<bool>)
    requires
        m.frames.len() > 0,
        m.frames.last() is Vote,
        m.frames.last()->Vote_id < m.graph.nodes.len(),
        weights_finite(m.node(m.frames.last()->Vote_id).weights),
        ({
            let v = m.frames.last();
            let n = m.voting_weights(v->Vote_id, v->Vote_tolerant, v->Vote_n);
            &&& n <= v->Vote_results.len()
            &&& n >= 0
            &&& exists|k: int| 0 <= k < n && #[trigger] may_win(Some(mask), k)
        }),
    ensures
        ({
            let v = m.frames.last();
            let n = m.voting_weights(v->Vote_id, v->Vote_tolerant, v->Vote_n);
            let now = m.concluded(mask);
            exists|i: int|
                #[trigger] first_heaviest(m.node(v->Vote_id).weights, n, Some(mask), i) && mask[i]
                    && now.control == Ct::Give(Flo::Val(v->Vote_results[i])) && now.frames
                    == m.frames.drop_last() && now.node(v->Vote_id).bias == real_of_int(i)
        }),
{
    reveal(Mach::concluded);
    let v = m.frames.last();
    let n = m.voting_weights(v->Vote_id, v->Vote_tolerant, v->Vote_n);
    the_first_heaviest_wins(m.node(v->Vote_id).weights, n, Some(mask));
    assert(first_heaviest(
        m.node(v->Vote_id).weights,
        n,
        Some(mask),
        heaviest(m.node(v->Vote_id).weights, n, Some(mask)).0,
    ));
}

/// A strategy that compares results runs its options one after the other, each
/// between two readings of the clock, and keeps each result and the time it took.
pub proof fn votes_run_every_option(m: Mach, v: Fr, t: u128, f: Flo)
    requires
        m.frames.len() > 0,
        m.frames.last() == v,
        v is Vote,
        v->Vote_n <= m.operands(v->Vote_id).len(),
        v->Vote_times.len() < v->Vote_n,
    ensures
        m.control == Ct::Wait(Wt::Clock) && v->Vote_results.len() == v->Vote_times.len() ==> {
            let now = m.step(Ev::Time(t));
            &&& runs(now, m.operands(v->Vote_id)[v->Vote_times.len() as int])
            &&& now.frames == m.frames.drop_last().push(now.frames.last())
            &&& now.frames.last() is Vote && now.frames.last()->Vote_started == t
            &&& now.frames.last()->Vote_results == v->Vote_results
        },
        m.control == Ct::Give(f) ==> {
            let now = m.step(Ev::Go);
            &&& now.control == Ct::Wait(Wt::Clock)
            &&& now.frames.last() is Vote
            &&& now.frames.last()->Vote_results == v->Vote_results.push(f.value())
            &&& now.frames.last()->Vote_times == v->Vote_times
        },
        m.control == Ct::Wait(Wt::Clock) && v->Vote_results.len() == v->Vote_times.len() + 1 && t
            >= v->Vote_started ==> {
            let now = m.step(Ev::Time(t));
            &&& now.frames.last() is Vote
            &&& now.frames.last()->Vote_times == v->Vote_times.push((t - v->Vote_started) as u128)
            &&& now.frames.last()->Vote_results == v->Vote_results
            &&& v->Vote_times.len() + 1 < v->Vote_n ==> now.control == Ct::Wait(Wt::Clock)
            &&& v->Vote_times.len() + 1 == v->Vote_n && v->Vote_tolerant ==> now.control
                == Ct::Wait(Wt::VoteNumbers)
            &&& v->Vote_times.len() + 1 == v->Vote_n && !v->Vote_tolerant ==> now.control
                == Ct::Wait(Wt::VoteTexts)
        },
{
    reveal(Mach::hear);
    reveal(Mach::clock);
    reveal(Mach::give);
}

/// A strategy with a contract starts a vote over as many options as it has both
/// weights and operands, with the last weight as its tolerance.
pub proof fn contracts_start_votes(m: Mach, id: u32)
    requires
        about_to_run(m, id),
        m.node(id).op == OpCode::Strategy,
        strategy_count(m.node(id)) > 0,
    ensures
        ({
            let now = m.step(Ev::Go);
            let k = m.node(id).contract;
            &&& k == Contract::SameOutput || k == Contract::WithinTolerance ==> {
                &&& now.control == Ct::Wait(Wt::Clock)
                &&& now.frames == m.frames.push(
                    Fr::Vote {
                        id,
                        tolerant: k == Contract::WithinTolerance,
                        tol: m.node(id).weights.last(),
                        n: strategy_count(m.node(id)),
                        results: Seq::empty(),
                        times: Seq::empty(),
                        started: 0,
                    },
                )
            }
            &&& k == Contract::Unchecked || k == Contract::Validated ==> now.control == Ct::Wait(
                Wt::Exploring(id),
            ) && now.frames == m.frames
            &&& stats_of(now.stats, id) is Some
        }),
{
    nodes_are_entered(m, id);
    reveal(Mach::dispatch);
    reveal(Mach::strategy);
    if stats_of(m.stats, id) is None {
        kept_stats_are_found(
            m.stats,
            id,
            Seq::new(strategy_count(m.node(id)) as nat, |i: int| crate::run_model::untried()),
        );
    }
}

/// What is learned at the end of a run from a branch that was taken: its weight is
/// to grow by a hundredth, and the other's to shrink by as much.
pub proof fn branches_learn_which_way_was_taken(m: Mach, id: u32, taken: bool)
    requires
        m.node(id).weights.len() >= 2,
    ensures
        ({
            let now = m.branch(id, taken);
            let n = m.deltas.len() as int;
            let up = Real { bits: 0x3F84_7AE1_47AE_147B };
            let down = Real { bits: 0xBF84_7AE1_47AE_147B };
            let at = if taken {
                0int
            } else {
                1int
            };
            &&& now.deltas.len() == n + 2
            &&& now.deltas.take(n) == m.deltas
            &&& now.deltas[n] == (id, at, up)
            &&& now.deltas[n + 1] == (id, 1 - at, down)
        }),
{
    reveal(Mach::branch);
    let now = m.branch(id, taken);
    assert(now.deltas.take(m.deltas.len() as int) =~= m.deltas);
}

/// A change that was learned is added to its weight, which stays between a
/// hundredth and ninety-nine of them; other weights stay as they are.
pub proof fn learned_changes_are_applied(m: Mach, next: int, id: u32, at: int, by: Real, r: Real)
    requires
        id < m.graph.nodes.len(),
        0 <= at < m.node(id).weights.len(),
        m.control == Ct::Wait(
            Wt::Delta { next, id, at, weight: m.node(id).weights[at], by },
        ),
        !r.spec_is_nan(),
    ensures
        m.action() == Ac::Ask(
            Qu::Compute(crate::ops::FloatOp::Add, m.node(id).weights[at], by),
        ),
        ({
            let w = m.step(Ev::Number(r)).node(id).weights;
            let low = Real { bits: 0x3F84_7AE1_47AE_147B };
            let high = Real { bits: 0x3FEF_AE14_7AE1_47AE };
            &&& w.len() == m.node(id).weights.len()
            &&& low.at_most(w[at]) && w[at].at_most(high)
            &&& low.at_most(r) && r.at_most(high) ==> w[at] == r
            &&& forall|k: int|
                0 <= k < w.len() && k != at ==> #[trigger] w[k] == m.node(id).weights[k]
        }),
{
    reveal(Mach::hear);
}

/// Weights that are scaled are divided by their sum where that is above zero, and
/// else stay as they are.
pub proof fn weights_are_scaled_by_their_sum(m: Mach, next: int, id: u32, sum: Real, shares: Seq<Real>)
    requires
        id < m.graph.nodes.len(),
        m.control == Ct::Wait(Wt::Normal { next, id }),
        shares.len() == m.node(id).weights.len(),
    ensures
        m.action() == Ac::Ask(Qu::Shares(m.node(id).weights)),
        (Real { bits: 0 }).below(sum) ==> m.step(Ev::Shares { sum, shares }).node(id).weights
            == shares,
        !(Real { bits: 0 }).below(sum) ==> m.step(Ev::Shares { sum, shares }).node(id).weights
            == m.node(id).weights,
{
    reveal(Mach::hear);
    assert(shares + m.node(id).weights.skip(shares.len() as int) =~= shares);
}

/// A reward raises the option that was chosen last and lowers the others, each held
/// within its limits.
pub proof fn rewards_raise_the_chosen(
    m: Mach,
    id: u32,
    reward: Real,
    raised: Seq<Real>,
    lowered: Seq<Real>,
    i: int,
)
    requires
        id < m.graph.nodes.len(),
        m.control == Ct::Wait(Wt::Reward(id, reward)),
        raised.len() == m.node(id).weights.len(),
        lowered.len() == m.node(id).weights.len(),
        0 <= i < raised.len(),
        within_limits(raised[i]),
        within_limits(lowered[i]),
    ensures
        m.action() == Ac::Ask(Qu::Reward(m.node(id).weights, reward)),
        ({
            let now = m.step(Ev::Moved { raised, lowered });
            let chosen = cut_to(m.node(id).bias, usize::MAX as nat);
            &&& now.control == Ct::Wait(Wt::RewardScale(id))
            &&& i == chosen ==> now.node(id).weights[i] == raised[i]
            &&& i != chosen ==> now.node(id).weights[i] == lowered[i]
        }),
{
    reveal(Mach::hear);
}

/// A vote lowers the options that did not agree, and moves the others by their
/// times where those differ.
pub proof fn votes_lower_who_did_not_agree(
    w: Seq<Real>,
    n: int,
    agreed: Seq<bool>,
    range: Real,
    raised: Seq<Real>,
    lowered: Seq<Real>,
    i: int,
)
    requires
        0 <= i < n <= w.len(),
        agreed.len() == n,
        raised.len() == n,
        lowered.len() == n,
        within_limits(raised[i]),
        within_limits(lowered[i]),
    ensures
        ({
            let r = voted_weights(w, n, agreed, range, raised, lowered);
            &&& !agreed[i] ==> r[i] == lowered[i]
            &&& agreed[i] && (Real { bits: 0 }).below(range) ==> r[i] == raised[i]
            &&& agreed[i] && !(Real { bits: 0 }).below(range) ==> r[i] == w[i]
            &&& forall|k: int| n <= k < w.len() ==> #[trigger] r[k] == w[k]
            &&& r.len() == w.len()
        }),
{
}

/// The fastest option that agrees, and the slowest of all, bound the times of a
/// vote.
pub proof fn times_are_bounded(times: Seq<u128>, agreed: Seq<bool>, i: int)
    requires
        0 <= i < times.len() == agreed.len(),
    ensures
        greatest_time(times) is Some,
        times[i] <= greatest_time(times)->Some_0,
        times.contains(greatest_time(times)->Some_0),
        agreed[i] ==> least_time(times, agreed) is Some && least_time(times, agreed)->Some_0
            <= times[i],
        least_time(times, agreed) is Some ==> exists|k: int|
            0 <= k < times.len() && agreed[k] && #[trigger] times[k] == least_time(
                times,
                agreed,
            )->Some_0,
{
    greatest_is_found(times);
    least_is_found(times, agreed);
    let t = times[i];
    if agreed[i] {
        assert(least_time(times, agreed) is Some && least_time(times, agreed)->Some_0 <= times[i]);
    }
    let g = greatest_time(times)->Some_0;
    let k = choose|k: int| 0 <= k < times.len() && times[k] == g;
    assert(times[k] == g);
}

proof fn greatest_is_found(times: Seq<u128>)
    ensures
        times.len() > 0 ==> greatest_time(times) is Some,
        forall|k: int| 0 <= k < times.len() ==> #[trigger] times[k] <= greatest_time(times)->Some_0,
        times.len() > 0 ==> exists|k: int|
            0 <= k < times.len() && #[trigger] times[k] == greatest_time(times)->Some_0,
    decreases times.len(),
{
    if times.len() > 0 {
        let front = times.drop_last();
        greatest_is_found(front);
        assert forall|k: int| 0 <= k < times.len() implies #[trigger] times[k] <= greatest_time(
            times,
        )->Some_0 by {
            if k < front.len() {
                assert(front[k] == times[k]);
            }
        }
        if front.len() > 0 && greatest_time(times) == greatest_time(front) {
            let k = choose|k: int|
                0 <= k < front.len() && #[trigger] front[k] == greatest_time(front)->Some_0;
            assert(times[k] == front[k]);
        } else {
            assert(times[times.len() - 1] == greatest_time(times)->Some_0);
        }
    }
}

proof fn least_is_found(times: Seq<u128>, agreed: Seq<bool>)
    requires
        times.len() <= agreed.len(),
    ensures
        forall|k: int|
            0 <= k < times.len() && agreed[k] ==> least_time(times, agreed) is Some
                && least_time(times, agreed)->Some_0 <= #[trigger] times[k],
        least_time(times, agreed) is Some ==> exists|k: int|
            0 <= k < times.len() && agreed[k] && #[trigger] times[k] == least_time(
                times,
                agreed,
            )->Some_0,
    decreases times.len(),
{
    if times.len() > 0 {
        let front = times.drop_last();
        least_is_found(front, agreed);
        assert forall|k: int| 0 <= k < times.len() && agreed[k] implies least_time(times, agreed)
            is Some && least_time(times, agreed)->Some_0 <= #[trigger] times[k] by {
            if k < front.len() {
                assert(front[k] == times[k]);
            }
        }
        if least_time(times, agreed) is Some {
            if least_time(front, agreed) == least_time(times, agreed) {
                let k = choose|k: int|
                    0 <= k < front.len() && agreed[k] && #[trigger] front[k] == least_time(
                        front,
                        agreed,
                    )->Some_0;
                assert(times[k] == front[k]);
            } else {
                assert(times[times.len() - 1] == least_time(times, agreed)->Some_0);
            }
        }
    }
}

/// What is printed is kept, line by line, in order.
pub proof fn printed_lines_are_kept(m: Mach, line: Seq<char>)
    requires
        m.control == Ct::Wait(Wt::Printing(line)),
    ensures
        m.action() == Ac::Ask(Qu::Print(line)),
        m.step(Ev::Go).printed == m.printed.push(line),
        is_over(m.step(Ev::Go), m, Flo::Val(Val::Null)),
{
    reveal(Mach::hear);
}

/// The statistics that are saved for an option are the ones that are read back, as
/// long as the counts are below 2^53.
pub proof fn saved_statistics_are_read_back(
    state: Seq<Real>,
    slot: u32,
    s: Seq<OptionStats>,
    k: int,
    i: int,
)
    requires
        0 <= i < k <= s.len(),
        slot + k * 3 <= state.len(),
        s[i].tries < 0x20_0000_0000_0000,
        s[i].correct < 0x20_0000_0000_0000,
        s[i].total_ns < 0x20_0000_0000_0000,
    ensures
        read_stat(written(state, slot, s, k), slot, i) == s[i],
        written(state, slot, s, k).len() == state.len(),
    decreases k,
{
    let before = written(state, slot, s, k - 1);
    written_keeps_length(state, slot, s, k);
    written_keeps_length(state, slot, s, k - 1);
    whole_numbers_come_back(s[i].tries as nat, u64::MAX as nat);
    whole_numbers_come_back(s[i].correct as nat, u64::MAX as nat);
    whole_numbers_come_back(s[i].total_ns as nat, u128::MAX as nat);
    if i < k - 1 {
        saved_statistics_are_read_back(state, slot, s, k - 1, i);
        let all = written(state, slot, s, k);
        let base = slot + i * 3;
        assert(all[base] == before[base]);
        assert(all[base + 1] == before[base + 1]);
        assert(all[base + 2] == before[base + 2]);
    }
}

proof fn written_keeps_length(state: Seq<Real>, slot: u32, s: Seq<OptionStats>, k: int)
    requires
        slot + k * 3 <= state.len(),
    ensures
        written(state, slot, s, k).len() == state.len(),
    decreases k,
{
    if k > 0 {
        written_keeps_length(state, slot, s, k - 1);
    }
}

/// An option that a strategy runs is run between two readings of the clock. It then
/// has one more try, which counts as right, and the time that it took; once all
/// options were tried their average times are asked for, and before that nothing is
/// learned.
pub proof fn timed_options_are_counted(m: Mach, v: Fr, t: u128, s: Seq<OptionStats>, i: int)
    requires
        m.frames.len() > 0,
        m.frames.last() == v,
        v is Timed,
        m.control == Ct::Wait(Wt::Clock),
        stats_of(m.stats, v->Timed_id) == Some(s),
        0 <= v->Timed_chosen < s.len(),
        v->Timed_chosen < m.operands(v->Timed_id).len(),
        s[v->Timed_chosen].tries < u64::MAX,
        s[v->Timed_chosen].correct < u64::MAX,
        s[v->Timed_chosen].total_ns + t <= u128::MAX,
        0 <= i < s.len(),
    ensures
        v->Timed_flow is None ==> {
            let now = m.step(Ev::Time(t));
            &&& runs(now, m.operands(v->Timed_id)[v->Timed_chosen])
            &&& now.frames.last() is Timed && now.frames.last()->Timed_started == t
            &&& now.frames.last()->Timed_chosen == v->Timed_chosen
            &&& now.stats == m.stats
        },
        v->Timed_flow is Some && t >= v->Timed_started ==> {
            let now = m.step(Ev::Time(t));
            let u = stats_of(now.stats, v->Timed_id);
            &&& u is Some && u->Some_0.len() == s.len()
            &&& i == v->Timed_chosen ==> u->Some_0[i].tries == s[i].tries + 1
                && u->Some_0[i].correct == s[i].correct + 1 && u->Some_0[i].total_ns
                == s[i].total_ns + (t - v->Timed_started)
            &&& i != v->Timed_chosen ==> u->Some_0[i] == s[i]
            &&& (forall|k: int| 0 <= k < s.len() ==> k == v->Timed_chosen || (
            #[trigger] s[k]).tries > 0) ==> now.control == Ct::Wait(Wt::Averages)
            &&& i != v->Timed_chosen && s[i].tries == 0 ==> now.control == Ct::Give(
                v->Timed_flow->Some_0,
            ) && now.frames == m.frames.drop_last() && now.graph == m.graph
        },
{
    reveal(Mach::hear);
    reveal(Mach::clock);
    let id = v->Timed_id;
    let c = v->Timed_chosen;
    if v->Timed_flow is Some && t >= v->Timed_started {
        let u = s.update(c, tried(s[c], (t - v->Timed_started) as u128, true));
        kept_stats_are_found(m.stats, id, u);
        assert(u[i].tries == (if i == c {
            s[i].tries + 1
        } else {
            s[i].tries as int
        }));
        if i != c && s[i].tries == 0 {
            assert(!crate::run_model::all_tried(u));
        }
        if forall|k: int| 0 <= k < s.len() ==> k == c || (#[trigger] s[k]).tries > 0 {
            assert forall|k: int| 0 <= k < u.len() implies (#[trigger] u[k]).tries > 0 by {
                if k != c {
                    assert(u[k] == s[k]);
                }
            }
            assert(crate::run_model::all_tried(u));
        }
    }
}

/// All weights take part in a vote, but for the tolerance behind them where there is
/// one.
pub proof fn weights_take_part_in_votes(m: Mach, id: u32, tolerant: bool)
    ensures
        !tolerant ==> m.voting_weights(id, tolerant, 0) == m.node(id).weights.len(),
        tolerant && m.node(id).weights.len() > 0 ==> m.voting_weights(
            id,
            tolerant,
            m.node(id).weights.len() - 1,
        ) == m.node(id).weights.len() - 1,
        tolerant && m.node(id).weights.len() > 0 ==> forall|n: int|
            n >= 0 ==> #[trigger] m.voting_weights(id, tolerant, n) < m.node(id).weights.len()
                && m.voting_weights(id, tolerant, n) <= n,
{
}

} // verus!
