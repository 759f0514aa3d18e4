//! How options are chosen: by which rule, and what the chosen one has over the
//! others.

use crate::feature_schema::MINUS_INFINITY;
use crate::learning::{MeanKind, PlanView, best_of, dominated, dominates, epsilon_choice, first_over, first_untried, none_tried, option_weight, plan_for, scoring, undominated, weighted_choice};
use crate::learning_memory::ContextBucket;
use crate::learning_sections::Algorithm;
use crate::learning_stats::OptionStats;
use crate::number::{HIDDEN, Real, SIGN, cut_to};
use vstd::prelude::*;

verus! {

/// One of the first `n` options was never tried.
pub open spec fn untried(b: ContextBucket, n: int, i: int) -> bool {
    0 <= i < n && (i >= b.stats@.len() || b.stats@[i].tries == 0)
}

/// The plan settles on the first option that was never tried.
pub open spec fn settles_on_first_untried(p: PlanView, b: ContextBucket, n: int) -> bool {
    p matches PlanView::Settled(i, _) && untried(b, n, i) && forall|k: int|
        0 <= k < i ==> !#[trigger] untried(b, n, k)
}

proof fn first_untried_is_first(b: ContextBucket, n: int, i: int)
    requires
        0 <= i <= n,
        forall|k: int| 0 <= k < i ==> !#[trigger] untried(b, n, k),
    ensures
        ({
            let f = first_untried(b.stats@, n, i);
            &&& i <= f <= n
            &&& f < n ==> untried(b, n, f)
            &&& forall|k: int| 0 <= k < f ==> !#[trigger] untried(b, n, k)
        }),
    decreases n - i,
{
    if i < n && !untried(b, n, i) {
        assert forall|k: int| 0 <= k < i + 1 implies !#[trigger] untried(b, n, k) by {
            if k == i {
            }
        }
        first_untried_is_first(b, n, i + 1);
    }
}

/// With one option or none there is nothing to choose.
pub proof fn few_options_leave_no_choice(b: ContextBucket, a: Algorithm)
    ensures
        plan_for(b, a, 0) == PlanView::Settled(0, "no options"@),
        plan_for(b, a, 1) == PlanView::Settled(0, "single option"@),
{
}

/// Softmax draws by the scores over its temperature, which is held at a hundredth
/// or more; neither weights nor statistics change the rule.
pub proof fn softmax_draws_by_its_temperature(
    b: ContextBucket,
    c: ContextBucket,
    temperature: Real,
    n: int,
)
    requires
        n >= 2,
    ensures
        ({
            let least = Real { bits: 0x3F84_7AE1_47AE_147B };
            let p = plan_for(b, Algorithm::Softmax { temperature }, n);
            &&& p is Softmax
            &&& p == plan_for(c, Algorithm::Softmax { temperature }, n)
            &&& least.at_most(p->Softmax_0)
            &&& least.at_most(temperature) ==> p->Softmax_0 == temperature
            &&& !least.at_most(temperature) ==> p->Softmax_0 == least
        }),
{
}

/// Plain weights draw by the weights, and an exploring rule explores, whatever the
/// statistics.
pub proof fn simple_rules_need_no_statistics(
    b: ContextBucket,
    epsilon: Real,
    n: int,
)
    requires
        n >= 2,
    ensures
        plan_for(b, Algorithm::SimpleWeighted, n) is Weighted,
        plan_for(b, Algorithm::EpsilonGreedy { epsilon }, n) is Explore,
{
}

/// Upper bounds are compared once every option was tried; before that the first
/// untried one is taken.
pub proof fn bounds_need_every_option_tried(b: ContextBucket, n: int)
    requires
        n >= 2,
    ensures
        ({
            let p = plan_for(b, Algorithm::Ucb1, n);
            &&& p is Bounds <==> forall|i: int| !#[trigger] untried(b, n, i)
            &&& p is Bounds || settles_on_first_untried(p, b, n)
        }),
{
    first_untried_is_first(b, n, 0);
    let f = first_untried(b.stats@, n, 0);
    if none_tried(b.stats@, n) {
        assert(untried(b, n, 0));
    } else if f >= n {
        assert forall|i: int| !#[trigger] untried(b, n, i) by {
            if 0 <= i < n {
            }
        }
    } else {
        assert(untried(b, n, f));
    }
}

/// Thompson sampling draws from what is believed where some option has such a
/// belief; else the first untried option is taken, and once all were tried their
/// means are drawn.
pub proof fn samples_need_beliefs_or_tries(b: ContextBucket, n: int)
    requires
        n >= 2,
    ensures
        ({
            let p = plan_for(b, Algorithm::ThompsonSampling, n);
            let believed = exists|i: int|
                0 <= i < b.option_states@.len() && (#[trigger] b.option_states@[i])
                    is BetaBernoulli;
            &&& p is BetaSamples <==> believed
            &&& !believed && (forall|i: int| !#[trigger] untried(b, n, i)) ==> p
                is GaussianSamples
            &&& !believed && (exists|i: int| #[trigger] untried(b, n, i))
                ==> settles_on_first_untried(p, b, n)
        }),
{
    first_untried_is_first(b, n, 0);
    let f = first_untried(b.stats@, n, 0);
    if f < n {
        assert(untried(b, n, f));
    }
}

proof fn first_over_is_first(cum: Seq<Real>, roll: Real, i: int)
    requires
        0 <= i <= cum.len(),
        forall|k: int| 0 <= k < i ==> !roll.below(#[trigger] cum[k]),
    ensures
        ({
            let f = first_over(cum, roll, i);
            &&& i <= f <= cum.len()
            &&& f < cum.len() ==> roll.below(cum[f])
            &&& forall|k: int| 0 <= k < f ==> !roll.below(#[trigger] cum[k])
        }),
    decreases cum.len() - i,
{
    if i < cum.len() && !roll.below(cum[i]) {
        first_over_is_first(cum, roll, i + 1);
    }
}

/// A draw by weight takes the first option whose running sum is above the roll, the
/// last where none is, and the first where there is nothing to draw by.
pub proof fn draws_go_by_running_sums(sum: Real, cum: Seq<Real>, roll: Real)
    requires
        cum.len() > 0,
    ensures
        ({
            let i = weighted_choice(sum, cum, roll).0;
            &&& 0 <= i < cum.len()
            &&& sum.at_most(Real { bits: 0 }) ==> i == 0
            &&& !sum.at_most(Real { bits: 0 }) ==> {
                &&& forall|k: int| 0 <= k < i ==> !roll.below(#[trigger] cum[k])
                &&& roll.below(cum[i]) || i == cum.len() - 1
            }
        }),
        ({
            let f = first_over(cum, roll, 0);
            &&& 0 <= f <= cum.len()
            &&& f < cum.len() ==> roll.below(cum[f])
            &&& forall|k: int| 0 <= k < f ==> !roll.below(#[trigger] cum[k])
        }),
{
    first_over_is_first(cum, roll, 0);
}

proof fn best_is_first_best(s: Seq<Real>)
    requires
        s.len() > 0,
        forall|i: int| 0 <= i < s.len() ==> (#[trigger] s[i]).spec_is_finite(),
    ensures
        0 <= best_of(s).0 < s.len(),
        best_of(s).1 == s[best_of(s).0],
        forall|i: int| 0 <= i < s.len() ==> !best_of(s).1.below(#[trigger] s[i]),
        forall|i: int| 0 <= i < best_of(s).0 ==> (#[trigger] s[i]).below(best_of(s).1),
    decreases s.len(),
{
    let front = s.drop_last();
    let last = s[s.len() - 1];
    assert(last.spec_is_finite());
    if s.len() > 1 {
        assert forall|i: int| 0 <= i < front.len() implies (
        #[trigger] front[i]).spec_is_finite() by {
            assert(front[i] == s[i]);
        }
        best_is_first_best(front);
        let b = best_of(front);
        assert(s[b.0] == front[b.0]);
        assert forall|i: int| 0 <= i < s.len() implies !best_of(s).1.below(#[trigger] s[i]) by {
            if i < front.len() {
                assert(front[i] == s[i]);
                assert(!b.1.below(front[i]));
                assert(s[i].spec_is_finite());
            }
        }
        assert forall|i: int| 0 <= i < best_of(s).0 implies (#[trigger] s[i]).below(
            best_of(s).1,
        ) by {
            assert(front[i] == s[i]);
            assert(s[i].spec_is_finite());
            if b.1.below(last) {
                assert(!b.1.below(front[i]));
            } else {
                assert(front[i].below(b.1));
            }
        }
    } else {
        assert(front =~= Seq::<Real>::empty());
        assert(best_of(front) == (0int, Real { bits: MINUS_INFINITY }));
        assert(s[0].spec_is_finite());
        infinity_is_below(s[0]);
    }
}

proof fn infinity_is_below(r: Real)
    requires
        r.spec_is_finite(),
    ensures
        (Real { bits: MINUS_INFINITY }).below(r),
{
    let b = r.bits;
    if b >= SIGN {
        assert(b - SIGN < 0x7FF0_0000_0000_0000) by {
            assert((b / HIDDEN) % 0x800 != 0x7FF);
            assert(b >= 0xFFF0_0000_0000_0000u64 ==> (b / 0x10_0000_0000_0000u64) % 0x800u64
                == 0x7FFu64) by (bit_vector);
        }
    }
}

/// The best score is the first that no other is above.
pub proof fn the_first_best_is_taken(s: Seq<Real>)
    requires
        s.len() > 0,
        forall|i: int| 0 <= i < s.len() ==> (#[trigger] s[i]).spec_is_finite(),
    ensures
        ({
            let i = best_of(s).0;
            &&& 0 <= i < s.len()
            &&& forall|k: int| 0 <= k < s.len() ==> !s[i].below(#[trigger] s[k])
            &&& forall|k: int| 0 <= k < i ==> (#[trigger] s[k]).below(s[i])
        }),
{
    best_is_first_best(s);
}

/// An exploring rule takes a random option where the roll is below its chance, the
/// one that the pick points at or the last, and else the first of the best.
pub proof fn explorers_roll_first(roll: Real, epsilon: Real, pick: Real, scores: Seq<Real>)
    requires
        scores.len() > 0,
        forall|i: int| 0 <= i < scores.len() ==> (#[trigger] scores[i]).spec_is_finite(),
    ensures
        ({
            let i = epsilon_choice(roll, epsilon, pick, scores).0;
            &&& 0 <= i < scores.len()
            &&& roll.below(epsilon) && cut_to(pick, usize::MAX as nat) < scores.len() ==> i
                == cut_to(pick, usize::MAX as nat)
            &&& roll.below(epsilon) && cut_to(pick, usize::MAX as nat) >= scores.len() ==> i
                == scores.len() - 1
            &&& !roll.below(epsilon) ==> {
                &&& forall|k: int| 0 <= k < scores.len() ==> !scores[i].below(#[trigger] scores[k])
                &&& forall|k: int| 0 <= k < i ==> (#[trigger] scores[k]).below(scores[i])
            }
        }),
{
    best_is_first_best(scores);
}

/// An option that was never tried has no score. Of the others the mean is taken of
/// the trimmed, the recent, the faded or all rewards, the first of these that is
/// asked for and possible, and the worst rewards count where risk does.
pub proof fn scores_follow_the_settings(s: OptionStats, c: crate::learning_config::LearningConfig)
    ensures
        scoring(s, c) is None <==> s.tries == 0,
        s.tries > 0 ==> {
            let x = scoring(s, c)->Some_0;
            let trims = (Real { bits: 0 }).below(c.safety.trimmed_fraction) && s.window@.len() > 0;
            let recent = c.window.enabled && s.window@.len() > 0;
            &&& trims <==> x.mean is Trimmed
            &&& trims ==> x.mean == MeanKind::Trimmed(c.safety.trimmed_fraction)
            &&& !trims && recent <==> x.mean is Windowed
            &&& !trims && !recent && c.decay.enabled <==> x.mean is Decayed
            &&& x.tail is Some <==> c.risk_sensitive.enabled && s.window@.len() > 0
            &&& x.tail is Some ==> x.tail == Some(
                (c.risk_sensitive.alpha, c.risk_sensitive.blend),
            )
        },
{
}

/// An option is listed exactly where no other dominates it, and the list grows.
pub proof fn frontiers_hold_the_undominated(scores: Seq<Vec<Real>>, n: int, i: int)
    requires
        0 <= n <= scores.len() <= usize::MAX,
        0 <= i < n,
    ensures
        undominated(scores, n).contains(i as usize) <==> !dominated(scores, i),
        forall|j: int, k: int|
            0 <= j < k < undominated(scores, n).len() ==> #[trigger] undominated(scores, n)[j]
                < #[trigger] undominated(scores, n)[k],
        forall|j: int| 0 <= j < undominated(scores, n).len() ==> #[trigger] undominated(scores, n)[j]
            < n,
    decreases n,
{
    let front = undominated(scores, n - 1);
    let all = undominated(scores, n);
    if n > 1 {
        frontiers_hold_the_undominated(
            scores,
            n - 1,
            if i < n - 1 {
                i
            } else {
                0
            },
        );
    } else {
        assert(front =~= Seq::<usize>::empty());
    }
    if !dominated(scores, n - 1) {
        assert(all[front.len() as int] == n - 1);
        assert(all =~= front.push((n - 1) as usize));
        if i < n - 1 {
            if front.contains(i as usize) {
                let j = choose|j: int| 0 <= j < front.len() && front[j] == i as usize;
                assert(all[j] == i as usize);
            }
            if all.contains(i as usize) {
                let j = choose|j: int| 0 <= j < all.len() && all[j] == i as usize;
                assert(j < front.len());
                assert(front[j] == i as usize);
            }
        } else {
            assert(all.contains(i as usize));
        }
    } else {
        assert(all =~= front);
        if i == n - 1 && all.contains(i as usize) {
            let j = choose|j: int| 0 <= j < all.len() && all[j] == i as usize;
            assert(all[j] < n - 1);
        }
    }
}

/// Domination is strict: what dominates is better somewhere and worse nowhere, so
/// nothing dominates itself, and no two dominate each other.
pub proof fn domination_is_one_way(a: Seq<Real>, b: Seq<Real>)
    ensures
        !dominates(a, a),
        dominates(a, b) ==> !dominates(b, a),
{
    if dominates(a, b) && dominates(b, a) {
        let k = choose|k: int| 0 <= k < a.len() && k < b.len() && b[k].below(#[trigger] a[k]);
        assert(a[k].at_most(b[k]));
    }
}

/// From a frontier the first option with the greatest weight is taken.
pub proof fn frontiers_are_chosen_from_by_weight(f: Seq<usize>, w: Seq<Real>, n: int)
    requires
        1 <= n <= f.len(),
        forall|i: int| 0 <= i < w.len() ==> (#[trigger] w[i]).spec_is_finite(),
    ensures
        exists|j: int|
            0 <= j < n && crate::learning::heaviest(f, w, n) == #[trigger] f[j] && (forall|k: int|
                0 <= k < n ==> !option_weight(w, f[j] as int).below(
                    option_weight(w, #[trigger] f[k] as int),
                )) && (forall|k: int|
                0 <= k < j ==> option_weight(w, #[trigger] f[k] as int).below(
                    option_weight(w, f[j] as int),
                )),
    decreases n,
{
    if n == 1 {
        assert(crate::learning::heaviest(f, w, n) == f[0]);
    } else {
        frontiers_are_chosen_from_by_weight(f, w, n - 1);
        let best = crate::learning::heaviest(f, w, n - 1);
        let j = choose|j: int|
            0 <= j < n - 1 && best == #[trigger] f[j] && (forall|k: int|
                0 <= k < n - 1 ==> !option_weight(w, f[j] as int).below(
                    option_weight(w, #[trigger] f[k] as int),
                )) && (forall|k: int|
                0 <= k < j ==> option_weight(w, #[trigger] f[k] as int).below(
                    option_weight(w, f[j] as int),
                ));
        weights_are_finite(w, f[j] as int);
        weights_are_finite(w, f[n - 1] as int);
        if option_weight(w, best as int).below(option_weight(w, f[n - 1] as int)) {
            assert forall|k: int| 0 <= k < n - 1 implies option_weight(w, #[trigger] f[k] as int).below(
                option_weight(w, f[n - 1] as int),
            ) by {
                weights_are_finite(w, f[k] as int);
                assert(!option_weight(w, f[j] as int).below(option_weight(w, f[k] as int)));
            }
            assert(crate::learning::heaviest(f, w, n) == f[n - 1]);
            assert forall|k: int| 0 <= k < n implies !option_weight(w, f[n - 1] as int).below(
                option_weight(w, #[trigger] f[k] as int),
            ) by {
                if k < n - 1 {
                    assert(option_weight(w, f[k] as int).below(option_weight(w, f[n - 1] as int)));
                }
            }
        } else {
            assert(crate::learning::heaviest(f, w, n) == f[j]);
        }
    }
}

proof fn weights_are_finite(w: Seq<Real>, i: int)
    requires
        i >= 0,
        forall|i: int| 0 <= i < w.len() ==> (#[trigger] w[i]).spec_is_finite(),
    ensures
        option_weight(w, i).spec_is_finite(),
        !option_weight(w, i).spec_is_nan(),
{
}

} // verus!
