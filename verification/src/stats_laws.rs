//! What the statistics of options and the models behind them come to.

use crate::call_laws::{all_finite, values_in_order};
use crate::cap_calls::sorted_values;
use crate::feature_schema::lesser;
use crate::learning_memory::{StateView, first_states, first_weights, linear_at};
use crate::learning_stats::{AverageView, OptionStats};
use crate::linucb::{features_fault, first_wild, fresh_model, guarded_score, vector_fault};
use crate::meta_bandit::{CandidateId, Quotient};
use crate::number::{HIDDEN, ONE, Real, cut_to, real_of_int};
use crate::weighing::held;
use vstd::prelude::*;

verus! {

/// Values in growing order.
pub open spec fn grows(s: Seq<Real>) -> bool {
    forall|i: int, j: int| 0 <= i <= j < s.len() ==> (#[trigger] s[i]).at_most(#[trigger] s[j])
}

/// The mean is that of the sum over the tries, and zero before the first.
pub proof fn means_are_sums_over_tries(s: OptionStats)
    ensures
        s.tries == 0 ==> s.mean_quotient() == Quotient::Known(Real { bits: 0 }),
        s.tries > 0 ==> s.mean_quotient() == Quotient::Of(
            s.reward_sum,
            real_of_int(s.tries as int),
        ),
        s.window@.len() > 0 ==> s.windowed() == AverageView::Over(s.window@),
        s.window@.len() == 0 ==> s.windowed() == AverageView::Of(s.mean_quotient()),
{
}

/// Trimmed means leave out as many of the least as of the greatest recent rewards,
/// so many as was asked for; all count where that would leave none.
pub proof fn trimming_leaves_out_both_ends(s: OptionStats, frac: Real, trim: Real)
    requires
        all_finite(s.window@),
        (Real { bits: 0 }).below(frac),
    ensures
        ({
            let n = s.window@.len();
            let k = cut_to(trim, usize::MAX as nat);
            &&& n <= 2 * k ==> s.trimmed(frac, trim) == s.windowed()
            &&& n > 2 * k ==> s.trimmed(frac, trim) is Over && exists|
                low: Seq<Real>,
                high: Seq<Real>,
            |
                low.len() == k && high.len() == k && grows(
                    #[trigger] (low + s.trimmed(frac, trim)->Over_0 + high),
                ) && (low + s.trimmed(frac, trim)->Over_0 + high).to_multiset()
                    == s.window@.to_multiset()
        }),
{
    let n = s.window@.len() as int;
    let k = cut_to(trim, usize::MAX as nat) as int;
    values_in_order(s.window@);
    let p = sorted_values(s.window@);
    if n > 2 * k {
        let low = p.take(k);
        let high = p.skip(n - k);
        let v = s.trimmed(frac, trim)->Over_0;
        assert(v == p.subrange(k, n - k));
        assert(low + v + high =~= p);
        assert(grows(low + v + high));
    }
}

/// The tail holds the worst recent rewards, one at least, and none that was left out
/// is worse.
pub proof fn tails_hold_the_worst(s: OptionStats, rank: Real)
    requires
        all_finite(s.window@),
        s.window@.len() > 0,
    ensures
        ({
            let n = s.window@.len();
            let k = cut_to(rank, usize::MAX as nat);
            let tail = s.lower_tail(rank);
            &&& tail is Over
            &&& 1 <= k <= n ==> tail->Over_0.len() == k
            &&& k < 1 ==> tail->Over_0.len() == 1
            &&& k > n ==> tail->Over_0.len() == n
            &&& exists|rest: Seq<Real>|
                grows(#[trigger] (tail->Over_0 + rest)) && (tail->Over_0 + rest).to_multiset()
                    == s.window@.to_multiset()
        }),
{
    values_in_order(s.window@);
    let p = sorted_values(s.window@);
    let v = s.lower_tail(rank)->Over_0;
    let rest = p.skip(v.len() as int);
    assert(v + rest =~= p);
    assert(grows(v + rest));
}

/// A score is the sum where that is finite, else the mean where that is, else zero;
/// it is always finite. It is marked where the sum was not finite or the bonus was
/// over its cap.
pub proof fn scores_are_finite(mean: Real, bonus: Real, cap: Real, sum: Real)
    ensures
        ({
            let (score, held) = guarded_score(mean, bonus, cap, sum);
            &&& score.spec_is_finite()
            &&& sum.spec_is_finite() ==> score == sum
            &&& !sum.spec_is_finite() && mean.spec_is_finite() ==> score == mean
            &&& !sum.spec_is_finite() ==> held
            &&& sum.spec_is_finite() && !bonus.spec_is_nan() ==> (held <==> cap.below(bonus))
        }),
        !bonus.spec_is_nan() && !cap.spec_is_nan() ==> !bonus.below(lesser(bonus, cap))
            && !cap.below(lesser(bonus, cap)),
{
    zero_is_finite();
}

proof fn zero_is_finite()
    ensures
        (Real { bits: 0 }).spec_is_finite(),
{
    assert(0u64 / HIDDEN == 0);
}

proof fn wild_is_first(s: Seq<Real>, i: int)
    requires
        0 <= i <= s.len(),
    ensures
        i <= first_wild(s, i) <= s.len(),
        first_wild(s, i) < s.len() ==> !s[first_wild(s, i)].spec_is_finite(),
        forall|k: int| i <= k < first_wild(s, i) ==> (#[trigger] s[k]).spec_is_finite(),
    decreases s.len() - i,
{
    if i < s.len() && s[i].spec_is_finite() {
        wild_is_first(s, i + 1);
    }
}

/// Features are taken where there are as many as expected and all are finite, and
/// refused everywhere else.
pub proof fn features_are_checked(x: Seq<Real>, y: Seq<Real>, dx: int, dy: int)
    ensures
        vector_fault(x, dx) is None <==> x.len() == dx && all_finite(x),
        features_fault(x, y, dx, dy) is None <==> x.len() == dx && y.len() == dy && all_finite(x)
            && all_finite(y),
{
    wild_is_first(x, 0);
    wild_is_first(y, 0);
}

/// A bucket starts with the weights of the graph where that has enough, else with
/// equal ones, and with a state for each.
pub proof fn buckets_start_with_weights(graph: Seq<Real>, n: nat, i: int, j: int)
    requires
        0 <= i < n,
        0 <= j < n,
    ensures
        first_weights(graph, n).len() == n,
        graph.len() >= n ==> first_weights(graph, n)[i] == graph[i],
        graph.len() < n ==> first_weights(graph, n)[i] == first_weights(graph, n)[j],
{
}

/// Each candidate starts with states of its own kind: even beliefs, bounds that have
/// seen nothing, or the weights.
pub proof fn candidates_start_with_states(c: CandidateId, w: Seq<Real>, i: int)
    requires
        0 <= i < w.len(),
    ensures
        first_states(c, w).len() == w.len(),
        c == CandidateId::Thompson ==> (first_states(c, w)[i] matches StateView::BetaBernoulli {
            alpha,
            beta,
        } && alpha == beta && alpha.bits == ONE),
        c == CandidateId::Ucb ==> (first_states(c, w)[i] matches StateView::Ucb {
            tries,
            total_reward,
        } && tries.bits == 0 && total_reward.bits == 0),
        c != CandidateId::Thompson && c != CandidateId::Ucb ==> first_states(c, w)[i] == (
        StateView::Weighted { weight: w[i] }),
{
}

/// Linear models of another dimension are made anew; those of the right one stay.
pub proof fn linear_models_have_their_dimension(s: StateView, d: usize, lambda: Real, inverse: Real)
    ensures
        linear_at(s, d, lambda, inverse) matches StateView::LinUcb { state } && state.d == d,
        (s matches StateView::LinUcb { state } && state.d == d) ==> linear_at(s, d, lambda, inverse)
            == s,
        linear_at(linear_at(s, d, lambda, inverse), d, lambda, inverse) == linear_at(
            s,
            d,
            lambda,
            inverse,
        ),
{
}

/// A fresh model has the penalty on its diagonal, what undoes it on the diagonal of
/// the inverse, and zero everywhere else.
pub proof fn fresh_models_are_diagonal(d: usize, lambda: Real, inverse: Real, i: int, j: int)
    requires
        0 <= i < d,
        0 <= j < d,
    ensures
        ({
            let m = fresh_model(d, lambda, inverse);
            &&& m.a.len() == d && m.a[i].len() == d && m.a_inv.len() == d && m.b.len() == d
            &&& i == j ==> m.a[i][j] == lambda && m.a_inv[i][j] == inverse
            &&& i != j ==> m.a[i][j].bits == 0 && m.a_inv[i][j].bits == 0
            &&& m.b[i].bits == 0
            &&& m.since_last_rebuild == 0
        }),
{
}

} // verus!
