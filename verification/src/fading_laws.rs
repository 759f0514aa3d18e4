//! How what was learned fades, and what is kept for several objectives and signals.

use crate::feedback::{Faded, aged, faded_state, faded_stats, fitting_states, objectives_recorded, signal_fault};
use crate::learning::{all_fit, fits_algorithm, signal_place};
use crate::learning_config::{DelayedSignalSpec, LearningConfig};
use crate::learning_memory::StateView;
use crate::learning_sections::Algorithm;
use crate::learning_stats::StatsView;
use crate::number::Real;
use vstd::prelude::*;

verus! {

/// Sums fade where a factor between zero and one forgets them, or where they halve
/// over feedbacks; counts fade only with the factor, and what is no sum or count not
/// at all.
pub proof fn sums_fade_and_counts_forget(s: StatsView, f: Faded, c: LearningConfig)
    ensures
        ({
            let r = faded_stats(s, f, c);
            let x = c.safety.option_state_forgetting;
            let forgetting = x.below(Real { bits: 0x3FF0_0000_0000_0000 }) && (Real {
                bits: 0,
            }).below(x);
            let halving = c.decay.enabled && !c.decay.half_life_feedbacks.at_most(
                Real { bits: 0 },
            );
            &&& forgetting || halving ==> r.reward_sum == f.reward_sum && r.reward_sq_sum
                == f.reward_sq_sum && r.effective_tries == f.effective_tries
            &&& !forgetting && !halving ==> r == s
            &&& forgetting ==> r.tries == f.tries && r.successes == f.successes && r.failures
                == f.failures
            &&& !forgetting ==> r.tries == s.tries && r.successes == s.successes && r.failures
                == s.failures
            &&& r.last_reward == s.last_reward && r.window == s.window && r.last_updated
                == s.last_updated && r.posterior_mean == s.posterior_mean && r.change_points
                == s.change_points
        }),
{
}

/// Beliefs and bounds fade with the factor; weights and linear models do not.
pub proof fn states_fade_by_kind(s: StateView, p: (Real, Real), c: LearningConfig)
    ensures
        ({
            let r = faded_state(s, p, c);
            let fades = c.safety.option_state_forgetting.below(
                Real { bits: 0x3FF0_0000_0000_0000 },
            );
            &&& !fades || s is Weighted || s is LinUcb ==> r == s
            &&& fades && s is BetaBernoulli ==> r == (StateView::BetaBernoulli {
                alpha: p.0,
                beta: p.1,
            })
            &&& fades && s is Ucb ==> r == (StateView::Ucb { tries: p.0, total_reward: p.1 })
        }),
{
}

/// With time, statistics fade that were tried and updated and lose more than a
/// hundredth; at least one try is left of them.
pub proof fn statistics_age(s: StatsView, factor: Real, f: Faded)
    ensures
        ({
            let r = aged(s, factor, f);
            let ages = s.tries > 0 && s.last_updated > 0 && !(Real {
                bits: 0x3FEF_AE14_7AE1_47AE,
            }).at_most(factor);
            &&& !ages ==> r == s
            &&& ages ==> r.tries >= 1 && (f.tries >= 1 ==> r.tries == f.tries) && r.reward_sum
                == f.reward_sum && r.effective_tries == f.effective_tries && r.successes
                == f.successes && r.failures == f.failures && r.last_updated == s.last_updated
                && r.reward_sq_sum == f.reward_sq_sum
        }),
{
}

/// States of another kind than the algorithm keeps are made anew, all of them: even
/// beliefs, bounds without tries, or the weights. States of the right kind stay.
pub proof fn states_fit_the_algorithm(s: Seq<StateView>, w: Seq<Real>, a: Algorithm, i: int)
    requires
        0 <= i < s.len(),
    ensures
        ({
            let r = fitting_states(s, w, a);
            &&& r.len() == s.len()
            &&& a is ThompsonSampling ==> r[i] is BetaBernoulli
            &&& a is Ucb1 ==> r[i] is Ucb
            &&& !(a is ThompsonSampling) && !(a is Ucb1) ==> r[i] is Weighted
            &&& (forall|k: int| 0 <= k < s.len() ==> fits_algorithm(#[trigger] s[k], a)) ==> r == s
            &&& !fits_algorithm(s[i], a) && !(a is ThompsonSampling) && !(a is Ucb1) && i < w.len()
                ==> r[i] == (StateView::Weighted { weight: w[i] })
            &&& !fits_algorithm(s[i], a) && a is ThompsonSampling ==> r[i] == (
            StateView::BetaBernoulli {
                alpha: Real { bits: 0x3FF0_0000_0000_0000 },
                beta: Real { bits: 0x3FF0_0000_0000_0000 },
            })
            &&& !fits_algorithm(s[i], a) && a is Ucb1 ==> r[i] == (StateView::Ucb {
                tries: Real { bits: 0 },
                total_reward: Real { bits: 0 },
            })
        }),
{
    if all_fit(s, a) {
        assert(fits_algorithm(s[i], a));
    }
}

proof fn first_objectives_are_recorded(
    s: StatsView,
    rewards: Seq<(String, Real)>,
    sums: Seq<Real>,
    n: int,
    k: int,
)
    requires
        0 <= n <= rewards.len(),
        sums.len() == rewards.len(),
        0 <= k < n,
        forall|i: int, j: int|
            0 <= i < j < rewards.len() ==> (#[trigger] rewards[i]).0@ != (
            #[trigger] rewards[j]).0@,
    ensures
        ({
            let r = objectives_recorded(s, rewards, sums, n);
            let name = rewards[k].0@;
            &&& r.objective_rewards.contains_key(name) && r.objective_rewards[name] == sums[k]
            &&& r.objective_counts.contains_key(name)
            &&& s.objective_counts.contains_key(name) ==> r.objective_counts[name] == (
            s.objective_counts[name] + 1) as u64
            &&& !s.objective_counts.contains_key(name) ==> r.objective_counts[name] == 1
        }),
    decreases n,
{
    if k < n - 1 {
        first_objectives_are_recorded(s, rewards, sums, n - 1, k);
        assert(rewards[k].0@ != rewards[n - 1].0@);
    } else {
        others_are_left(s, rewards, sums, n - 1, rewards[k].0@);
    }
}

proof fn others_are_left(
    s: StatsView,
    rewards: Seq<(String, Real)>,
    sums: Seq<Real>,
    n: int,
    name: Seq<char>,
)
    requires
        0 <= n <= rewards.len(),
        forall|i: int| 0 <= i < n ==> (#[trigger] rewards[i]).0@ != name,
    ensures
        ({
            let r = objectives_recorded(s, rewards, sums, n);
            &&& r.objective_rewards.contains_key(name) <==> s.objective_rewards.contains_key(name)
            &&& s.objective_rewards.contains_key(name) ==> r.objective_rewards[name]
                == s.objective_rewards[name]
            &&& r.objective_counts.contains_key(name) <==> s.objective_counts.contains_key(name)
            &&& s.objective_counts.contains_key(name) ==> r.objective_counts[name]
                == s.objective_counts[name]
            &&& r.tries == s.tries && r.reward_sum == s.reward_sum
        }),
    decreases n,
{
    if n > 0 {
        others_are_left(s, rewards, sums, n - 1, name);
        assert(rewards[n - 1].0@ != name);
    }
}

/// Each objective that was rewarded has its new sum and one more count; the others
/// are as they were.
pub proof fn objectives_are_recorded_each(
    s: StatsView,
    rewards: Seq<(String, Real)>,
    sums: Seq<Real>,
    k: int,
    other: Seq<char>,
)
    requires
        sums.len() == rewards.len(),
        0 <= k < rewards.len(),
        forall|i: int, j: int|
            0 <= i < j < rewards.len() ==> (#[trigger] rewards[i]).0@ != (
            #[trigger] rewards[j]).0@,
        forall|i: int| 0 <= i < rewards.len() ==> (#[trigger] rewards[i]).0@ != other,
        s.objective_counts.contains_key(rewards[k].0@) ==> s.objective_counts[rewards[k].0@]
            < u64::MAX,
    ensures
        ({
            let r = objectives_recorded(s, rewards, sums, rewards.len() as int);
            let name = rewards[k].0@;
            &&& r.objective_rewards[name] == sums[k]
            &&& r.objective_counts[name] == (if s.objective_counts.contains_key(name) {
                s.objective_counts[name] + 1
            } else {
                1
            })
            &&& s.objective_counts.contains_key(other) ==> r.objective_counts[other]
                == s.objective_counts[other] && r.objective_counts.contains_key(other)
            &&& r.tries == s.tries && r.reward_sum == s.reward_sum
        }),
{
    first_objectives_are_recorded(s, rewards, sums, rewards.len() as int, k);
    others_are_left(s, rewards, sums, rewards.len() as int, other);
}

proof fn signal_is_first(s: Seq<DelayedSignalSpec>, name: Seq<char>, i: int)
    requires
        0 <= i <= s.len(),
    ensures
        i <= signal_place(s, name, i) <= s.len(),
        signal_place(s, name, i) < s.len() ==> s[signal_place(s, name, i)].name@ == name,
        forall|k: int| i <= k < signal_place(s, name, i) ==> (#[trigger] s[k]).name@ != name,
    decreases s.len() - i,
{
    if i < s.len() && s[i].name@ != name {
        signal_is_first(s, name, i + 1);
    }
}

/// Signals are taken that are declared, under the rules of all feedback; the first
/// declaration of a name counts.
pub proof fn declared_signals_are_taken(c: LearningConfig, option: int, n: int, name: Seq<char>)
    requires
        0 <= option,
    ensures
        ({
            let s = c.delayed_feedback.signals@;
            let at = signal_place(s, name, 0);
            &&& signal_fault(c, option, n, name) is None <==> !c.safety.freeze_learning && option < n
                && exists|k: int| 0 <= k < s.len() && (#[trigger] s[k]).name@ == name
            &&& forall|k: int| 0 <= k < s.len() && (#[trigger] s[k]).name@ == name ==> at <= k
            &&& at < s.len() ==> s[at].name@ == name
        }),
{
    let s = c.delayed_feedback.signals@;
    signal_is_first(s, name, 0);
}

} // verus!
