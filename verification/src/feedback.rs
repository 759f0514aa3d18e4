//! Feedback: what a reward does to all that is kept for a context.
use crate::conformal::latest;
use crate::feature_schema::lesser;
use crate::learning::{all_fit, begin_feedback, begin_signal, check_all_fit, check_change_point_model_surprise, check_change_point_page_hinkley, clipped, count_feedback, counted, ensure_option_states_match_algorithm, feedback_fault, page_hinkley, raised, restarted, restarted_states_fit, signal_place, surprise};
use crate::learning_config::LearningConfig;
use crate::learning_memory::{BucketView, ContextBucket, OptionState, StateView, share_of};
use crate::learning_sections::{Algorithm, ChangeDetectionConfig, ChangeDetectionMethod, DecayConfig};
use crate::learning_stats::{OptionStats, StatsView};
use crate::number::{ONE, Real, real_of_int};
use crate::real_constants::{R_0_0001, R_0_01, R_0_5, R_0_99, R_1EM09};
use crate::table::Table;
use vstd::prelude::*;
use vstd::string::StringExecFns;

verus! {

/// The bits of one less a billionth.
pub const ALMOST_ONE: u64 = 0x3FEF_FFFF_FF76_8FA1;

/// An option's accumulated numbers after fading.
#[derive(Clone, Copy, Debug)]
pub struct Faded {
    pub reward_sum: Real,
    pub reward_sq_sum: Real,
    pub effective_tries: Real,
    pub tries: u64,
    pub successes: u64,
    pub failures: u64,
}

/// What the host computes for a feedback.
#[derive(Debug)]
pub struct FeedbackNumbers {
    /// Each option's numbers after fading.
    pub faded: Vec<Faded>,
    /// The chosen option's sums of rewards, of their squares and of its tries,
    /// with this one added.
    pub sums: (Real, Real, Real),
    /// The sums of deviations, up and down, with the latest added.
    pub up: Real,
    pub down: Real,
    /// How many deviations the reward lies from the mean of its window.
    pub deviation: Real,
    /// The shares of surprises in the window, with this reward counted as one and
    /// without it.
    pub shares: (Real, Real),
    /// The mean and the variance of what is believed of the chosen option.
    pub posterior: (Real, Real),
    /// The distance between the reward and what was predicted.
    pub residual: Real,
    /// The sum of the moved weights, and the weights scaled by it.
    pub sum: Real,
    pub scaled: Vec<Real>,
    /// The two numbers of each option's state after fading.
    pub states: Vec<(Real, Real)>,
    /// The two numbers of the chosen option's state with the reward added.
    pub chosen: (Real, Real),
    /// The weights of the other options' states, moved the other way.
    pub others: Vec<Real>,
}

/// Whether accumulated numbers are forgotten bit by bit.
pub open spec fn forgets(c: LearningConfig) -> bool {
    c.safety.option_state_forgetting.below(Real { bits: ONE }) && (Real { bits: 0 }).below(
        c.safety.option_state_forgetting,
    )
}

/// Whether sums halve over a number of feedbacks.
pub open spec fn decays(c: LearningConfig) -> bool {
    c.decay.enabled && !c.decay.half_life_feedbacks.at_most(Real { bits: 0 })
}

/// An option's statistics after fading.
pub open spec fn faded_stats(s: StatsView, f: Faded, c: LearningConfig) -> StatsView {
    StatsView {
        reward_sum: if forgets(c) || decays(c) {
            f.reward_sum
        } else {
            s.reward_sum
        },
        reward_sq_sum: if forgets(c) || decays(c) {
            f.reward_sq_sum
        } else {
            s.reward_sq_sum
        },
        effective_tries: if forgets(c) || decays(c) {
            f.effective_tries
        } else {
            s.effective_tries
        },
        tries: if forgets(c) {
            f.tries
        } else {
            s.tries
        },
        successes: if forgets(c) {
            f.successes
        } else {
            s.successes
        },
        failures: if forgets(c) {
            f.failures
        } else {
            s.failures
        },
        ..s
    }
}

/// The statistics after the search for a shift.
pub open spec fn searched(s: StatsView, n: FeedbackNumbers, c: ChangeDetectionConfig) -> StatsView {
    if !c.enabled {
        s
    } else {
        match c.method {
            ChangeDetectionMethod::PageHinkley => page_hinkley(s, n.up, n.down, c).0,
            ChangeDetectionMethod::ModelSurprise => surprise(s, n.deviation, n.shares, c).0,
        }
    }
}

/// The chosen option's statistics after a reward.
pub open spec fn rewarded_stats(
    s: StatsView,
    reward: Real,
    n: FeedbackNumbers,
    c: LearningConfig,
    now: u64,
) -> StatsView {
    let found = searched(counted(s, reward, n.sums, now, c.window), n, c.change_detection);
    if c.delayed_feedback.enabled {
        found
    } else {
        StatsView { posterior_mean: n.posterior.0, posterior_var: n.posterior.1, ..found }
    }
}

/// All statistics after a reward for an option.
pub open spec fn stats_after(
    s: Seq<StatsView>,
    option: int,
    reward: Real,
    n: FeedbackNumbers,
    c: LearningConfig,
    now: u64,
) -> Seq<StatsView> {
    let faded = Seq::new(s.len(), |i: int| faded_stats(s[i], n.faded@[i], c));
    if option < s.len() {
        faded.update(option, rewarded_stats(faded[option], reward, n, c, now))
    } else {
        faded
    }
}

/// The residuals after a reward. Linear models are calibrated elsewhere.
pub open spec fn residuals_after(b: BucketView, option: int, residual: Real) -> Seq<Real> {
    if option < b.option_states.len() && !(b.option_states[option] is LinUcb)
        && residual.spec_is_finite() {
        latest(b.residuals.push(residual), b.max_size as int)
    } else {
        b.residuals
    }
}

/// The weights after a reward: scaled, or all alike where their sum is not
/// positive.
pub open spec fn weights_after(n: FeedbackNumbers, count: nat) -> Seq<Real> {
    if (Real { bits: 0 }).below(n.sum) {
        n.scaled@
    } else {
        Seq::new(count, |i: int| share_of(count))
    }
}

/// How a reward counts for what is believed of a success.
#[derive(Clone, Copy, Debug, PartialEq, Eq, Structural)]
pub enum Credit {
    Success,
    Failure,
    /// So much of a success, and the rest of a failure.
    Part(Real),
}

pub open spec fn credit_of(reward: Real) -> Credit {
    if (Real { bits: ALMOST_ONE }).at_most(reward) {
        Credit::Success
    } else if reward.at_most(Real { bits: R_1EM09 }) {
        Credit::Failure
    } else {
        Credit::Part(reward.spec_clamp(Real { bits: 0 }, Real { bits: ONE }))
    }
}

/// How a reward counts for what is believed of a success.
pub fn credit(reward: Real) -> (c: Credit)
    ensures
        c == credit_of(reward),
{
    if (Real { bits: ALMOST_ONE }).le(reward) {
        Credit::Success
    } else if reward.le(Real { bits: R_1EM09 }) {
        Credit::Failure
    } else {
        Credit::Part(reward.clamp(Real { bits: 0 }, Real { bits: ONE }))
    }
}

/// A weight held between the least and the greatest that an option may have.
pub open spec fn held(w: Real) -> Real {
    w.spec_clamp(Real { bits: R_0_01 }, Real { bits: R_0_99 })
}

/// An option's state after fading. Weights are no sums, and do not fade.
pub open spec fn faded_state(s: StateView, p: (Real, Real), c: LearningConfig) -> StateView {
    if !c.safety.option_state_forgetting.below(Real { bits: ONE }) {
        s
    } else {
        match s {
            StateView::BetaBernoulli { .. } => StateView::BetaBernoulli { alpha: p.0, beta: p.1 },
            StateView::Ucb { .. } => StateView::Ucb { tries: p.0, total_reward: p.1 },
            _ => s,
        }
    }
}

/// The chosen option's state after a reward.
pub open spec fn rewarded_state(s: StateView, reward: Real, p: (Real, Real)) -> StateView {
    match s {
        StateView::Weighted { .. } => StateView::Weighted { weight: held(p.0) },
        StateView::BetaBernoulli { alpha, beta } => match credit_of(reward) {
            Credit::Success => StateView::BetaBernoulli { alpha: p.0, beta },
            Credit::Failure => StateView::BetaBernoulli { alpha, beta: p.1 },
            Credit::Part(_) => StateView::BetaBernoulli { alpha: p.0, beta: p.1 },
        },
        StateView::Ucb { .. } => StateView::Ucb { tries: p.0, total_reward: p.1 },
        StateView::LinUcb { .. } => s,
    }
}

/// All states after a reward for an option.
pub open spec fn states_after(
    s: Seq<StateView>,
    option: int,
    reward: Real,
    n: FeedbackNumbers,
    c: LearningConfig,
) -> Seq<StateView> {
    if option >= s.len() {
        s
    } else {
        Seq::new(
            s.len(),
            |i: int|
                if i == option {
                    rewarded_state(faded_state(s[i], n.states@[i], c), reward, n.chosen)
                } else if s[option] is Weighted && s[i] is Weighted {
                    StateView::Weighted { weight: held(n.others@[i]) }
                } else {
                    faded_state(s[i], n.states@[i], c)
                },
        )
    }
}

/// The states, or fresh ones where they are not of the kind that the algorithm
/// keeps.
pub open spec fn fitting_states(s: Seq<StateView>, weights: Seq<Real>, a: Algorithm) -> Seq<
    StateView,
> {
    if all_fit(s, a) {
        s
    } else {
        restarted(weights, s.len(), a)
    }
}

/// The two numbers of a state; zeros for a linear model, which has others.
pub open spec fn state_pair(s: StateView) -> (Real, Real) {
    match s {
        StateView::Weighted { weight } => (weight, Real { bits: 0 }),
        StateView::BetaBernoulli { alpha, beta } => (alpha, beta),
        StateView::Ucb { tries, total_reward } => (tries, total_reward),
        StateView::LinUcb { .. } => (Real { bits: 0 }, Real { bits: 0 }),
    }
}

/// The two numbers of each state that feedback starts from. `weights` are those
/// that feedback leaves.
pub fn state_numbers(bucket: &ContextBucket, weights: &Vec<Real>, a: Algorithm) -> (r: Vec<
    (Real, Real),
>)
    requires
        bucket.option_states@.len() <= 0x20_0000_0000_0000,
    ensures
        r@ == fitting_states(bucket.seen().option_states, weights@, a).map_values(
            |s: StateView| state_pair(s),
        ),
{
    let fits = check_all_fit(&bucket.option_states, a);
    let n: usize = bucket.option_states.len();
    let ghost sv = bucket.seen().option_states;
    let ghost goal = fitting_states(sv, weights@, a);
    let zero = Real::zero();
    let one = Real::one();
    let mut r: Vec<(Real, Real)> = Vec::new();
    let mut i: usize = 0;
    while i < n
        invariant
            i <= n,
            n == bucket.option_states@.len(),
            n <= 0x20_0000_0000_0000,
            sv == bucket.seen().option_states,
            fits == all_fit(sv, a),
            goal == fitting_states(sv, weights@, a),
            zero == (Real { bits: 0 }),
            one == (Real { bits: ONE }),
            r@.len() == i,
            forall|k: int| 0 <= k < i ==> #[trigger] r@[k] == state_pair(goal[k]),
        decreases n - i,
    {
        assert(sv[i as int] == bucket.option_states@[i as int].seen());
        let p = if fits {
            match &bucket.option_states[i] {
                OptionState::Weighted { weight } => (*weight, zero),
                OptionState::BetaBernoulli { alpha, beta } => (*alpha, *beta),
                OptionState::Ucb { tries, total_reward } => (*tries, *total_reward),
                OptionState::LinUcb { .. } => (zero, zero),
            }
        } else {
            match a {
                Algorithm::ThompsonSampling => (one, one),
                Algorithm::Ucb1 => (zero, zero),
                _ => (
                    if i < weights.len() {
                        weights[i]
                    } else {
                        Real::share(n as u64)
                    },
                    zero,
                ),
            }
        };
        assert(p == state_pair(goal[i as int]));
        r.push(p);
        i = i + 1;
    }
    assert(r@ =~= goal.map_values(|s: StateView| state_pair(s)));
    r
}

/// What is kept for a context after a reward for an option.
pub open spec fn fed(
    b: BucketView,
    option: int,
    reward: Real,
    n: FeedbackNumbers,
    c: LearningConfig,
    now: u64,
) -> BucketView {
    let weights = weights_after(n, b.weights.len());
    let fitting = fitting_states(b.option_states, weights, c.algorithm);
    BucketView {
        weights,
        stats: stats_after(b.stats, option, reward, n, c, now),
        updated_at: now,
        option_states: states_after(fitting, option, reward, n, c),
        residuals: residuals_after(b, option, n.residual),
        ..b
    }
}

/// There are as many numbers as options, and counts have room.
pub open spec fn numbers_fit(n: FeedbackNumbers, b: BucketView, option: int, c: LearningConfig) -> bool {
    &&& n.faded@.len() == b.stats.len()
    &&& n.scaled@.len() == b.weights.len()
    &&& n.states@.len() == b.option_states.len()
    &&& n.others@.len() == b.option_states.len()
    &&& b.weights.len() <= 0x20_0000_0000_0000
    &&& b.option_states.len() <= 0x20_0000_0000_0000
    &&& option < b.stats.len() ==> {
        let s = faded_stats(b.stats[option], n.faded@[option], c);
        s.tries < u64::MAX && s.successes < u64::MAX && s.failures < u64::MAX && s.change_points
            < u32::MAX
    }
}

fn fade_stats(bucket: &mut ContextBucket, faded: &Vec<Faded>, config: &LearningConfig)
    requires
        old(bucket).wf(),
        faded@.len() == old(bucket).stats@.len(),
    ensures
        final(bucket).wf(),
        final(bucket).seen() == (BucketView {
            stats: Seq::new(
                old(bucket).stats@.len(),
                |i: int| faded_stats(old(bucket).seen().stats[i], faded@[i], *config),
            ),
            ..old(bucket).seen()
        }),
{
    let zero = Real::zero();
    let forgetting = config.safety.option_state_forgetting.lt(Real::one()) && zero.lt(
        config.safety.option_state_forgetting,
    );
    let decaying = config.decay.enabled && !config.decay.half_life_feedbacks.le(zero);
    let ghost before = bucket.seen();
    let n: usize = bucket.stats.len();
    let mut i: usize = 0;
    while i < n
        invariant
            i <= n,
            n == bucket.stats@.len(),
            n == faded@.len(),
            n == before.stats.len(),
            bucket.wf(),
            forgetting == forgets(*config),
            decaying == decays(*config),
            bucket.seen() == (BucketView { stats: bucket.seen().stats, ..before }),
            forall|k: int|
                0 <= k < i ==> (#[trigger] bucket.stats@[k]).seen() == faded_stats(
                    before.stats[k],
                    faded@[k],
                    *config,
                ),
            forall|k: int| i <= k < n ==> (#[trigger] bucket.stats@[k]).seen() == before.stats[k],
        decreases n - i,
    {
        let ghost all = bucket.stats@;
        let mut s = bucket.stats.remove(i);
        assert(s == all[i as int]);
        if forgetting || decaying {
            s.reward_sum = faded[i].reward_sum;
            s.reward_sq_sum = faded[i].reward_sq_sum;
            s.effective_tries = faded[i].effective_tries;
        }
        if forgetting {
            s.tries = faded[i].tries;
            s.successes = faded[i].successes;
            s.failures = faded[i].failures;
        }
        bucket.stats.insert(i, s);
        assert(bucket.stats@ =~= all.update(i as int, s));
        i = i + 1;
    }
    assert(bucket.seen().stats =~= Seq::new(
        before.stats.len(),
        |i: int| faded_stats(before.stats[i], faded@[i], *config),
    ));
}

fn reward_stats(
    s: &mut OptionStats,
    reward: Real,
    numbers: &FeedbackNumbers,
    config: &LearningConfig,
    now: u64,
)
    requires
        old(s).wf(),
        old(s).tries < u64::MAX,
        old(s).successes < u64::MAX,
        old(s).failures < u64::MAX,
        old(s).change_points < u32::MAX,
    ensures
        final(s).wf(),
        final(s).seen() == rewarded_stats(old(s).seen(), reward, *numbers, *config, now),
{
    count_feedback(s, reward, numbers.sums, now, &config.window);
    if config.change_detection.enabled {
        match config.change_detection.method {
            ChangeDetectionMethod::PageHinkley => {
                let _ = check_change_point_page_hinkley(
                    s,
                    numbers.up,
                    numbers.down,
                    &config.change_detection,
                );
            },
            ChangeDetectionMethod::ModelSurprise => {
                let _ = check_change_point_model_surprise(
                    s,
                    numbers.deviation,
                    numbers.shares,
                    &config.change_detection,
                );
            },
        }
    }
    if !config.delayed_feedback.enabled {
        s.posterior_mean = numbers.posterior.0;
        s.posterior_var = numbers.posterior.1;
    }
}

fn set_weights(bucket: &mut ContextBucket, numbers: &FeedbackNumbers)
    requires
        0 < old(bucket).weights@.len() <= 0x20_0000_0000_0000,
        numbers.scaled@.len() == old(bucket).weights@.len(),
    ensures
        final(bucket).weights@ == weights_after(*numbers, old(bucket).weights@.len()),
        final(bucket).seen() == (BucketView {
            weights: final(bucket).weights@,
            ..old(bucket).seen()
        }),
        final(bucket).stats == old(bucket).stats,
{
    let n: usize = bucket.weights.len();
    let positive = Real::zero().lt(numbers.sum);
    let share = Real::share(n as u64);
    let mut w: Vec<Real> = Vec::new();
    let mut i: usize = 0;
    while i < n
        invariant
            i <= n,
            n == numbers.scaled@.len(),
            w@.len() == i,
            forall|k: int|
                0 <= k < i ==> w@[k] == (if positive {
                    numbers.scaled@[k]
                } else {
                    share
                }),
        decreases n - i,
    {
        w.push(
            if positive {
                numbers.scaled[i]
            } else {
                share
            },
        );
        i = i + 1;
    }
    assert(w@ =~= weights_after(*numbers, n as nat));
    bucket.weights = w;
}

fn move_states(
    bucket: &mut ContextBucket,
    option: usize,
    reward: Real,
    numbers: &FeedbackNumbers,
    config: &LearningConfig,
)
    requires
        numbers.states@.len() == old(bucket).option_states@.len(),
        numbers.others@.len() == old(bucket).option_states@.len(),
    ensures
        final(bucket).seen() == (BucketView {
            option_states: states_after(
                old(bucket).seen().option_states,
                option as int,
                reward,
                *numbers,
                *config,
            ),
            ..old(bucket).seen()
        }),
        final(bucket).stats == old(bucket).stats,
{
    let n: usize = bucket.option_states.len();
    if option >= n {
        return ;
    }
    let ghost before = bucket.seen();
    let ghost goal = states_after(before.option_states, option as int, reward, *numbers, *config);
    let fading = config.safety.option_state_forgetting.lt(Real::one());
    let by_weight = match &bucket.option_states[option] {
        OptionState::Weighted { .. } => true,
        _ => false,
    };
    assert(before.option_states[option as int] == bucket.option_states@[option as int].seen());
    let lo = Real { bits: R_0_01 };
    let hi = Real { bits: R_0_99 };
    let mut i: usize = 0;
    while i < n
        invariant
            i <= n,
            option < n,
            n == bucket.option_states@.len(),
            n == numbers.states@.len(),
            n == numbers.others@.len(),
            n == before.option_states.len(),
            goal == states_after(before.option_states, option as int, reward, *numbers, *config),
            fading == config.safety.option_state_forgetting.below(Real { bits: ONE }),
            by_weight == (before.option_states[option as int] is Weighted),
            lo == (Real { bits: R_0_01 }),
            hi == (Real { bits: R_0_99 }),
            bucket.stats == old(bucket).stats,
            bucket.seen() == (BucketView { option_states: bucket.seen().option_states, ..before }),
            forall|k: int| 0 <= k < i ==> (#[trigger] bucket.option_states@[k]).seen() == goal[k],
            forall|k: int|
                i <= k < n ==> (#[trigger] bucket.option_states@[k]).seen()
                    == before.option_states[k],
        decreases n - i,
    {
        let ghost all = bucket.option_states@;
        let s = bucket.option_states.remove(i);
        assert(s == all[i as int]);
        let p = numbers.states[i];
        let after = match s {
            OptionState::Weighted { weight } => OptionState::Weighted {
                weight: if i == option {
                    numbers.chosen.0.clamp(lo, hi)
                } else if by_weight {
                    numbers.others[i].clamp(lo, hi)
                } else {
                    weight
                },
            },
            OptionState::BetaBernoulli { alpha, beta } => {
                let (a, b) = if fading {
                    p
                } else {
                    (alpha, beta)
                };
                if i != option {
                    OptionState::BetaBernoulli { alpha: a, beta: b }
                } else {
                    match credit(reward) {
                        Credit::Success => OptionState::BetaBernoulli {
                            alpha: numbers.chosen.0,
                            beta: b,
                        },
                        Credit::Failure => OptionState::BetaBernoulli {
                            alpha: a,
                            beta: numbers.chosen.1,
                        },
                        Credit::Part(_) => OptionState::BetaBernoulli {
                            alpha: numbers.chosen.0,
                            beta: numbers.chosen.1,
                        },
                    }
                }
            },
            OptionState::Ucb { tries, total_reward } => if i == option {
                OptionState::Ucb { tries: numbers.chosen.0, total_reward: numbers.chosen.1 }
            } else if fading {
                OptionState::Ucb { tries: p.0, total_reward: p.1 }
            } else {
                OptionState::Ucb { tries, total_reward }
            },
            other => other,
        };
        assert(after.seen() == goal[i as int]);
        bucket.option_states.insert(i, after);
        assert(bucket.option_states@ =~= all.update(i as int, after));
        i = i + 1;
    }
    assert(bucket.seen().option_states =~= goal);
}

/// Takes a reward for an option, given what the host computed: the statistics
/// and the states fade, the chosen option's take the reward, and the weights
/// move. Nothing changes where the feedback is refused.
pub fn apply_feedback(
    bucket: &mut ContextBucket,
    option: usize,
    reward: Real,
    config: &LearningConfig,
    numbers: &FeedbackNumbers,
    now: u64,
) -> (r: Result<(), String>)
    requires
        old(bucket).wf(),
        feedback_fault(*config, option as int, old(bucket).weights@.len() as int) is None
            ==> numbers_fit(*numbers, old(bucket).seen(), option as int, *config),
    ensures
        final(bucket).wf(),
        match feedback_fault(*config, option as int, old(bucket).weights@.len() as int) {
            Some(e) => r is Err && r->Err_0@ == e && *final(bucket) == *old(bucket),
            None => r is Ok && final(bucket).seen() == fed(
                old(bucket).seen(),
                option as int,
                clipped(reward, config.safety.reward_clip),
                *numbers,
                *config,
                now,
            ),
        },
{
    let held = match begin_feedback(bucket, option, reward, config) {
        Ok(x) => x,
        Err(e) => {
            return Err(e);
        },
    };
    let ghost b0 = bucket.seen();
    fade_stats(bucket, &numbers.faded, config);
    let ghost faded = bucket.seen().stats;
    assert(faded.len() == bucket.stats@.len());
    assert(b0.stats.len() == faded.len());
    if option < bucket.stats.len() {
        let ghost all = bucket.stats@;
        let mut s = bucket.stats.remove(option);
        assert(s == all[option as int]);
        assert(faded[option as int] == s.seen());
        assert(s.seen() == faded_stats(
            b0.stats[option as int],
            numbers.faded@[option as int],
            *config,
        ));
        reward_stats(&mut s, held, numbers, config, now);
        bucket.stats.insert(option, s);
        assert(bucket.stats@ =~= all.update(option as int, s));
        assert(bucket.seen().stats =~= faded.update(option as int, s.seen()));
    }
    let ghost b1 = bucket.seen();
    assert(b1.stats == stats_after(b0.stats, option as int, held, *numbers, *config, now));
    if option < bucket.option_states.len() {
        assert(b0.option_states[option as int] == bucket.option_states@[option as int].seen());
        let linear = match &bucket.option_states[option] {
            OptionState::LinUcb { .. } => true,
            _ => false,
        };
        if !linear {
            bucket.conformity_calibrator.record(numbers.residual);
        }
    }
    let ghost b2 = bucket.seen();
    assert(b2.residuals == residuals_after(b0, option as int, numbers.residual));
    set_weights(bucket, numbers);
    ensure_option_states_match_algorithm(bucket, config);
    assert(bucket.option_states@.len() == bucket.seen().option_states.len());
    move_states(bucket, option, held, numbers, config);
    bucket.updated_at = now;
    Ok(())
}

/// The statistics after a signal: what is believed of the option, and one more
/// of the signal.
pub open spec fn fused(s: StatsView, name: Seq<char>, posterior: (Real, Real)) -> StatsView {
    StatsView {
        posterior_mean: posterior.0,
        posterior_var: posterior.1,
        signal_counts: s.signal_counts.insert(
            name,
            (if s.signal_counts.contains_key(name) {
                s.signal_counts[name] + 1
            } else {
                1
            }) as u64,
        ),
        ..s
    }
}

/// Takes what is believed of an option after a signal.
pub fn fuse_signal(s: &mut OptionStats, name: &str, posterior: (Real, Real))
    requires
        old(s).wf(),
        old(s).signal_counts@.contains_key(name@) ==> old(s).signal_counts@[name@] < u64::MAX,
    ensures
        final(s).wf(),
        final(s).seen() == fused(old(s).seen(), name@, posterior),
{
    s.posterior_mean = posterior.0;
    s.posterior_var = posterior.1;
    let n: u64 = match s.signal_counts.get(name) {
        Some(k) => *k + 1,
        None => 1,
    };
    s.signal_counts.insert(String::from_str(name), n);
}

/// What is kept for a context after a signal for an option.
pub open spec fn signalled(
    b: BucketView,
    option: int,
    name: Seq<char>,
    posterior: (Real, Real),
) -> BucketView {
    if option < b.stats.len() {
        BucketView {
            stats: b.stats.update(option, fused(b.stats[option], name, posterior)),
            ..b
        }
    } else {
        b
    }
}

/// Why a signal is refused.
pub open spec fn signal_fault(
    c: LearningConfig,
    option: int,
    n: int,
    name: Seq<char>,
) -> Option<Seq<char>> {
    match feedback_fault(c, option, n) {
        Some(e) => Some(e),
        None => if signal_place(c.delayed_feedback.signals@, name, 0)
            < c.delayed_feedback.signals@.len() {
            None
        } else {
            Some("unknown signal '"@ + name + "'"@)
        },
    }
}

/// Takes a signal for an option: what is believed of the option after it, and
/// then that belief as feedback. Nothing changes where the signal is refused.
pub fn apply_feedback_signal(
    bucket: &mut ContextBucket,
    option: usize,
    observed: Real,
    signal_name: &str,
    config: &LearningConfig,
    posterior: (Real, Real),
    numbers: &FeedbackNumbers,
    now: u64,
) -> (r: Result<(), String>)
    requires
        old(bucket).wf(),
        signal_fault(*config, option as int, old(bucket).weights@.len() as int, signal_name@) is None
            ==> {
            &&& numbers_fit(
                *numbers,
                signalled(old(bucket).seen(), option as int, signal_name@, posterior),
                option as int,
                *config,
            )
            &&& option < old(bucket).stats@.len() ==> {
                let counts = old(bucket).seen().stats[option as int].signal_counts;
                counts.contains_key(signal_name@) ==> counts[signal_name@] < u64::MAX
            }
        },
    ensures
        final(bucket).wf(),
        match signal_fault(
            *config,
            option as int,
            old(bucket).weights@.len() as int,
            signal_name@,
        ) {
            Some(e) => r is Err && r->Err_0@ == e && *final(bucket) == *old(bucket),
            None => r is Ok && final(bucket).seen() == fed(
                signalled(old(bucket).seen(), option as int, signal_name@, posterior),
                option as int,
                clipped(
                    if option < old(bucket).stats@.len() {
                        posterior.0
                    } else {
                        clipped(observed, config.safety.reward_clip)
                    },
                    config.safety.reward_clip,
                ),
                *numbers,
                *config,
                now,
            ),
        },
{
    let held = match begin_signal(bucket, option, observed, signal_name, config) {
        Ok((_, x)) => x,
        Err(e) => {
            return Err(e);
        },
    };
    let ghost b0 = bucket.seen();
    let mut effective = held;
    if option < bucket.stats.len() {
        let ghost all = bucket.stats@;
        let mut s = bucket.stats.remove(option);
        assert(s == all[option as int]);
        assert(b0.stats[option as int] == s.seen());
        fuse_signal(&mut s, signal_name, posterior);
        bucket.stats.insert(option, s);
        assert(bucket.stats@ =~= all.update(option as int, s));
        assert(bucket.seen().stats =~= b0.stats.update(option as int, s.seen()));
        effective = posterior.0;
    }
    assert(bucket.seen() == signalled(b0, option as int, signal_name@, posterior));
    apply_feedback(bucket, option, effective, config, numbers, now)
}

/// The statistics after rewards for several objectives, with the sums that each
/// comes to.
pub open spec fn objectives_recorded(
    s: StatsView,
    rewards: Seq<(String, Real)>,
    sums: Seq<Real>,
    n: int,
) -> StatsView
    decreases n,
{
    if n <= 0 {
        s
    } else {
        let before = objectives_recorded(s, rewards, sums, n - 1);
        let name = rewards[n - 1].0@;
        StatsView {
            objective_rewards: before.objective_rewards.insert(name, sums[n - 1]),
            objective_counts: before.objective_counts.insert(
                name,
                (if before.objective_counts.contains_key(name) {
                    before.objective_counts[name] + 1
                } else {
                    1
                }) as u64,
            ),
            ..before
        }
    }
}

/// Every count has room for all the rewards.
pub open spec fn counts_have_room(s: StatsView, n: int) -> bool {
    forall|k: Seq<char>| #[trigger]
        s.objective_counts.contains_key(k) ==> s.objective_counts[k] + n <= u64::MAX
}

proof fn room_is_left(s: StatsView, rewards: Seq<(String, Real)>, sums: Seq<Real>, n: int, more: int)
    requires
        0 <= n,
        1 <= more,
        n + more <= u64::MAX,
        counts_have_room(s, n + more),
    ensures
        counts_have_room(objectives_recorded(s, rewards, sums, n), more),
    decreases n,
{
    if n > 0 {
        room_is_left(s, rewards, sums, n - 1, more + 1);
    }
}

/// What is kept for a context after rewards for several objectives.
pub open spec fn with_objectives(
    b: BucketView,
    option: int,
    rewards: Seq<(String, Real)>,
    sums: Seq<Real>,
) -> BucketView {
    if option < b.stats.len() {
        BucketView {
            stats: b.stats.update(
                option,
                objectives_recorded(b.stats[option], rewards, sums, rewards.len() as int),
            ),
            ..b
        }
    } else {
        b
    }
}

/// Takes rewards for several objectives of an option, and their mean as feedback.
/// The objectives are recorded though the feedback may be refused.
pub fn apply_feedback_multi(
    bucket: &mut ContextBucket,
    option: usize,
    rewards: &Table<Real>,
    sums: &Vec<Real>,
    mean: Real,
    config: &LearningConfig,
    numbers: &FeedbackNumbers,
    now: u64,
) -> (r: Result<(), String>)
    requires
        old(bucket).wf(),
        sums@.len() == rewards.entries@.len(),
        option < old(bucket).stats@.len() ==> counts_have_room(
            old(bucket).seen().stats[option as int],
            sums@.len() as int,
        ),
        feedback_fault(*config, option as int, old(bucket).weights@.len() as int) is None
            ==> numbers_fit(
            *numbers,
            with_objectives(old(bucket).seen(), option as int, rewards.entries@, sums@),
            option as int,
            *config,
        ),
    ensures
        final(bucket).wf(),
        ({
            let b = with_objectives(old(bucket).seen(), option as int, rewards.entries@, sums@);
            match feedback_fault(*config, option as int, old(bucket).weights@.len() as int) {
                Some(e) => r is Err && r->Err_0@ == e && final(bucket).seen() == b,
                None => r is Ok && final(bucket).seen() == fed(
                    b,
                    option as int,
                    clipped(mean, config.safety.reward_clip),
                    *numbers,
                    *config,
                    now,
                ),
            }
        }),
{
    let ghost b0 = bucket.seen();
    if option < bucket.stats.len() {
        let ghost all = bucket.stats@;
        let mut s = bucket.stats.remove(option);
        assert(s == all[option as int]);
        let ghost start = s.seen();
        assert(b0.stats[option as int] == start);
        let n: usize = rewards.entries.len();
        let mut i: usize = 0;
        while i < n
            invariant
                i <= n,
                n == rewards.entries@.len(),
                n == sums@.len(),
                s.wf(),
                s.seen() == objectives_recorded(start, rewards.entries@, sums@, i as int),
                counts_have_room(start, n as int),
            decreases n - i,
        {
            proof {
                room_is_left(start, rewards.entries@, sums@, i as int, n - i);
            }
            assert(s.objective_counts@ == s.seen().objective_counts);
            assert(s.seen().objective_counts.contains_key(rewards.entries@[i as int].0@)
                ==> s.seen().objective_counts[rewards.entries@[i as int].0@] + (n - i)
                <= u64::MAX);
            s.record_objective(rewards.entries[i].0.as_str(), sums[i]);
            i = i + 1;
        }
        bucket.stats.insert(option, s);
        assert(bucket.stats@ =~= all.update(option as int, s));
        assert(bucket.seen().stats =~= b0.stats.update(option as int, s.seen()));
    }
    assert(bucket.seen() == with_objectives(b0, option as int, rewards.entries@, sums@));
    apply_feedback(bucket, option, mean, config, numbers, now)
}

/// The learning rate, held within its bounds.
pub fn bounded_rate(rate: Real) -> (r: Real)
    ensures
        r == rate.spec_clamp(Real { bits: R_0_0001 }, Real { bits: R_0_5 }),
{
    rate.clamp(Real { bits: R_0_0001 }, Real { bits: R_0_5 })
}

/// A change of a weight, held to the most that one feedback may make.
pub fn bounded_delta(delta: Real, most: Real) -> (r: Real)
    requires
        most.spec_negated().at_most(most),
    ensures
        r == delta.spec_clamp(most.spec_negated(), most),
{
    delta.clamp(most.negated(), most)
}

/// How many tries an option's spread is taken over: those that have not faded,
/// where tries fade and there are enough of them, or all; at least one.
pub fn counted_tries(s: &OptionStats, config: &LearningConfig) -> (r: Real)
    ensures
        r == (if config.decay.enabled && (Real { bits: R_0_5 }).below(s.effective_tries) {
            s.effective_tries
        } else {
            real_of_int(s.tries as int)
        }).spec_max(Real { bits: ONE }),
{
    let n = if config.decay.enabled && (Real { bits: R_0_5 }).lt(s.effective_tries) {
        s.effective_tries
    } else {
        Real::of_u64(s.tries)
    };
    n.max(Real::one())
}

/// The longest time for which options still explore more after a shift.
pub open spec fn longest_boost(s: Seq<StatsView>) -> u32
    decreases s.len(),
{
    if s.len() == 0 {
        0
    } else {
        let rest = longest_boost(s.drop_last());
        if rest < s.last().change_boost_remaining {
            s.last().change_boost_remaining
        } else {
            rest
        }
    }
}

/// The exploration that is asked for, and the longest boost of an option: with
/// `b` such a boost, `b / 50`, at most one, times a quarter is added.
pub fn effective_epsilon(base: Real, min_exploration: Real, bucket: &ContextBucket) -> (r: (
    Real,
    u32,
))
    ensures
        r.0 == base.spec_max(min_exploration),
        r.1 == longest_boost(bucket.seen().stats),
{
    let ghost all = bucket.seen().stats;
    let mut boost: u32 = 0;
    let mut i: usize = 0;
    assert(all.take(0) =~= Seq::<StatsView>::empty());
    while i < bucket.stats.len()
        invariant
            i <= bucket.stats@.len(),
            all == bucket.seen().stats,
            boost == longest_boost(all.take(i as int)),
        decreases bucket.stats@.len() - i,
    {
        assert(all.take(i + 1).drop_last() =~= all.take(i as int));
        assert(all[i as int] == bucket.stats@[i as int].seen());
        if boost < bucket.stats[i].change_boost_remaining {
            boost = bucket.stats[i].change_boost_remaining;
        }
        i = i + 1;
    }
    assert(all.take(i as int) =~= all);
    (base.max(min_exploration), boost)
}

/// The exploration after a boost: `raised` is what is asked for with the boost
/// added, of which at most one half counts.
pub open spec fn boosted(floor: Real, boost: u32, raised: Real) -> Real {
    if boost > 0 {
        lesser(raised, Real { bits: R_0_5 })
    } else {
        floor
    }
}

/// The exploration after a boost.
pub fn boosted_epsilon(floor: Real, boost: u32, raised: Real) -> (r: Real)
    ensures
        r == boosted(floor, boost, raised),
{
    if boost == 0 {
        floor
    } else if raised.is_nan() || (Real { bits: R_0_5 }).lt(raised) {
        Real { bits: R_0_5 }
    } else {
        raised
    }
}

/// An option's statistics after time has passed: nothing fades that was never
/// updated or tried, or hardly at all, and no option is left without a try.
pub open spec fn aged(s: StatsView, factor: Real, f: Faded) -> StatsView {
    if s.last_updated == 0 || s.tries == 0 || (Real { bits: R_0_99 }).at_most(factor) {
        s
    } else {
        StatsView {
            reward_sum: f.reward_sum,
            reward_sq_sum: f.reward_sq_sum,
            effective_tries: f.effective_tries,
            tries: if f.tries < 1 {
                1
            } else {
                f.tries
            },
            successes: f.successes,
            failures: f.failures,
            ..s
        }
    }
}

/// Lets the statistics fade with time. `factors` says how much is left of each
/// option's numbers, `faded` what they come to.
pub fn apply_decay(
    bucket: &mut ContextBucket,
    config: &DecayConfig,
    factors: &Vec<Real>,
    faded: &Vec<Faded>,
)
    requires
        old(bucket).wf(),
        factors@.len() == old(bucket).stats@.len(),
        faded@.len() == old(bucket).stats@.len(),
    ensures
        final(bucket).wf(),
        final(bucket).seen() == (if !config.enabled || config.half_life_seconds.at_most(
            Real { bits: 0 },
        ) {
            old(bucket).seen()
        } else {
            BucketView {
                stats: Seq::new(
                    old(bucket).seen().stats.len(),
                    |i: int| aged(old(bucket).seen().stats[i], factors@[i], faded@[i]),
                ),
                ..old(bucket).seen()
            }
        }),
{
    if !config.enabled || config.half_life_seconds.le(Real::zero()) {
        return ;
    }
    let ghost before = bucket.seen();
    let n: usize = bucket.stats.len();
    let mut i: usize = 0;
    while i < n
        invariant
            i <= n,
            n == bucket.stats@.len(),
            n == faded@.len(),
            n == factors@.len(),
            n == before.stats.len(),
            bucket.wf(),
            bucket.seen() == (BucketView { stats: bucket.seen().stats, ..before }),
            forall|k: int|
                0 <= k < i ==> (#[trigger] bucket.stats@[k]).seen() == aged(
                    before.stats[k],
                    factors@[k],
                    faded@[k],
                ),
            forall|k: int| i <= k < n ==> (#[trigger] bucket.stats@[k]).seen() == before.stats[k],
        decreases n - i,
    {
        let ghost all = bucket.stats@;
        let mut s = bucket.stats.remove(i);
        assert(s == all[i as int]);
        let still = s.last_updated == 0 || s.tries == 0 || (Real { bits: R_0_99 }).le(factors[i]);
        if !still {
            s.reward_sum = faded[i].reward_sum;
            s.reward_sq_sum = faded[i].reward_sq_sum;
            s.effective_tries = faded[i].effective_tries;
            s.tries = if faded[i].tries < 1 {
                1
            } else {
                faded[i].tries
            };
            s.successes = faded[i].successes;
            s.failures = faded[i].failures;
        }
        bucket.stats.insert(i, s);
        assert(bucket.stats@ =~= all.update(i as int, s));
        i = i + 1;
    }
    assert(bucket.seen().stats =~= Seq::new(
        before.stats.len(),
        |i: int| aged(before.stats[i], factors@[i], faded@[i]),
    ));
}

/// Rewards are held within the clip.
pub proof fn rewards_are_clipped(reward: Real, clip: Real)
    requires
        !reward.spec_is_nan(),
        (Real { bits: 0 }).below(clip),
    ensures
        clip.spec_negated().at_most(clipped(reward, clip)),
        clipped(reward, clip).at_most(clip),
{
}

/// After feedback all states are of the kind that the algorithm keeps.
pub proof fn feedback_keeps_states_fitting(
    b: BucketView,
    option: int,
    reward: Real,
    n: FeedbackNumbers,
    c: LearningConfig,
    now: u64,
)
    ensures
        all_fit(fed(b, option, reward, n, c, now).option_states, c.algorithm),
{
    let w = weights_after(n, b.weights.len());
    restarted_states_fit(w, b.option_states.len(), c.algorithm);
}

/// Feedback for one option leaves the recent rewards, the shifts and the signals
/// of all others alone, and keeps how many options there are.
pub proof fn feedback_is_for_one_option(
    b: BucketView,
    option: int,
    reward: Real,
    n: FeedbackNumbers,
    c: LearningConfig,
    now: u64,
    other: int,
)
    requires
        numbers_fit(n, b, option, c),
        0 <= option,
        0 <= other < b.stats.len(),
        other != option,
    ensures
        fed(b, option, reward, n, c, now).stats[other].window == b.stats[other].window,
        fed(b, option, reward, n, c, now).stats[other].change_points
            == b.stats[other].change_points,
        fed(b, option, reward, n, c, now).stats[other].signal_counts
            == b.stats[other].signal_counts,
        fed(b, option, reward, n, c, now).stats.len() == b.stats.len(),
        fed(b, option, reward, n, c, now).weights.len() == b.weights.len(),
        fed(b, option, reward, n, c, now).option_states.len() == b.option_states.len(),
{
}

} // verus!
