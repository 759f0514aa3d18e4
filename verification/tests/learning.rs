use lycan::conformal::ConformalCalibrator;
use lycan::feedback::{
    apply_decay, apply_feedback, apply_feedback_multi, apply_feedback_signal, bounded_delta,
    boosted_epsilon, bounded_rate, counted_tries, credit, effective_epsilon, state_numbers, Credit, Faded,
    FeedbackNumbers,
};
use lycan::json::Json;
use lycan::json_text::parse_json_text;
use lycan::learning::{
    begin_feedback, begin_signal, best_score, check_change_point_model_surprise,
    compute_prediction_set, compute_reward,
    compute_reward_from_components, conformal_band_radius, counted_surprises, hold_weights,
    next_window, norm_component,
    pareto_frontier,
    select_epsilon_greedy, select_option, select_pareto, select_softmax, select_weighted,
    stats_score, MeanKind, Plan, Scale,
};
use lycan::learning_config::{DelayedSignalSpec, LearningConfig, RewardPolicy};
use lycan::learning_memory::{new_bucket, ContextBucket, OptionState, VisibleWeight};
use lycan::learning_sections::{
    ActionSpace, Algorithm, ChangeDetectionConfig, ChangeDetectionMethod, DecayConfig,
};
use lycan::learning_stats::{Average, OptionStats, Rounded};
use lycan::message::Piece;
use lycan::meta_bandit::Quotient;
use lycan::number::Real;
use lycan::table::Table;
use std::collections::hash_map::RandomState;
use std::hash::{BuildHasher, Hasher};
use std::time::{SystemTime, UNIX_EPOCH};

fn num(x: f64) -> Real {
    Real { bits: x.to_bits() }
}

fn value(r: Real) -> f64 {
    f64::from_bits(r.bits)
}

fn nums(v: &[f64]) -> Vec<Real> {
    v.iter().map(|x| num(*x)).collect()
}

fn values(v: &[Real]) -> Vec<f64> {
    v.iter().map(|r| value(*r)).collect()
}

fn mean(v: &[f64]) -> f64 {
    v.iter().sum::<f64>() / v.len() as f64
}

fn text(pieces: &[Piece]) -> String {
    let mut s = String::new();
    for p in pieces {
        match p {
            Piece::Text(t) => s.push_str(t),
            Piece::Number(r) => s.push_str(&value(*r).to_string()),
            Piece::Fixed(r, digits) => {
                s.push_str(&format!("{:.1$}", value(*r), *digits as usize));
            }
            Piece::Ratio(..) => panic!("unexpected piece"),
        }
    }
    s
}

fn roll() -> f64 {
    (RandomState::new().build_hasher().finish() % 1_000_000) as f64 / 1_000_000.0
}

/// The most options for which an even share is exact.
const MOST_OPTIONS: usize = 0x20_0000_0000_0000;

fn now_secs() -> u64 {
    SystemTime::now().duration_since(UNIX_EPOCH).unwrap_or_default().as_secs()
}

fn quotient(q: Quotient) -> f64 {
    match q {
        Quotient::Known(r) => value(r),
        Quotient::Of(a, b) => value(a) / value(b),
    }
}

fn average(a: Average) -> f64 {
    match a {
        Average::Of(q) => quotient(q),
        Average::Over(v) => mean(&values(&v)),
    }
}

// Means and variances of rewards.

fn reward_mean(s: &OptionStats) -> f64 {
    quotient(s.reward_mean())
}

fn reward_mean_windowed(s: &OptionStats) -> f64 {
    average(s.reward_mean_windowed())
}

fn reward_mean_trimmed(s: &OptionStats, frac: f64) -> f64 {
    average(s.reward_mean_trimmed(num(frac), num(s.window.len() as f64 * frac)))
}

fn reward_cvar(s: &OptionStats, alpha: f64) -> f64 {
    let rank = (s.window.len() as f64 * alpha.clamp(0.01, 0.99)).ceil();
    average(s.reward_cvar(num(rank)))
}

// The variance of all rewards.
fn reward_variance(s: &OptionStats) -> f64 {
    if s.tries < 2 {
        return 0.0;
    }
    let m = reward_mean(s);
    (value(s.reward_sq_sum) / s.tries as f64 - m * m).max(0.0)
}

// The variance of the recent rewards.
fn reward_variance_recent(s: &OptionStats) -> f64 {
    if s.window.len() < 2 {
        return reward_variance(s);
    }
    let m = reward_mean_windowed(s);
    let n = s.window.len() as f64;
    let var = values(&s.window).iter().map(|r| (r - m).powi(2)).sum::<f64>() / (n - 1.0);
    var.max(1e-6)
}

/// The rounded numbers that are written for people to read.
fn rounded(s: &OptionStats) -> Rounded {
    let four = |x: f64| num((x * 10000.0).round() / 10000.0);
    Rounded {
        reward_mean: four(reward_mean(s)),
        reward_mean_windowed: four(reward_mean_windowed(s)),
        reward_variance: four(reward_variance(s)),
        effective_tries: num((value(s.effective_tries) * 100.0).round() / 100.0),
        posterior_mean: four(value(s.posterior_mean)),
        posterior_var: four(value(s.posterior_var)),
    }
}

/// How an option scores.
fn score(s: &OptionStats, config: &LearningConfig) -> f64 {
    let plan = match stats_score(s, config) {
        Some(p) => p,
        None => return f64::NEG_INFINITY,
    };
    let m = match plan.mean {
        MeanKind::Trimmed(frac) => reward_mean_trimmed(s, value(frac)),
        MeanKind::Windowed => reward_mean_windowed(s),
        MeanKind::Decayed => quotient(s.reward_mean_decayed()),
        MeanKind::Plain => reward_mean(s),
    };
    match plan.tail {
        Some((alpha, blend)) => {
            let b = value(blend);
            (1.0 - b) * m + b * reward_cvar(s, value(alpha))
        }
        None => m,
    }
}

fn visible_weight(s: &OptionState) -> f64 {
    match s.as_visible_weight() {
        VisibleWeight::Known(w) => value(w),
        VisibleWeight::Beta(a, b) => value(a) / (value(a) + value(b)).max(1e-9),
        VisibleWeight::Held(a, b) => (value(a) / value(b)).clamp(0.0, 1.0),
        VisibleWeight::Norm => panic!("no linear models here"),
    }
}

// Choosing an option.

fn cumulative(v: &[f64]) -> Vec<f64> {
    v.iter()
        .scan(0.0, |c, x| {
            *c += x;
            Some(*c)
        })
        .collect()
}

// A normal sample from two even ones.
fn standard_normal() -> f64 {
    let u1 = roll().max(1e-9);
    let u2 = roll();
    (-2.0 * u1.ln()).sqrt() * (2.0 * std::f64::consts::PI * u2).cos()
}

// A sample of a beta distribution, by its normal approximation.
fn sample_beta(alpha: f64, beta: f64) -> f64 {
    let s = alpha + beta;
    let m = alpha / s.max(1e-9);
    let var = (alpha * beta) / (s * s * (s + 1.0)).max(1e-9);
    (m + standard_normal() * var.sqrt()).clamp(0.0, 1.0)
}

fn spread_of(s: &OptionStats, config: &LearningConfig) -> f64 {
    value(counted_tries(s, config))
}

/// Chooses an option, and says why.
fn select(bucket: &ContextBucket, config: &LearningConfig, n: usize) -> (usize, String) {
    match select_option(bucket, config, n) {
        Plan::Settled(i, why) => (i, why),
        Plan::Weighted => {
            let w: Vec<f64> =
                (0..n).map(|i| bucket.weights.get(i).map_or(0.0, |r| value(*r))).collect();
            let sum: f64 = bucket.weights.iter().take(n).map(|r| value(*r)).sum();
            let (i, why) =
                select_weighted(num(sum), &nums(&cumulative(&w)), num(roll() * sum));
            (i, why.to_string())
        }
        Plan::Explore => explore(bucket, config, n),
        Plan::Bounds => bounds(bucket, config, n),
        Plan::BetaSamples => {
            let samples: Vec<f64> = bucket
                .option_states
                .iter()
                .take(n)
                .map(|s| match s {
                    OptionState::BetaBernoulli { alpha, beta } => {
                        sample_beta(value(*alpha), value(*beta))
                    }
                    other => visible_weight(other),
                })
                .collect();
            let (i, best) = best_score(&nums(&samples));
            (i, format!("thompson-beta: best sample {:.4}", value(best)))
        }
        Plan::GaussianSamples => {
            let samples: Vec<f64> = bucket
                .stats
                .iter()
                .take(n)
                .map(|s| {
                    let var = if config.window.enabled && s.window.len() >= 2 {
                        reward_variance_recent(s)
                    } else {
                        reward_variance(s).max(1e-6)
                    };
                    let spread = (var / spread_of(s, config)).sqrt().max(1e-4);
                    score(s, config) + standard_normal() * spread
                })
                .collect();
            let (i, best) = best_score(&nums(&samples));
            (i, format!("thompson: best sample {:.4}", value(best)))
        }
        Plan::Softmax(temp) => {
            let t = value(temp);
            let scores: Vec<f64> = (0..n)
                .map(|i| match bucket.stats.get(i) {
                    Some(s) if s.tries > 0 => score(s, config) / t,
                    _ => 0.0,
                })
                .collect();
            let top = scores.iter().cloned().fold(f64::NEG_INFINITY, f64::max);
            let exps: Vec<f64> = scores.iter().map(|s| (s - top).exp()).collect();
            let sum: f64 = exps.iter().sum();
            let (i, why) =
                select_softmax(num(sum), &nums(&cumulative(&exps)), num(roll() * sum), temp);
            (i, text(&why))
        }
    }
}

// The boost of exploration after a shift.
fn explore(bucket: &ContextBucket, config: &LearningConfig, n: usize) -> (usize, String) {
    let base = match config.algorithm {
        Algorithm::EpsilonGreedy { epsilon } => epsilon,
        _ => num(0.0),
    };
    let (floor, boost) = effective_epsilon(base, config.safety.min_exploration, bucket);
    let raised = value(floor) + boost.min(50) as f64 / 50.0 * 0.25;
    let epsilon = boosted_epsilon(floor, boost, num(raised));
    let scores: Vec<f64> = (0..n)
        .map(|i| match bucket.stats.get(i) {
            Some(s) if s.tries > 0 => score(s, config),
            _ => bucket.weights.get(i).map_or(0.0, |w| value(*w)),
        })
        .collect();
    let (i, why) = select_epsilon_greedy(
        num(roll()),
        epsilon,
        num(roll() * n as f64),
        &nums(&scores),
    );
    (i, text(&why))
}

// The upper bounds of the options.
fn bounds(bucket: &ContextBucket, config: &LearningConfig, n: usize) -> (usize, String) {
    let total: u64 = bucket.stats.iter().take(n).map(|s| s.tries).sum();
    let log_total = (total as f64).ln().max(1.0);
    let budget = if config.corruption_robust.enabled {
        value(config.corruption_robust.budget)
    } else {
        0.0
    };
    let upper: Vec<f64> = bucket
        .stats
        .iter()
        .take(n)
        .map(|s| {
            let denom = spread_of(s, config);
            let bonus = if budget > 0.0 { budget / denom } else { 0.0 };
            score(s, config) + (2.0 * log_total / denom).sqrt() + bonus
        })
        .collect();
    let (i, best) = best_score(&nums(&upper));
    (i, format!("ucb1: best upper bound {:.4}", value(best)))
}

fn pareto(bucket: &ContextBucket, config: &LearningConfig, n: usize) -> Vec<usize> {
    let scores: Vec<Vec<Real>> = (0..n)
        .map(|i| {
            config
                .pareto
                .objectives
                .iter()
                .map(|o| {
                    num(bucket
                        .stats
                        .get(i)
                        .map_or(f64::NEG_INFINITY, |s| quotient(s.objective_mean(o))))
                })
                .collect()
        })
        .collect();
    pareto_frontier(&scores, config)
}

fn choose_pareto(bucket: &ContextBucket, config: &LearningConfig, n: usize) -> (usize, String) {
    select_pareto(&pareto(bucket, config, n), &bucket.weights)
}

/// The options that may be the best.
fn prediction_set(bucket: &ContextBucket, config: &LearningConfig, n: usize) -> Vec<usize> {
    let c = &bucket.conformity_calibrator;
    if config.conformal.enabled && c.is_empty() && c.min_samples() == 0 {
        panic!("no residuals to take a quantile of");
    }
    let alpha = (1.0 - value(config.conformal.coverage)).clamp(0.0, 1.0);
    let radius = conformal_band_radius(bucket, config, num(rank(c, alpha)));
    let scores: Vec<f64> = (0..n)
        .map(|i| bucket.stats.get(i).map_or(f64::NEG_INFINITY, |s| score(s, config)))
        .collect();
    let best = scores.iter().cloned().fold(f64::NEG_INFINITY, f64::max);
    let gaps: Vec<f64> = scores.iter().map(|s| best - s).collect();
    compute_prediction_set(&nums(&scores), &nums(&gaps), radius)
}

// Prediction bands.

// The rank that a coverage stands for.
fn rank(c: &ConformalCalibrator, alpha: f64) -> f64 {
    ((c.len() as f64 + 1.0) * (1.0 - alpha).clamp(0.0, 1.0)).ceil()
}

fn quantile(c: &ConformalCalibrator, alpha: f64) -> Option<f64> {
    c.quantile(num(rank(c, alpha))).map(value)
}

// Feedback.

// The numbers of each option after forgetting and decay.
fn faded(bucket: &ContextBucket, config: &LearningConfig) -> Vec<Faded> {
    let f = value(config.safety.option_state_forgetting);
    let f = if f < 1.0 && f > 0.0 { f } else { 1.0 };
    let h = value(config.decay.half_life_feedbacks);
    let d = if config.decay.enabled && !(h <= 0.0) { 0.5_f64.powf(1.0 / h) } else { 1.0 };
    let count = |n: u64| (n as f64 * f).round() as u64;
    bucket
        .stats
        .iter()
        .map(|s| Faded {
            reward_sum: num(value(s.reward_sum) * f * d),
            reward_sq_sum: num(value(s.reward_sq_sum) * f * d),
            effective_tries: num(value(s.effective_tries) * f * d),
            tries: if f < 1.0 { count(s.tries) } else { s.tries },
            successes: if f < 1.0 { count(s.successes) } else { s.successes },
            failures: if f < 1.0 { count(s.failures) } else { s.failures },
        })
        .collect()
}

/// A copy of what the sums and the window of an option will be after a reward.
struct After {
    tries: u64,
    sum: f64,
    sq_sum: f64,
    effective: f64,
    window: Vec<f64>,
}

fn after_reward(s: &OptionStats, f: &Faded, reward: f64, config: &LearningConfig) -> After {
    let window = values(&next_window(&s.window, num(reward), &config.window));
    After {
        tries: f.tries + 1,
        sum: value(f.reward_sum) + reward,
        sq_sum: value(f.reward_sq_sum) + reward * reward,
        effective: value(f.effective_tries) + 1.0,
        window,
    }
}

impl After {
    fn mean(&self) -> f64 {
        if self.tries == 0 { 0.0 } else { self.sum / self.tries as f64 }
    }

    fn mean_windowed(&self) -> f64 {
        if self.window.is_empty() { self.mean() } else { mean(&self.window) }
    }

    fn variance_recent(&self) -> f64 {
        if self.window.len() < 2 {
            if self.tries < 2 {
                return 0.0;
            }
            let m = self.mean();
            return (self.sq_sum / self.tries as f64 - m * m).max(0.0);
        }
        let m = self.mean_windowed();
        let n = self.window.len() as f64;
        let var = self.window.iter().map(|r| (r - m).powi(2)).sum::<f64>() / (n - 1.0);
        var.max(1e-6)
    }
}

// The signs of a shift in the rewards.
fn shift_signs(s: &OptionStats, a: &After, reward: f64, c: &ChangeDetectionConfig) -> (f64, f64, f64, (f64, f64)) {
    let m = if a.effective > 1.0 { a.sum / a.effective } else { a.mean() };
    let drift = value(c.min_drift);
    let up = value(s.ph_cumsum) + (reward - m - drift);
    let down = value(s.ph_min) + (m - reward - drift);
    let n = a.window.len() as f64;
    let spread = (a.variance_recent().max(1e-4) / n).sqrt().max(1e-3);
    let deviation = (reward - a.mean_windowed()).abs() / spread;
    let (with, without) = counted_surprises(s.surprise_recent, a.window.len());
    (up, down, deviation, (with as f64 / n, without as f64 / n))
}

// The weights moved by a reward, held, and scaled to a floor.
fn moved_weights(bucket: &ContextBucket, option: usize, reward: f64, config: &LearningConfig) -> (f64, Vec<f64>) {
    let n = bucket.weights.len();
    let rate = value(bounded_rate(config.learning_rate));
    let most = config.safety.max_weight_delta_per_feedback;
    assert!(value(most) >= 0.0, "a weight cannot change by less than nothing");
    let delta = value(bounded_delta(num(reward * rate), most));
    let moved: Vec<f64> = bucket
        .weights
        .iter()
        .enumerate()
        .map(|(j, w)| {
            if j == option {
                value(*w) + delta
            } else {
                value(*w) - delta / (n - 1) as f64
            }
        })
        .collect();
    let held = values(&hold_weights(&nums(&moved)));
    let floor = value(config.safety.min_exploration);
    let sum: f64 = held.iter().sum();
    let scaled =
        held.iter().map(|w| floor / n as f64 + (1.0 - floor).max(0.0) * (w / sum)).collect();
    (sum, scaled)
}

// All numbers that a feedback needs.
fn numbers(bucket: &ContextBucket, option: usize, reward: f64, config: &LearningConfig) -> FeedbackNumbers {
    let faded = faded(bucket, config);
    let mut sums = (0.0, 0.0, 0.0);
    let (mut up, mut down, mut deviation, mut shares) = (0.0, 0.0, 0.0, (0.0, 0.0));
    let mut posterior = (0.0, 0.0);
    if let Some(s) = bucket.stats.get(option) {
        let a = after_reward(s, &faded[option], reward, config);
        sums = (a.sum, a.sq_sum, a.effective);
        (up, down, deviation, shares) = shift_signs(s, &a, reward, &config.change_detection);
        let var = (a.variance_recent() / a.window.len().max(1) as f64).max(1e-4);
        posterior = (a.mean_windowed(), var);
    }
    let predicted = bucket.option_states.get(option).map_or(0.0, visible_weight);
    let (sum, scaled) = moved_weights(bucket, option, reward, config);
    let weights = if sum > 0.0 { scaled.clone() } else { vec![1.0 / scaled.len() as f64; scaled.len()] };
    let pairs: Vec<(f64, f64)> = state_numbers(bucket, &nums(&weights), config.algorithm)
        .iter()
        .map(|(a, b)| (value(*a), value(*b)))
        .collect();
    let f = value(config.safety.option_state_forgetting);
    let states: Vec<(f64, f64)> = pairs
        .iter()
        .map(|(a, b)| match config.algorithm {
            _ if !(f < 1.0) => (*a, *b),
            Algorithm::ThompsonSampling => (1.0 + (a - 1.0) * f, 1.0 + (b - 1.0) * f),
            Algorithm::Ucb1 => (a * f, b * f),
            _ => (*a, *b),
        })
        .collect();
    let rate = value(bounded_rate(config.learning_rate));
    let (a, b) = states.get(option).copied().unwrap_or((0.0, 0.0));
    let chosen = match config.algorithm {
        Algorithm::ThompsonSampling => match credit(num(reward)) {
            Credit::Success => (a + 1.0, b),
            Credit::Failure => (a, b + 1.0),
            Credit::Part(s) => (a + value(s), b + (1.0 - value(s))),
        },
        Algorithm::Ucb1 => (a + 1.0, b + reward),
        _ => (a + reward * rate, 0.0),
    };
    let per_other = reward * rate / (states.len().max(2) - 1) as f64;
    FeedbackNumbers {
        faded,
        sums: (num(sums.0), num(sums.1), num(sums.2)),
        up: num(up),
        down: num(down),
        deviation: num(deviation),
        shares: (num(shares.0), num(shares.1)),
        posterior: (num(posterior.0), num(posterior.1)),
        residual: num((reward - predicted).abs()),
        sum: num(sum),
        scaled: nums(&scaled),
        states: states.iter().map(|(a, b)| (num(*a), num(*b))).collect(),
        chosen: (num(chosen.0), num(chosen.1)),
        others: states.iter().map(|(w, _)| num(w - per_other)).collect(),
    }
}

fn assert_room(bucket: &ContextBucket, option: usize, n: &FeedbackNumbers) {
    assert!(
        bucket.option_states.len() <= MOST_OPTIONS && bucket.weights.len() <= MOST_OPTIONS,
        "too many options"
    );
    if let (Some(s), Some(f)) = (bucket.stats.get(option), n.faded.get(option)) {
        assert!(
            f.tries < u64::MAX
                && f.successes < u64::MAX
                && f.failures < u64::MAX
                && s.change_points < u32::MAX,
            "feedback count overflow"
        );
    }
}

/// The numbers of a feedback that is refused, which none looks at.
fn no_numbers() -> FeedbackNumbers {
    let zero = num(0.0);
    FeedbackNumbers {
        faded: Vec::new(),
        sums: (zero, zero, zero),
        up: zero,
        down: zero,
        deviation: zero,
        shares: (zero, zero),
        posterior: (zero, zero),
        residual: zero,
        sum: zero,
        scaled: Vec::new(),
        states: Vec::new(),
        chosen: (zero, zero),
        others: Vec::new(),
    }
}

/// Takes a reward for an option.
fn feedback(bucket: &mut ContextBucket, option: usize, reward: f64, config: &LearningConfig) -> Result<(), String> {
    let clipped = begin_feedback(bucket, option, num(reward), config)?;
    let n = numbers(bucket, option, value(clipped), config);
    assert_room(bucket, option, &n);
    apply_feedback(bucket, option, num(reward), config, &n, now_secs())
}

// What is believed of an option after a signal.
fn believed(s: &OptionStats, observed: f64, signal: &DelayedSignalSpec) -> (f64, f64) {
    let z = observed - value(signal.bias);
    let prior_var = value(s.posterior_var).max(1e-6);
    let obs_var = value(signal.noise_variance).max(1e-6);
    let var = 1.0 / (1.0 / prior_var + 1.0 / obs_var);
    (var * (value(s.posterior_mean) / prior_var + z / obs_var), var)
}

/// Takes a signal for an option.
fn feedback_signal(
    bucket: &mut ContextBucket,
    option: usize,
    observed: f64,
    signal: &str,
    config: &LearningConfig,
) -> Result<(), String> {
    let (at, held) = begin_signal(bucket, option, num(observed), signal, config)?;
    let posterior = match bucket.stats.get(option) {
        Some(s) => believed(s, value(held), &config.delayed_feedback.signals[at]),
        None => (0.0, 0.0),
    };
    let effective = if option < bucket.stats.len() { posterior.0 } else { value(held) };
    let clipped = begin_feedback(bucket, option, num(effective), config)?;
    let n = numbers(bucket, option, value(clipped), config);
    assert_room(bucket, option, &n);
    if let Some(c) = bucket.stats.get(option).and_then(|s| s.signal_counts.get(signal)) {
        assert!(*c < u64::MAX, "signal count overflow");
    }
    let posterior = (num(posterior.0), num(posterior.1));
    apply_feedback_signal(bucket, option, num(observed), signal, config, posterior, &n, now_secs())
}

/// Takes rewards for several objectives of an option.
fn feedback_multi(
    bucket: &mut ContextBucket,
    option: usize,
    rewards: &Table<Real>,
    config: &LearningConfig,
) -> Result<(), String> {
    let sums: Vec<Real> = rewards
        .entries
        .iter()
        .map(|(name, r)| {
            let before = bucket
                .stats
                .get(option)
                .and_then(|s| s.objective_rewards.get(name))
                .map_or(0.0, |x| value(*x));
            num(before + value(*r))
        })
        .collect();
    if let Some(s) = bucket.stats.get(option) {
        let most = u64::MAX - sums.len() as u64;
        assert!(s.objective_counts.entries.iter().all(|e| e.1 <= most), "count overflow");
    }
    let all: Vec<f64> = rewards.entries.iter().map(|e| value(e.1)).collect();
    let scalar = if all.is_empty() { 0.0 } else { mean(&all) };
    let n = match begin_feedback(bucket, option, num(scalar), config) {
        Ok(clipped) => {
            let n = numbers(bucket, option, value(clipped), config);
            assert_room(bucket, option, &n);
            n
        }
        Err(_) => no_numbers(),
    };
    apply_feedback_multi(bucket, option, rewards, &sums, num(scalar), config, &n, now_secs())
}

// What is left of each option's numbers after some time.
fn decay(bucket: &mut ContextBucket, config: &DecayConfig) {
    let now = now_secs();
    let half_life = value(config.half_life_seconds);
    let factors: Vec<f64> = bucket
        .stats
        .iter()
        .map(|s| 0.5_f64.powf((now.saturating_sub(s.last_updated)) as f64 / half_life))
        .collect();
    let faded: Vec<Faded> = bucket
        .stats
        .iter()
        .zip(&factors)
        .map(|(s, f)| Faded {
            reward_sum: num(value(s.reward_sum) * f),
            reward_sq_sum: num(value(s.reward_sq_sum) * f),
            effective_tries: num(value(s.effective_tries) * f),
            tries: (s.tries as f64 * f).round() as u64,
            successes: (s.successes as f64 * f).round() as u64,
            failures: (s.failures as f64 * f).round() as u64,
        })
        .collect();
    apply_decay(bucket, config, &nums(&factors), &faded);
}

// The weighted sum of an outcome.
fn reward_of(outcome: &Json, policy: &RewardPolicy) -> f64 {
    compute_reward(outcome, policy).iter().map(|(v, w)| value(*v) * value(*w)).sum()
}

// The weighted sum of scaled components.
fn reward_of_components(spec: &Json, components: &Json) -> f64 {
    compute_reward_from_components(spec, components)
        .iter()
        .map(|c| {
            let raw = value(c.raw);
            let (span, part) = match c.scale {
                Scale::Plain => (0.0, raw),
                Scale::MinMax(lo, hi) => {
                    let (lo, hi) = (value(lo), value(hi));
                    (hi - lo, (raw - lo) / (hi - lo))
                }
                Scale::Budget(b) => (0.0, raw / value(b)),
            };
            value(c.weight) * value(norm_component(c, num(span), num(part)))
        })
        .sum()
}

// The middle of an option's part of the range.
fn bucket_midpoint(a: &ActionSpace, i: usize) -> Option<f64> {
    a.bucket_midpoint(i).map(|b| {
        let (lo, hi) = (value(b.lo), value(b.hi));
        lo + (hi - lo) / b.buckets as f64 * (b.i as f64 + 0.5)
    })
}

fn make_bucket(n: usize) -> ContextBucket {
    let w = num(1.0 / n as f64);
    new_bucket(vec![w; n], n, (0..n).map(|_| OptionState::weighted(w)).collect())
}

fn record(s: &mut OptionStats, name: &str, by: f64) {
    let before = s.objective_rewards.get(name).map_or(0.0, |x| value(*x));
    s.record_objective(name, num(before + by));
}

#[test]
fn option_stats_to_from_json_is_self_round_tripping() {
    let mut s = OptionStats::default();
    s.tries = 7;
    s.successes = 4;
    s.failures = 3;
    s.reward_sum = num(3.25);
    s.reward_sq_sum = num(1.875);
    s.last_reward = num(0.75);
    s.last_updated = 42_000;
    s.effective_tries = num(6.5);
    s.window = nums(&[1.0, 0.5, 0.25]);
    s.ph_cumsum = num(0.1);
    s.ph_min = num(-0.2);
    s.change_boost_remaining = 3;
    s.change_points = 1;
    s.posterior_mean = num(0.4);
    s.posterior_var = num(0.8);

    let round = OptionStats::from_json(&s.to_json(&rounded(&s), false));
    assert_eq!(round.tries, s.tries);
    assert!((value(round.reward_sum) - value(s.reward_sum)).abs() < 1e-9);
    assert!((value(round.reward_sq_sum) - value(s.reward_sq_sum)).abs() < 1e-9);
    assert_eq!(round.window.len(), s.window.len());
    for (a, b) in round.window.iter().zip(s.window.iter()) {
        assert!((value(*a) - value(*b)).abs() < 1e-9);
    }
    assert!((value(round.ph_cumsum) - value(s.ph_cumsum)).abs() < 1e-9);
    assert!((value(round.ph_min) - value(s.ph_min)).abs() < 1e-9);
    assert_eq!(round.change_boost_remaining, s.change_boost_remaining);
    assert!((value(round.effective_tries) - value(s.effective_tries)).abs() < 0.01);
}

#[test]
fn reward_clipping_bounds_extreme_input() {
    let mut cfg = LearningConfig::default();
    cfg.safety.reward_clip = num(1.0);
    let mut b = make_bucket(3);
    feedback(&mut b, 0, 100.0, &cfg).unwrap();
    assert!(value(b.stats[0].reward_sum) <= 1.0 + 1e-9);
    assert!(value(b.stats[0].last_reward) <= 1.0 + 1e-9);
}

#[test]
fn configurable_learning_rate_affects_weight_delta() {
    let mut cfg_low = LearningConfig::default();
    cfg_low.learning_rate = num(0.005);
    let mut cfg_high = LearningConfig::default();
    cfg_high.learning_rate = num(0.1);

    let mut b_low = make_bucket(3);
    let mut b_high = make_bucket(3);
    feedback(&mut b_low, 0, 1.0, &cfg_low).unwrap();
    feedback(&mut b_high, 0, 1.0, &cfg_high).unwrap();

    // Higher learning rate ⇒ chosen option gets larger weight after one feedback.
    assert!(value(b_high.weights[0]) > value(b_low.weights[0]));
}

#[test]
fn decay_shrinks_effective_tries_over_feedbacks() {
    let mut cfg = LearningConfig::default();
    cfg.decay.enabled = true;
    cfg.decay.half_life_feedbacks = num(10.0);
    let mut b = make_bucket(2);
    for _ in 0..10 { feedback(&mut b, 0, 1.0, &cfg).unwrap(); }
    let eff_after_10 = value(b.stats[0].effective_tries);
    for _ in 0..10 { feedback(&mut b, 1, 1.0, &cfg).unwrap(); }
    // After 10 more feedbacks on option 1 with half-life=10, option 0's
    // effective_tries should be ~halved.
    assert!(value(b.stats[0].effective_tries) < eff_after_10 * 0.6);
}

#[test]
fn windowed_stats_track_only_recent_rewards() {
    let mut cfg = LearningConfig::default();
    cfg.window.enabled = true;
    cfg.window.size = 5;
    let mut b = make_bucket(2);
    // 10 positive rewards
    for _ in 0..10 { feedback(&mut b, 0, 1.0, &cfg).unwrap(); }
    // 3 negative rewards
    for _ in 0..3 { feedback(&mut b, 0, -1.0, &cfg).unwrap(); }
    // Window has the last 5: [1,1,-1,-1,-1]
    assert_eq!(b.stats[0].window.len(), 5);
    let win_mean = reward_mean_windowed(&b.stats[0]);
    assert!(win_mean < 0.0);  // recent rewards dominate
    let all_time_mean = reward_mean(&b.stats[0]);
    assert!(all_time_mean > 0.3);  // cumulative still positive
}

#[test]
fn trimmed_mean_drops_extremes() {
    let mut s = OptionStats::default();
    // Use an asymmetric outlier pattern so trimming has an unambiguous effect.
    // 4 stable values around 0.2 plus one extreme high outlier.
    for v in [0.1, 0.2, 0.3, 0.4, 50.0] {
        s.window.push(num(v));
        s.tries += 1;
        s.reward_sum = num(value(s.reward_sum) + v);
    }
    let plain = reward_mean_windowed(&s);
    // Trim 20% from each tail → drop 1 value each side, keep middle 3.
    let trimmed = reward_mean_trimmed(&s, 0.2);
    // Trimmed mean should be far from the outlier-inflated plain mean.
    assert!(trimmed < plain - 1.0, "plain={plain} trimmed={trimmed}");
    // Middle three of [0.1, 0.2, 0.3, 0.4, 50.0] are [0.2, 0.3, 0.4] → mean 0.3.
    assert!((trimmed - 0.3).abs() < 0.01, "expected ~0.3, got {trimmed}");
}

#[test]
fn change_detection_fires_on_regime_shift() {
    let mut cfg = LearningConfig::default();
    cfg.change_detection.enabled = true;
    cfg.change_detection.threshold = num(1.0);
    cfg.change_detection.min_drift = num(0.0);
    cfg.window.enabled = true;
    cfg.window.size = 20;
    let mut b = make_bucket(2);
    // Establish a stable positive regime
    for _ in 0..30 { feedback(&mut b, 0, 1.0, &cfg).unwrap(); }
    let cp_before = b.stats[0].change_points;
    // Sudden negative regime
    for _ in 0..30 { feedback(&mut b, 0, -1.0, &cfg).unwrap(); }
    let cp_after = b.stats[0].change_points;
    assert!(cp_after > cp_before, "expected change point to fire on regime shift");
}

#[test]
fn min_exploration_floor_enforced() {
    let mut cfg = LearningConfig::default();
    cfg.safety.min_exploration = num(0.10);
    let mut b = make_bucket(5);
    // Hammer option 0 with positive rewards.
    for _ in 0..200 { feedback(&mut b, 0, 1.0, &cfg).unwrap(); }
    let min_w = values(&b.weights).iter().cloned().fold(f64::INFINITY, f64::min);
    // With 5 options and min_exploration=0.10, floor per-option is 0.10/5 = 0.02.
    assert!(min_w >= 0.02 - 1e-6, "min weight {min_w} below floor");
}

#[test]
fn thompson_picks_higher_mean_in_expectation() {
    let mut b = make_bucket(2);
    let mut cfg = LearningConfig::default();
    cfg.algorithm = Algorithm::ThompsonSampling;
    // Option 1 clearly better.
    for _ in 0..50 { feedback(&mut b, 0, -0.5, &cfg).unwrap(); }
    for _ in 0..50 { feedback(&mut b, 1, 0.8, &cfg).unwrap(); }
    let mut picks = [0usize, 0usize];
    for _ in 0..200 {
        let (idx, _) = select(&b, &cfg, 2);
        picks[idx] += 1;
    }
    assert!(picks[1] > picks[0] + 50, "thompson should favor better arm");
}

#[test]
fn freeze_learning_blocks_updates() {
    let mut cfg = LearningConfig::default();
    cfg.safety.freeze_learning = true;
    let mut b = make_bucket(3);
    let before = b.weights.clone();
    let res = feedback(&mut b, 0, 1.0, &cfg);
    assert!(res.is_err());
    assert_eq!(b.weights, before);
}

#[test]
fn thompson_beta_favors_higher_success_rate() {
    let mut cfg = LearningConfig::default();
    cfg.algorithm = Algorithm::ThompsonSampling;
    let mut b = make_bucket(2);
    // 60 wins / 40 losses on arm 0; 40 wins / 60 losses on arm 1.
    for _ in 0..60 { feedback(&mut b, 0, 1.0, &cfg).unwrap(); }
    for _ in 0..40 { feedback(&mut b, 0, 0.0, &cfg).unwrap(); }
    for _ in 0..40 { feedback(&mut b, 1, 1.0, &cfg).unwrap(); }
    for _ in 0..60 { feedback(&mut b, 1, 0.0, &cfg).unwrap(); }
    // option_states should now be BetaBernoulli with α₀≈61, β₀≈41 and α₁≈41, β₁≈61
    assert!(matches!(b.option_states[0], OptionState::BetaBernoulli { .. }));
    let mut picks = [0u32, 0u32];
    for _ in 0..1000 {
        let (i, _) = select(&b, &cfg, 2);
        picks[i] += 1;
    }
    assert!(picks[0] > picks[1] + 200,
            "thompson-beta should favor arm 0; got picks={picks:?}");
}

#[test]
fn select_option_does_not_mutate_bucket_weights() {
    // Selection is read-only on the bucket. The runtime decide path copies
    // bucket weights into the graph node for sampling; select_option's
    // output is advisory and must not modify the bucket's stored state.
    let mut cfg = LearningConfig::default();
    cfg.algorithm = Algorithm::Ucb1;
    cfg.corruption_robust.enabled = true;
    cfg.corruption_robust.budget = num(10.0);
    let mut b = make_bucket(5);
    for _ in 0..30 { feedback(&mut b, 0, 0.8, &cfg).unwrap(); }
    for _ in 0..10 { feedback(&mut b, 1, 0.5, &cfg).unwrap(); }
    let weights_before = b.weights.clone();
    for _ in 0..100 {
        let (_idx, _r) = select(&b, &cfg, 5);
    }
    assert_eq!(weights_before, b.weights, "select_option must be read-only");
}

#[test]
fn pareto_frontier_keeps_non_dominated_options() {
    let mut cfg = LearningConfig::default();
    cfg.pareto.enabled = true;
    cfg.pareto.objectives = vec!["latency".into(), "cost".into()];
    let mut b = make_bucket(4);
    // Option 0: low latency, high cost
    record(&mut b.stats[0], "latency", 0.9);
    record(&mut b.stats[0], "cost", 0.2);
    // Option 1: high latency, low cost
    record(&mut b.stats[1], "latency", 0.3);
    record(&mut b.stats[1], "cost", 0.9);
    // Option 2: dominated (worse on both)
    record(&mut b.stats[2], "latency", 0.2);
    record(&mut b.stats[2], "cost", 0.1);
    // Option 3: balanced, non-dominated
    record(&mut b.stats[3], "latency", 0.6);
    record(&mut b.stats[3], "cost", 0.6);

    let frontier = pareto(&b, &cfg, 4);
    assert!(frontier.contains(&0));
    assert!(frontier.contains(&1));
    assert!(frontier.contains(&3));
    assert!(!frontier.contains(&2), "option 2 is dominated; got frontier={frontier:?}");
}

#[test]
fn cvar_is_average_of_lower_tail() {
    let mut s = OptionStats::default();
    for v in [-2.0, -1.0, 0.0, 1.0, 2.0, 3.0, 4.0, 5.0, 6.0, 7.0] {
        s.window.push(num(v));
        s.tries += 1;
        s.reward_sum = num(value(s.reward_sum) + v);
    }
    // Worst 20% of 10 values → [-2.0, -1.0], CVaR_0.20 = -1.5.
    let cvar = reward_cvar(&s, 0.20);
    assert!((cvar - (-1.5)).abs() < 1e-9, "got {cvar}");
    // Worst 50% → first 5 values, mean = (-2 -1 + 0 + 1 + 2)/5 = 0.0.
    let cvar50 = reward_cvar(&s, 0.50);
    assert!((cvar50 - 0.0).abs() < 1e-9, "got {cvar50}");
}

#[test]
fn risk_sensitive_blend_prefers_lower_variance_option() {
    let mut b = make_bucket(2);
    let mut cfg = LearningConfig::default();
    cfg.window.enabled = true;
    cfg.window.size = 50;
    cfg.algorithm = Algorithm::EpsilonGreedy { epsilon: num(0.0) };

    // Option 0: rewards {1, 1, 1, 1, 1, ..., -3} — mean ~0.6, awful tail.
    // Option 1: stable rewards of 0.5.
    for _ in 0..18 { feedback(&mut b, 0, 1.0, &cfg).unwrap(); }
    for _ in 0..2  { feedback(&mut b, 0, -2.0, &cfg).unwrap(); }
    for _ in 0..20 { feedback(&mut b, 1, 0.5, &cfg).unwrap(); }

    // With pure-mean scoring, option 0 wins.
    let (mean_choice, _) = select(&b, &cfg, 2);
    // With risk-sensitive scoring, the lower-tail-averaged option 1 wins.
    cfg.risk_sensitive.enabled = true;
    cfg.risk_sensitive.alpha = num(0.20);
    cfg.risk_sensitive.blend = num(0.7);
    let (risk_choice, _) = select(&b, &cfg, 2);
    assert_ne!(mean_choice, risk_choice, "risk score should flip preference");
    assert_eq!(risk_choice, 1);
}

#[test]
fn gkt_bonus_inflates_ucb_for_under_explored_arms() {
    let mut b = make_bucket(2);
    let mut cfg = LearningConfig::default();
    cfg.algorithm = Algorithm::Ucb1;
    for _ in 0..500 { feedback(&mut b, 0, 0.5, &cfg).unwrap(); }
    for _ in 0..50  { feedback(&mut b, 1, 0.5, &cfg).unwrap(); }

    let mut picks = [0usize, 0usize];
    for _ in 0..400 {
        let (idx, _) = select(&b, &cfg, 2);
        picks[idx] += 1;
    }
    let baseline_arm1 = picks[1];

    cfg.corruption_robust.enabled = true;
    cfg.corruption_robust.budget = num(100.0);
    let mut picks2 = [0usize, 0usize];
    for _ in 0..400 {
        let (idx, _) = select(&b, &cfg, 2);
        picks2[idx] += 1;
    }
    assert!(picks2[1] >= baseline_arm1,
        "GKT should increase pulls on under-explored arm: baseline={baseline_arm1} with_gkt={}", picks2[1]);
    assert!(picks2[1] > picks2[0],
        "with budget=100, arm 1 should dominate; got {picks2:?}");
}

#[test]
fn conformal_prediction_set_shrinks_with_data() {
    let mut b = make_bucket(3);
    let mut cfg = LearningConfig::default();
    cfg.conformal.enabled = true;
    cfg.conformal.coverage = num(0.90);
    cfg.conformal.calibration_size = 50;
    cfg.window.enabled = true;
    cfg.window.size = 50;

    // No data → set covers everything.
    let initial = prediction_set(&b, &cfg, 3);
    assert_eq!(initial.len(), 3);

    // Option 0 clearly better, low residuals after warmup.
    for _ in 0..30 { feedback(&mut b, 0, 0.8, &cfg).unwrap(); }
    for _ in 0..15 { feedback(&mut b, 1, -0.2, &cfg).unwrap(); }
    for _ in 0..15 { feedback(&mut b, 2, -0.5, &cfg).unwrap(); }

    let set = prediction_set(&b, &cfg, 3);
    assert!(set.contains(&0), "best option must be in the set");
    assert!(set.len() < 3, "set should shrink once data is informative; got {set:?}");
}

#[test]
fn delayed_feedback_fuses_signals_into_posterior() {
    let mut cfg = LearningConfig::default();
    cfg.window.enabled = true;
    cfg.window.size = 50;
    cfg.delayed_feedback.enabled = true;
    cfg.delayed_feedback.signals = vec![
        DelayedSignalSpec { name: "surrogate".into(), noise_variance: num(1.0), bias: num(0.0) },
        DelayedSignalSpec { name: "final".into(), noise_variance: num(0.05), bias: num(0.0) },
    ];

    let mut b = make_bucket(2);
    // Noisy surrogate signals around 0.4, then a few high-confidence finals at 0.9.
    for _ in 0..5 { feedback_signal(&mut b, 0, 0.4, "surrogate", &cfg).unwrap(); }
    let post_after_surrogate = value(b.stats[0].posterior_mean);
    for _ in 0..3 { feedback_signal(&mut b, 0, 0.9, "final", &cfg).unwrap(); }
    let post_after_final = value(b.stats[0].posterior_mean);
    // Final signals (low noise) should pull the posterior strongly toward 0.9.
    assert!(post_after_final > post_after_surrogate + 0.2,
        "posterior {post_after_surrogate}→{post_after_final} did not move toward final");
    // Signal counts must reflect both kinds.
    assert_eq!(*b.stats[0].signal_counts.get("surrogate").unwrap_or(&0), 5);
    assert_eq!(*b.stats[0].signal_counts.get("final").unwrap_or(&0), 3);
}

#[test]
fn model_surprise_detection_fires_on_distribution_shift() {
    let mut cfg = LearningConfig::default();
    cfg.window.enabled = true;
    cfg.window.size = 30;
    cfg.change_detection.enabled = true;
    cfg.change_detection.method = ChangeDetectionMethod::ModelSurprise;
    cfg.change_detection.surprise_k_sigma = num(1.5);
    cfg.change_detection.surprise_fraction_threshold = num(0.25);
    let mut b = make_bucket(2);
    // Stable narrow distribution.
    for i in 0..30 { feedback(&mut b, 0, 0.5 + (i as f64) * 0.001, &cfg).unwrap(); }
    let cp_before = b.stats[0].change_points;
    // Sudden shift far from the established mean.
    for _ in 0..20 { feedback(&mut b, 0, -1.5, &cfg).unwrap(); }
    assert!(b.stats[0].change_points > cp_before,
        "model-surprise should fire on distribution shift");
}

#[test]
fn apply_feedback_populates_calibrator() {
    let mut bucket = make_bucket(2);
    let cfg = LearningConfig::default();
    for _ in 0..50 {
        feedback(&mut bucket, 0, 0.7, &cfg).unwrap();
    }
    assert!(bucket.conformity_calibrator.len() >= 30);
    assert!(quantile(&bucket.conformity_calibrator, 0.05).is_some());
}

#[test]
fn beta_posterior_decays_toward_prior() {
    let mut cfg = LearningConfig::default();
    cfg.algorithm = Algorithm::ThompsonSampling;
    cfg.safety.option_state_forgetting = num(0.9);
    let mut b = make_bucket(2);
    b.option_states = vec![
        OptionState::beta(num(100.0), num(50.0)),
        OptionState::beta(num(1.0), num(1.0)),
    ];
    feedback(&mut b, 1, 1.0, &cfg).unwrap();
    if let OptionState::BetaBernoulli { alpha, beta } = &b.option_states[0] {
        let (alpha, beta) = (value(*alpha), value(*beta));
        assert!((alpha - 90.1).abs() < 1e-6, "got alpha={alpha}");
        assert!((beta - 45.1).abs() < 1e-6, "got beta={beta}");
    } else {
        panic!("expected BetaBernoulli");
    }
}

#[test]
fn ucb_state_decays_proportionally() {
    let mut cfg = LearningConfig::default();
    cfg.algorithm = Algorithm::Ucb1;
    cfg.safety.option_state_forgetting = num(0.9);
    let mut b = make_bucket(2);
    b.option_states = vec![
        OptionState::Ucb { tries: num(100.0), total_reward: num(75.0) },
        OptionState::ucb_initial(),
    ];
    feedback(&mut b, 1, 1.0, &cfg).unwrap();
    if let OptionState::Ucb { tries, total_reward } = &b.option_states[0] {
        let (tries, total_reward) = (value(*tries), value(*total_reward));
        assert!((tries - 90.0).abs() < 1e-6);
        assert!((total_reward - 67.5).abs() < 1e-6);
        assert!((total_reward / tries - 0.75).abs() < 1e-9);
    } else {
        panic!("expected Ucb");
    }
}

#[test]
fn forgetting_factor_one_means_no_decay_in_option_state() {
    let alpha_before: f64 = 50.0;
    let alpha_after: f64 = 1.0 + (alpha_before - 1.0) * 1.0;
    assert!((alpha_after - alpha_before).abs() < 1e-9);
}

#[test]
fn a_factor_of_one_leaves_states_alone() {
    let mut cfg = LearningConfig::default();
    cfg.algorithm = Algorithm::ThompsonSampling;
    cfg.safety.option_state_forgetting = num(1.0);
    let mut b = make_bucket(2);
    b.option_states =
        vec![OptionState::beta(num(50.0), num(3.0)), OptionState::beta(num(1.0), num(1.0))];
    feedback(&mut b, 1, 0.25, &cfg).unwrap();
    assert!(matches!(&b.option_states[0], OptionState::BetaBernoulli { alpha, beta }
        if value(*alpha) == 50.0 && value(*beta) == 3.0));
    assert!(matches!(&b.option_states[1], OptionState::BetaBernoulli { alpha, beta }
        if value(*alpha) == 1.25 && value(*beta) == 1.75));
}

#[test]
fn refused_feedback_is_told() {
    let mut cfg = LearningConfig::default();
    let mut b = make_bucket(2);
    assert_eq!(
        feedback(&mut b, 5, 1.0, &cfg).unwrap_err(),
        "option 5 out of range (2 options)"
    );
    assert_eq!(
        feedback_signal(&mut b, 0, 1.0, "late", &cfg).unwrap_err(),
        "unknown signal 'late'"
    );
    cfg.safety.freeze_learning = true;
    assert_eq!(feedback(&mut b, 0, 1.0, &cfg).unwrap_err(), "learning is frozen");
    assert_eq!(b.stats[0].tries, 0);
}

#[test]
fn states_follow_the_algorithm() {
    let mut cfg = LearningConfig::default();
    let mut b = make_bucket(2);
    feedback(&mut b, 0, 1.0, &cfg).unwrap();
    assert!(b.option_states.iter().all(|s| matches!(s, OptionState::Weighted { .. })));
    cfg.algorithm = Algorithm::Ucb1;
    feedback(&mut b, 0, 1.0, &cfg).unwrap();
    assert!(matches!(&b.option_states[0], OptionState::Ucb { tries, total_reward }
        if value(*tries) == 1.0 && value(*total_reward) == 1.0));
    assert!(matches!(&b.option_states[1], OptionState::Ucb { tries, .. } if value(*tries) == 0.0));
}

#[test]
fn rewards_count_as_successes_and_failures() {
    assert_eq!(credit(num(1.0)), Credit::Success);
    assert_eq!(credit(num(2.5)), Credit::Success);
    assert_eq!(credit(num(0.0)), Credit::Failure);
    assert_eq!(credit(num(-1.0)), Credit::Failure);
    assert_eq!(credit(num(0.25)), Credit::Part(num(0.25)));
}

#[test]
fn objectives_are_counted_with_the_feedback() {
    let cfg = LearningConfig::default();
    let mut b = make_bucket(2);
    let mut rewards: Table<Real> = Table::new();
    rewards.insert("speed".to_string(), num(1.0));
    rewards.insert("cost".to_string(), num(0.5));
    feedback_multi(&mut b, 1, &rewards, &cfg).unwrap();
    feedback_multi(&mut b, 1, &rewards, &cfg).unwrap();
    assert_eq!(quotient(b.stats[1].objective_mean("speed")), 1.0);
    assert_eq!(quotient(b.stats[1].objective_mean("cost")), 0.5);
    assert_eq!(quotient(b.stats[1].objective_mean("none")), 0.0);
    assert_eq!(b.stats[1].tries, 2);
    assert_eq!(value(b.stats[1].last_reward), 0.75);
    assert_eq!(b.stats[0].tries, 0);
}

#[test]
fn time_fades_what_is_old() {
    let mut b = make_bucket(2);
    b.stats[0].tries = 10;
    b.stats[0].successes = 4;
    b.stats[0].reward_sum = num(8.0);
    b.stats[0].last_updated = now_secs() - 100;
    let config = DecayConfig {
        enabled: true,
        half_life_feedbacks: num(1.0),
        half_life_seconds: num(100.0),
    };
    decay(&mut b, &config);
    assert!((value(b.stats[0].reward_sum) - 4.0).abs() < 0.2);
    assert_eq!(b.stats[0].tries, 5);
    assert_eq!(b.stats[0].successes, 2);
    assert_eq!(b.stats[1].tries, 0);
    let off = DecayConfig { enabled: false, ..config };
    decay(&mut b, &off);
    assert_eq!(b.stats[0].tries, 5);
}

#[test]
fn shifts_raise_exploration() {
    let mut b = make_bucket(3);
    assert_eq!(effective_epsilon(num(0.1), num(0.2), &b), (num(0.2), 0));
    b.stats[1].change_boost_remaining = 7;
    b.stats[2].change_boost_remaining = 3;
    assert_eq!(effective_epsilon(num(0.3), num(0.2), &b), (num(0.3), 7));
}

#[test]
fn choices_that_need_no_numbers() {
    let mut cfg = LearningConfig::default();
    let mut b = make_bucket(3);
    assert_eq!(select(&b, &cfg, 0), (0, "no options".to_string()));
    assert_eq!(select(&b, &cfg, 1), (0, "single option".to_string()));
    cfg.algorithm = Algorithm::Ucb1;
    assert_eq!(select(&b, &cfg, 3), (0, "ucb1: no data, trying first".to_string()));
    b.stats[0].tries = 2;
    assert_eq!(select(&b, &cfg, 3), (1, "ucb1: untried option 1".to_string()));
    cfg.algorithm = Algorithm::ThompsonSampling;
    assert_eq!(select(&b, &cfg, 3), (1, "thompson: untried option 1".to_string()));
}

#[test]
fn weights_draw_options() {
    let cum = nums(&[0.2, 0.5, 1.0]);
    assert_eq!(select_weighted(num(1.0), &cum, num(0.1)), (0, "weighted selection"));
    assert_eq!(select_weighted(num(1.0), &cum, num(0.5)), (2, "weighted selection"));
    assert_eq!(select_weighted(num(1.0), &cum, num(1.0)), (2, "weighted selection (rounding)"));
    assert_eq!(select_weighted(num(0.0), &cum, num(0.0)), (0, "zero weights, defaulting"));
    let (i, why) = select_softmax(num(1.0), &cum, num(0.3), num(0.5));
    assert_eq!((i, text(&why)), (1, "softmax (temp=0.50)".to_string()));
    let (i, why) = select_epsilon_greedy(num(0.05), num(0.1), num(1.5), &cum);
    assert_eq!((i, text(&why)), (1, "epsilon-greedy explore (eps=0.100)".to_string()));
    let (i, why) = select_epsilon_greedy(num(0.5), num(0.1), num(1.5), &cum);
    assert_eq!((i, text(&why)), (2, "epsilon-greedy exploit".to_string()));
}

#[test]
fn the_first_of_the_best_is_taken() {
    let (i, s) = best_score(&nums(&[0.1, 0.7, 0.7, f64::NAN]));
    assert_eq!((i, value(s)), (1, 0.7));
    let (i, s) = best_score(&vec![]);
    assert_eq!((i, value(s)), (0, f64::NEG_INFINITY));
}

#[test]
fn frontiers_are_chosen_from_by_weight() {
    let w = nums(&[0.1, 0.6, 0.3]);
    assert_eq!(select_pareto(&vec![], &w), (0, "empty frontier".to_string()));
    assert_eq!(select_pareto(&vec![2], &w), (2, "single non-dominated option".to_string()));
    assert_eq!(select_pareto(&vec![0, 2], &w), (2, "pareto frontier (2 options)".to_string()));
    let cfg = LearningConfig::default();
    assert_eq!(pareto(&make_bucket(3), &cfg, 3), vec![0, 1, 2]);
}

#[test]
fn outcomes_come_to_rewards() {
    let mut weights: Table<Real> = Table::new();
    weights.insert("ok".to_string(), num(2.0));
    weights.insert("cost".to_string(), num(-0.5));
    weights.insert("absent".to_string(), num(9.0));
    let outcome = parse_json_text("{\"ok\": true, \"cost\": 3, \"x\": 1}").unwrap();
    assert_eq!(reward_of(&outcome, &RewardPolicy { weights }), 0.5);
    let spec = parse_json_text(
        "{\"components\": [{\"name\": \"a\", \"weight\": 0.5, \"normalize\": \"minmax\", \
         \"range\": [0, 10]}, {\"name\": \"b\", \"weight\": 0.5, \"normalize\": \"budget\", \
         \"budget\": 4}, {\"name\": \"c\", \"weight\": 1}, {\"weight\": 7}]}",
    )
    .unwrap();
    let parts = parse_json_text("{\"a\": 5, \"b\": 1, \"c\": 0.5}").unwrap();
    assert_eq!(reward_of_components(&spec, &parts), 0.875);
    assert_eq!(reward_of_components(&Json::Null, &parts), 0.0);
}

#[test]
fn action_space_discrete_returns_no_midpoint() {
    let a = ActionSpace::Discrete;
    assert!(a.bucket_midpoint(0).is_none());
    assert!(a.bucket_midpoint(5).is_none());
}

#[test]
fn action_space_continuous_midpoint_math() {
    let a = ActionSpace::Continuous { range: [num(0.0), num(1.0)], buckets: 5 };
    assert!((bucket_midpoint(&a, 0).unwrap() - 0.1).abs() < 1e-9);
    assert!((bucket_midpoint(&a, 2).unwrap() - 0.5).abs() < 1e-9);
    assert!((bucket_midpoint(&a, 4).unwrap() - 0.9).abs() < 1e-9);
    assert!(bucket_midpoint(&a, 5).is_none());
}

#[test]
fn action_space_continuous_negative_range() {
    let a = ActionSpace::Continuous { range: [num(-100.0), num(100.0)], buckets: 4 };
    assert!((bucket_midpoint(&a, 0).unwrap() - (-75.0)).abs() < 1e-9);
    assert!((bucket_midpoint(&a, 3).unwrap() - 75.0).abs() < 1e-9);
}

#[test]
fn changes_of_weights_are_bounded() {
    assert_eq!(value(bounded_rate(num(0.0))), 0.0001);
    assert_eq!(value(bounded_rate(num(0.25))), 0.25);
    assert_eq!(value(bounded_rate(num(7.0))), 0.5);
    assert_eq!(value(bounded_delta(num(-0.4), num(0.15))), -0.15);
    assert_eq!(value(bounded_delta(num(0.1), num(0.15))), 0.1);
}

#[test]
fn states_have_their_numbers() {
    let mut b = make_bucket(2);
    b.option_states = vec![OptionState::beta(num(2.0), num(3.0)), OptionState::ucb_initial()];
    let w = nums(&[0.25]);
    assert_eq!(
        state_numbers(&b, &w, Algorithm::SimpleWeighted),
        vec![(num(0.25), num(0.0)), (num(0.5), num(0.0))]
    );
    b.option_states[1] = OptionState::beta(num(4.0), num(5.0));
    assert_eq!(
        state_numbers(&b, &w, Algorithm::ThompsonSampling),
        vec![(num(2.0), num(3.0)), (num(4.0), num(5.0))]
    );
}

#[test]
fn tries_are_counted_for_spreads() {
    let mut cfg = LearningConfig::default();
    let mut s = OptionStats::default();
    assert_eq!(value(counted_tries(&s, &cfg)), 1.0);
    s.tries = 8;
    s.effective_tries = num(2.5);
    assert_eq!(value(counted_tries(&s, &cfg)), 8.0);
    cfg.decay.enabled = true;
    assert_eq!(value(counted_tries(&s, &cfg)), 2.5);
}

#[test]
fn no_band_is_asked_for_where_bands_are_off() {
    let mut b = make_bucket(2);
    b.conformity_calibrator = ConformalCalibrator::new(10, 0);
    let cfg = LearningConfig::default();
    assert!(!cfg.conformal.enabled);
    assert!(conformal_band_radius(&b, &cfg, num(1.0)).is_none());
    assert_eq!(prediction_set(&b, &cfg, 2), vec![0, 1]);
}

#[test]
fn surprises_are_counted_within_the_window() {
    assert_eq!(counted_surprises(2, 10), (3, 2));
    assert_eq!(counted_surprises(10, 10), (10, 10));
    assert_eq!(counted_surprises(u32::MAX, 4), (4, 4));
    assert_eq!(counted_surprises(0, 0), (0, 0));
}

fn watched(recent: u32) -> OptionStats {
    let mut s = OptionStats::default();
    s.tries = 10;
    s.surprise_recent = recent;
    s.window = vec![num(0.5); 8];
    s
}

#[test]
fn surprises_are_measured_against_their_limits() {
    let mut c = LearningConfig::default().change_detection;
    c.surprise_k_sigma = num(1.5);
    c.surprise_fraction_threshold = num(0.25);
    c.boost_duration = 7;
    // A deviation at the limit is no surprise; the share without it counts.
    let mut s = watched(1);
    let shares = (num(0.25), num(0.125));
    assert!(!check_change_point_model_surprise(&mut s, num(1.5), shares, &c));
    assert_eq!((s.surprise_recent, s.change_points), (0, 0));
    // Above it the share with it counts, and a share at its limit is enough.
    let mut s = watched(1);
    assert!(check_change_point_model_surprise(&mut s, num(1.6), shares, &c));
    assert_eq!((s.surprise_recent, s.change_points, s.change_boost_remaining), (0, 1, 7));
    // A surprise that is not enough is remembered.
    let mut s = watched(0);
    let few = (num(0.125), num(0.0));
    assert!(!check_change_point_model_surprise(&mut s, num(9.0), few, &c));
    assert_eq!((s.surprise_recent, s.change_points), (1, 0));
    // No number is no surprise.
    let mut s = watched(2);
    assert!(!check_change_point_model_surprise(&mut s, num(f64::NAN), few, &c));
    assert_eq!(s.surprise_recent, 1);
}
