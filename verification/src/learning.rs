//! Choosing options, and what feedback does.
use crate::conformal::{at_rank, keep_latest, latest};
use crate::feature_schema::{MINUS_INFINITY, copy_reals};
use crate::json::{Js, Json, js, jss};
use crate::learning_config::{DelayedSignalSpec, LearningConfig, RewardPolicy};
use crate::learning_memory::{BucketView, ContextBucket, OptionState, StateView, share_of, state_views};
use crate::learning_sections::{Algorithm, ChangeDetectionConfig, WindowConfig};
use crate::learning_stats::{OptionStats, StatsView};
use crate::message::{Part, Piece, message_parts, part, t, told};
use crate::number::{ONE, Real, cut_to};
use crate::real_constants::{R_0_01, R_0_99, R_1EM09};
use crate::strings::{cat3, cat5};
use crate::text::{dec, labelled, same, u64_text};
use vstd::prelude::*;
use vstd::string::StringExecFns;

verus! {

// Choosing

/// How an option is chosen: it is settled, or by numbers that the host computes.
#[derive(Debug)]
pub enum Plan {
    Settled(usize, String),
    Weighted,
    Explore,
    Bounds,
    BetaSamples,
    GaussianSamples,
    Softmax(Real),
}

/// A plan with its text as a sequence.
pub enum PlanView {
    Settled(int, Seq<char>),
    Weighted,
    Explore,
    Bounds,
    BetaSamples,
    GaussianSamples,
    Softmax(Real),
}

impl Plan {
    pub open spec fn seen(self) -> PlanView {
        match self {
            Plan::Settled(i, s) => PlanView::Settled(i as int, s@),
            Plan::Weighted => PlanView::Weighted,
            Plan::Explore => PlanView::Explore,
            Plan::Bounds => PlanView::Bounds,
            Plan::BetaSamples => PlanView::BetaSamples,
            Plan::GaussianSamples => PlanView::GaussianSamples,
            Plan::Softmax(r) => PlanView::Softmax(r),
        }
    }
}

/// The first of `n` options that was never tried.
pub open spec fn first_untried(s: Seq<OptionStats>, n: int, i: int) -> int
    decreases n - i,
{
    if i >= n || i >= s.len() || s[i].tries == 0 {
        i
    } else {
        first_untried(s, n, i + 1)
    }
}

fn find_untried(s: &Vec<OptionStats>, n: usize) -> (i: usize)
    ensures
        i == first_untried(s@, n as int, 0),
        i <= n,
{
    let mut i: usize = 0;
    while i < n
        invariant
            i <= n,
            first_untried(s@, n as int, 0) == first_untried(s@, n as int, i as int),
        decreases n - i,
    {
        if i >= s.len() || s[i].tries == 0 {
            return i;
        }
        i = i + 1;
    }
    i
}

/// None of the first `n` options was ever tried.
pub open spec fn none_tried(s: Seq<OptionStats>, n: int) -> bool {
    forall|i: int| 0 <= i < n && i < s.len() ==> (#[trigger] s[i]).tries == 0
}

fn check_none_tried(s: &Vec<OptionStats>, n: usize) -> (b: bool)
    ensures
        b == none_tried(s@, n as int),
{
    let mut i: usize = 0;
    while i < n && i < s.len()
        invariant
            i <= s.len(),
            i <= n,
            forall|k: int| 0 <= k < i ==> (#[trigger] s@[k]).tries == 0,
        decreases s.len() - i,
    {
        if s[i].tries > 0 {
            return false;
        }
        i = i + 1;
    }
    true
}

pub open spec fn any_beta(s: Seq<OptionState>) -> bool {
    exists|i: int| 0 <= i < s.len() && (#[trigger] s[i]) is BetaBernoulli
}

fn has_beta(s: &Vec<OptionState>) -> (b: bool)
    ensures
        b == any_beta(s@),
{
    let mut i: usize = 0;
    while i < s.len()
        invariant
            i <= s.len(),
            forall|k: int| 0 <= k < i ==> !((#[trigger] s@[k]) is BetaBernoulli),
        decreases s.len() - i,
    {
        if matches!(s[i], OptionState::BetaBernoulli { .. }) {
            assert(s@[i as int] is BetaBernoulli);
            return true;
        }
        i = i + 1;
    }
    false
}

/// How one of `n` options is chosen.
pub open spec fn plan_for(b: ContextBucket, algorithm: Algorithm, n: int) -> PlanView {
    if n == 0 {
        PlanView::Settled(0, "no options"@)
    } else if n == 1 {
        PlanView::Settled(0, "single option"@)
    } else {
        let untried = first_untried(b.stats@, n, 0);
        match algorithm {
            Algorithm::SimpleWeighted => PlanView::Weighted,
            Algorithm::EpsilonGreedy { .. } => PlanView::Explore,
            Algorithm::Ucb1 => if none_tried(b.stats@, n) {
                PlanView::Settled(0, "ucb1: no data, trying first"@)
            } else if untried < n {
                PlanView::Settled(untried, "ucb1: untried option "@ + dec(untried))
            } else {
                PlanView::Bounds
            },
            Algorithm::ThompsonSampling => if any_beta(b.option_states@) {
                PlanView::BetaSamples
            } else if untried < n {
                PlanView::Settled(untried, "thompson: untried option "@ + dec(untried))
            } else {
                PlanView::GaussianSamples
            },
            Algorithm::Softmax { temperature } => PlanView::Softmax(
                temperature.spec_max(Real { bits: R_0_01 }),
            ),
        }
    }
}

/// Decides how one of `n_options` options is chosen.
pub fn select_option(bucket: &ContextBucket, config: &LearningConfig, n_options: usize) -> (p: Plan)
    ensures
        p.seen() == plan_for(*bucket, config.algorithm, n_options as int),
{
    if n_options == 0 {
        return Plan::Settled(0, String::from_str("no options"));
    }
    if n_options == 1 {
        return Plan::Settled(0, String::from_str("single option"));
    }
    let untried: usize = find_untried(&bucket.stats, n_options);
    match config.algorithm {
        Algorithm::SimpleWeighted => Plan::Weighted,
        Algorithm::EpsilonGreedy { .. } => Plan::Explore,
        Algorithm::Ucb1 => if check_none_tried(&bucket.stats, n_options) {
            Plan::Settled(0, String::from_str("ucb1: no data, trying first"))
        } else if untried < n_options {
            Plan::Settled(untried, labelled("ucb1: untried option ", untried as u64))
        } else {
            Plan::Bounds
        },
        Algorithm::ThompsonSampling => if has_beta(&bucket.option_states) {
            Plan::BetaSamples
        } else if untried < n_options {
            Plan::Settled(untried, labelled("thompson: untried option ", untried as u64))
        } else {
            Plan::GaussianSamples
        },
        Algorithm::Softmax { temperature } => Plan::Softmax(temperature.max(Real { bits: R_0_01 })),
    }
}

/// The first place where the running sum exceeds the roll.
pub open spec fn first_over(cum: Seq<Real>, roll: Real, i: int) -> int
    decreases cum.len() - i,
{
    if i >= cum.len() || roll.below(cum[i]) {
        i
    } else {
        first_over(cum, roll, i + 1)
    }
}

fn find_over(cum: &Vec<Real>, roll: Real) -> (i: usize)
    ensures
        i == first_over(cum@, roll, 0),
        i <= cum@.len(),
{
    let mut i: usize = 0;
    while i < cum.len()
        invariant
            i <= cum.len(),
            first_over(cum@, roll, 0) == first_over(cum@, roll, i as int),
        decreases cum.len() - i,
    {
        if roll.lt(cum[i]) {
            return i;
        }
        i = i + 1;
    }
    i
}

/// A choice by weight: `sum` is that of the weights, `cum` are the running sums,
/// and `roll` is a part of `sum`.
pub open spec fn weighted_choice(sum: Real, cum: Seq<Real>, roll: Real) -> (int, Seq<char>) {
    let i = first_over(cum, roll, 0);
    if sum.at_most(Real { bits: 0 }) {
        (0, "zero weights, defaulting"@)
    } else if i < cum.len() {
        (i, "weighted selection"@)
    } else {
        (cum.len() - 1, "weighted selection (rounding)"@)
    }
}

/// Chooses by weight.
pub fn select_weighted(sum: Real, cum: &Vec<Real>, roll: Real) -> (r: (usize, &'static str))
    requires
        cum@.len() > 0,
    ensures
        (r.0 as int, r.1@) == weighted_choice(sum, cum@, roll),
        r.0 < cum@.len(),
{
    if sum.le(Real { bits: 0 }) {
        return (0, "zero weights, defaulting");
    }
    let i: usize = find_over(cum, roll);
    if i < cum.len() {
        (i, "weighted selection")
    } else {
        (cum.len() - 1, "weighted selection (rounding)")
    }
}

/// The first option with the best score, and the score; the first option and
/// minus infinity where no score is above that.
pub open spec fn best_of(s: Seq<Real>) -> (int, Real)
    decreases s.len(),
{
    if s.len() == 0 {
        (0, Real { bits: MINUS_INFINITY })
    } else {
        let b = best_of(s.drop_last());
        if b.1.below(s.last()) {
            (s.len() - 1, s.last())
        } else {
            b
        }
    }
}

/// The first option with the best score, and the score.
pub fn best_score(s: &Vec<Real>) -> (r: (usize, Real))
    ensures
        (r.0 as int, r.1) == best_of(s@),
        s@.len() > 0 ==> r.0 < s@.len(),
{
    let mut at: usize = 0;
    let mut best = Real { bits: MINUS_INFINITY };
    let mut i: usize = 0;
    assert(s@.take(0) =~= Seq::<Real>::empty());
    while i < s.len()
        invariant
            i <= s.len(),
            (at as int, best) == best_of(s@.take(i as int)),
            at == 0 || at < i,
        decreases s.len() - i,
    {
        assert(s@.take(i + 1).drop_last() =~= s@.take(i as int));
        if best.lt(s[i]) {
            best = s[i];
            at = i;
        }
        i = i + 1;
    }
    assert(s@.take(i as int) =~= s@);
    (at, best)
}

/// No score is above the best.
pub proof fn best_is_best(s: Seq<Real>)
    requires
        forall|i: int| 0 <= i < s.len() ==> !(#[trigger] s[i]).spec_is_nan(),
    ensures
        forall|i: int| 0 <= i < s.len() ==> !best_of(s).1.below(#[trigger] s[i]),
        !best_of(s).1.spec_is_nan(),
    decreases s.len(),
{
    if s.len() > 0 {
        let front = s.drop_last();
        assert forall|i: int| 0 <= i < front.len() implies !(#[trigger] front[i]).spec_is_nan() by {
            assert(front[i] == s[i]);
        }
        best_is_best(front);
        assert(!s[s.len() - 1].spec_is_nan());
        assert forall|i: int| 0 <= i < s.len() implies !best_of(s).1.below(#[trigger] s[i]) by {
            if i < front.len() {
                assert(!best_of(front).1.below(front[i]));
                assert(!front[i].spec_is_nan());
            }
        }
    }
}

/// An option chosen at random, or the best one.
pub open spec fn epsilon_choice(
    roll: Real,
    epsilon: Real,
    pick: Real,
    scores: Seq<Real>,
) -> (int, Seq<Part>) {
    if roll.below(epsilon) {
        let i = cut_to(pick, usize::MAX as nat);
        (
            if i < scores.len() {
                i as int
            } else {
                scores.len() - 1
            },
            seq![
                Part::Text("epsilon-greedy explore (eps="@),
                Part::Fixed(epsilon, 3),
                Part::Text(")"@),
            ],
        )
    } else {
        (best_of(scores).0, t("epsilon-greedy exploit"@))
    }
}

/// Chooses at random where the roll is below `epsilon`, else the best. `pick` is
/// a roll times the number of options.
pub fn select_epsilon_greedy(roll: Real, epsilon: Real, pick: Real, scores: &Vec<Real>) -> (r: (
    usize,
    Vec<Piece>,
))
    requires
        scores@.len() > 0,
    ensures
        (r.0 as int, message_parts(r.1@)) == epsilon_choice(roll, epsilon, pick, scores@),
        r.0 < scores@.len(),
{
    if roll.lt(epsilon) {
        let i: usize = pick.to_usize();
        let at: usize = if i < scores.len() {
            i
        } else {
            scores.len() - 1
        };
        let mut m: Vec<Piece> = Vec::new();
        m.push(Piece::Text(String::from_str("epsilon-greedy explore (eps=")));
        m.push(Piece::Fixed(epsilon, 3));
        m.push(Piece::Text(String::from_str(")")));
        assert(message_parts(m@) =~= seq![
            Part::Text("epsilon-greedy explore (eps="@),
            Part::Fixed(epsilon, 3),
            Part::Text(")"@),
        ]);
        return (at, m);
    }
    let (at, _) = best_score(scores);
    (at, told(String::from_str("epsilon-greedy exploit")))
}

/// Chooses by the scores' shares: `cum` are the running sums of their
/// exponentials, `sum` is the last of them, and `roll` is a part of it.
pub fn select_softmax(sum: Real, cum: &Vec<Real>, roll: Real, temp: Real) -> (r: (
    usize,
    Vec<Piece>,
))
    requires
        cum@.len() > 0,
    ensures
        ({
            let i = first_over(cum@, roll, 0);
            if sum.at_most(Real { bits: 0 }) {
                r.0 == 0 && message_parts(r.1@) == t("softmax: degenerate"@)
            } else if i < cum@.len() {
                r.0 == i && message_parts(r.1@) == seq![
                    Part::Text("softmax (temp="@),
                    Part::Fixed(temp, 2),
                    Part::Text(")"@),
                ]
            } else {
                r.0 == cum@.len() - 1 && message_parts(r.1@) == t("softmax (rounding)"@)
            }
        }),
{
    if sum.le(Real { bits: 0 }) {
        return (0, told(String::from_str("softmax: degenerate")));
    }
    let i: usize = find_over(cum, roll);
    if i < cum.len() {
        let mut m: Vec<Piece> = Vec::new();
        m.push(Piece::Text(String::from_str("softmax (temp=")));
        m.push(Piece::Fixed(temp, 2));
        m.push(Piece::Text(String::from_str(")")));
        assert(message_parts(m@) =~= seq![
            Part::Text("softmax (temp="@),
            Part::Fixed(temp, 2),
            Part::Text(")"@),
        ]);
        (i, m)
    } else {
        (cum.len() - 1, told(String::from_str("softmax (rounding)")))
    }
}

/// Which mean of an option's rewards counts.
#[derive(Clone, Copy, Debug, PartialEq, Eq, Structural)]
pub enum MeanKind {
    Trimmed(Real),
    Windowed,
    Decayed,
    Plain,
}

/// How an option is scored: by a mean, and by how much the worst rewards weigh.
#[derive(Clone, Copy, Debug)]
pub struct Scoring {
    pub mean: MeanKind,
    /// The share of the worst rewards, and how much they weigh.
    pub tail: Option<(Real, Real)>,
}

pub open spec fn scoring(s: OptionStats, c: LearningConfig) -> Option<Scoring> {
    if s.tries == 0 {
        None
    } else {
        Some(
            Scoring {
                mean: if (Real { bits: 0 }).below(c.safety.trimmed_fraction) && s.window@.len() > 0 {
                    MeanKind::Trimmed(c.safety.trimmed_fraction)
                } else if c.window.enabled && s.window@.len() > 0 {
                    MeanKind::Windowed
                } else if c.decay.enabled {
                    MeanKind::Decayed
                } else {
                    MeanKind::Plain
                },
                tail: if c.risk_sensitive.enabled && s.window@.len() > 0 {
                    Some((c.risk_sensitive.alpha, c.risk_sensitive.blend))
                } else {
                    None
                },
            },
        )
    }
}

/// How an option is scored; nothing while it was never tried.
pub fn stats_score(s: &OptionStats, config: &LearningConfig) -> (r: Option<Scoring>)
    ensures
        r == scoring(*s, *config),
{
    if s.tries == 0 {
        return None;
    }
    let seen = s.window.len() > 0;
    let mean = if Real::zero().lt(config.safety.trimmed_fraction) && seen {
        MeanKind::Trimmed(config.safety.trimmed_fraction)
    } else if config.window.enabled && seen {
        MeanKind::Windowed
    } else if config.decay.enabled {
        MeanKind::Decayed
    } else {
        MeanKind::Plain
    };
    let tail = if config.risk_sensitive.enabled && seen {
        Some((config.risk_sensitive.alpha, config.risk_sensitive.blend))
    } else {
        None
    };
    Some(Scoring { mean, tail })
}

// Feedback

/// A reward held within the clip, where there is one.
pub open spec fn clipped(reward: Real, clip: Real) -> Real {
    if (Real { bits: 0 }).below(clip) {
        reward.spec_clamp(clip.spec_negated(), clip)
    } else {
        reward
    }
}

/// Why feedback is refused.
pub open spec fn feedback_fault(c: LearningConfig, option: int, n: int) -> Option<Seq<char>> {
    if c.safety.freeze_learning {
        Some("learning is frozen"@)
    } else if option >= n {
        Some("option "@ + dec(option) + " out of range ("@ + dec(n) + " options)"@)
    } else {
        None
    }
}

/// Checks feedback, and holds its reward within the clip.
pub fn begin_feedback(
    bucket: &ContextBucket,
    option: usize,
    reward: Real,
    config: &LearningConfig,
) -> (r: Result<Real, String>)
    ensures
        match feedback_fault(*config, option as int, bucket.weights@.len() as int) {
            Some(e) => r is Err && r->Err_0@ == e,
            None => r is Ok && r->Ok_0 == clipped(reward, config.safety.reward_clip),
        },
{
    if config.safety.freeze_learning {
        return Err(String::from_str("learning is frozen"));
    }
    let n: usize = bucket.weights.len();
    if option >= n {
        return Err(
            cat5(
                "option ",
                u64_text(option as u64).as_str(),
                " out of range (",
                u64_text(n as u64).as_str(),
                " options)",
            ),
        );
    }
    let clip = config.safety.reward_clip;
    Ok(
        if Real::zero().lt(clip) {
            reward.clamp(clip.negated(), clip)
        } else {
            reward
        },
    )
}

/// The place of a delayed signal's declaration.
pub open spec fn signal_place(s: Seq<DelayedSignalSpec>, name: Seq<char>, i: int) -> int
    decreases s.len() - i,
{
    if i >= s.len() || s[i].name@ == name {
        i
    } else {
        signal_place(s, name, i + 1)
    }
}

/// Checks feedback by a delayed signal: gives the place of its declaration and
/// the observation held within the clip.
pub fn begin_signal(
    bucket: &ContextBucket,
    option: usize,
    observed: Real,
    signal_name: &str,
    config: &LearningConfig,
) -> (r: Result<(usize, Real), String>)
    ensures
        match feedback_fault(*config, option as int, bucket.weights@.len() as int) {
            Some(e) => r is Err && r->Err_0@ == e,
            None => {
                let at = signal_place(config.delayed_feedback.signals@, signal_name@, 0);
                if at < config.delayed_feedback.signals@.len() {
                    r is Ok && r->Ok_0.0 == at && r->Ok_0.1 == clipped(
                        observed,
                        config.safety.reward_clip,
                    )
                } else {
                    r is Err && r->Err_0@ == "unknown signal '"@ + signal_name@ + "'"@
                }
            },
        },
{
    let held = match begin_feedback(bucket, option, observed, config) {
        Ok(x) => x,
        Err(e) => {
            return Err(e);
        },
    };
    let s = &config.delayed_feedback.signals;
    let mut i: usize = 0;
    while i < s.len()
        invariant
            i <= s.len(),
            *s == config.delayed_feedback.signals,
            feedback_fault(*config, option as int, bucket.weights@.len() as int) is None,
            held == clipped(observed, config.safety.reward_clip),
            signal_place(s@, signal_name@, 0) == signal_place(s@, signal_name@, i as int),
        decreases s.len() - i,
    {
        if same(s[i].name.as_str(), signal_name) {
            return Ok((i, held));
        }
        i = i + 1;
    }
    Err(cat3("unknown signal '", signal_name, "'"))
}

/// The recent rewards after one more, where recent ones are kept.
pub open spec fn window_after(w: Seq<Real>, reward: Real, c: WindowConfig) -> Seq<Real> {
    if c.enabled {
        latest(w.push(reward), c.size as int)
    } else {
        w
    }
}

/// The recent rewards after one more, where recent ones are kept.
pub fn next_window(window: &Vec<Real>, reward: Real, config: &WindowConfig) -> (r: Vec<Real>)
    ensures
        r@ == window_after(window@, reward, *config),
{
    let mut w = copy_reals(window);
    if config.enabled {
        w.push(reward);
        keep_latest(&mut w, config.size);
    }
    w
}

/// What one more reward does to an option's statistics. The sums are those with
/// the reward added.
pub open spec fn counted(
    s: StatsView,
    reward: Real,
    sums: (Real, Real, Real),
    now: u64,
    window: WindowConfig,
) -> StatsView {
    StatsView {
        tries: (s.tries + 1) as u64,
        successes: (s.successes + (if (Real { bits: 0 }).below(reward) {
            1int
        } else {
            0
        })) as u64,
        failures: (s.failures + (if reward.below(Real { bits: 0 }) {
            1int
        } else {
            0
        })) as u64,
        reward_sum: sums.0,
        reward_sq_sum: sums.1,
        effective_tries: sums.2,
        last_reward: reward,
        last_updated: now,
        window: window_after(s.window, reward, window),
        change_boost_remaining: if s.change_boost_remaining > 0 {
            (s.change_boost_remaining - 1) as u32
        } else {
            0
        },
        ..s
    }
}

/// Counts one more reward.
pub fn count_feedback(
    s: &mut OptionStats,
    reward: Real,
    sums: (Real, Real, Real),
    now: u64,
    window: &WindowConfig,
)
    requires
        old(s).wf(),
        old(s).tries < u64::MAX,
        old(s).successes < u64::MAX,
        old(s).failures < u64::MAX,
    ensures
        final(s).wf(),
        final(s).seen() == counted(old(s).seen(), reward, sums, now, *window),
{
    s.tries = s.tries + 1;
    if Real::zero().lt(reward) {
        s.successes = s.successes + 1;
    } else if reward.lt(Real::zero()) {
        s.failures = s.failures + 1;
    }
    s.reward_sum = sums.0;
    s.reward_sq_sum = sums.1;
    s.effective_tries = sums.2;
    s.last_reward = reward;
    s.last_updated = now;
    if window.enabled {
        s.window.push(reward);
        keep_latest(&mut s.window, window.size);
    }
    if s.change_boost_remaining > 0 {
        s.change_boost_remaining = s.change_boost_remaining - 1;
    }
}

/// What the sums of deviations, up and down, do: a shift is noted where one
/// passes the threshold, and both start anew.
pub open spec fn page_hinkley(s: StatsView, up: Real, down: Real, c: ChangeDetectionConfig) -> (
    StatsView,
    bool,
) {
    let a = up.spec_max(Real { bits: 0 });
    let b = down.spec_max(Real { bits: 0 });
    if s.tries < 5 {
        (s, false)
    } else if c.threshold.below(a) || c.threshold.below(b) {
        (
            StatsView {
                change_points: (s.change_points + 1) as u32,
                change_boost_remaining: c.boost_duration,
                ph_cumsum: Real { bits: 0 },
                ph_min: Real { bits: 0 },
                ..s
            },
            true,
        )
    } else {
        (StatsView { ph_cumsum: a, ph_min: b, ..s }, false)
    }
}

/// Takes the sums of deviations, up and down, with the latest added.
pub fn check_change_point_page_hinkley(
    s: &mut OptionStats,
    up: Real,
    down: Real,
    config: &ChangeDetectionConfig,
) -> (changed: bool)
    requires
        old(s).wf(),
        old(s).change_points < u32::MAX,
    ensures
        final(s).wf(),
        (final(s).seen(), changed) == page_hinkley(old(s).seen(), up, down, *config),
{
    if s.tries < 5 {
        return false;
    }
    s.ph_cumsum = up.max(Real { bits: 0 });
    s.ph_min = down.max(Real { bits: 0 });
    if config.threshold.lt(s.ph_cumsum) || config.threshold.lt(s.ph_min) {
        s.change_points = s.change_points + 1;
        s.change_boost_remaining = config.boost_duration;
        s.ph_cumsum = Real { bits: 0 };
        s.ph_min = Real { bits: 0 };
        return true;
    }
    false
}

/// Whether a reward that lies so many deviations from the mean is surprising.
pub open spec fn surprises(deviation: Real, c: ChangeDetectionConfig) -> bool {
    c.surprise_k_sigma.below(deviation)
}

/// Whether the surprises are enough for a shift: `shares` are their shares in the
/// window with the latest reward counted as one, and without it.
pub open spec fn surprises_enough(
    deviation: Real,
    shares: (Real, Real),
    c: ChangeDetectionConfig,
) -> bool {
    c.surprise_fraction_threshold.at_most(
        if surprises(deviation, c) {
            shares.0
        } else {
            shares.1
        },
    )
}

/// How many of the latest `window` rewards count as surprises, with the latest as
/// one and without it.
pub fn counted_surprises(recent: u32, window: usize) -> (r: (u64, u64))
    ensures
        r.0 == (if raised(recent) < window {
            raised(recent) as int
        } else {
            window as int
        }),
        r.1 == (if recent < window {
            recent as int
        } else {
            window as int
        }),
{
    let more: u32 = if recent < u32::MAX {
        recent + 1
    } else {
        recent
    };
    let most: u64 = window as u64;
    (
        if (more as u64) < most {
            more as u64
        } else {
            most
        },
        if (recent as u64) < most {
            recent as u64
        } else {
            most
        },
    )
}

/// What a reward that lies so many deviations from the mean does: enough
/// surprises among the recent rewards note a shift.
pub open spec fn surprise(
    s: StatsView,
    deviation: Real,
    shares: (Real, Real),
    c: ChangeDetectionConfig,
) -> (StatsView, bool) {
    if s.tries < 5 || s.window.len() < 4 {
        (s, false)
    } else if surprises_enough(deviation, shares, c) {
        (
            StatsView {
                change_points: (s.change_points + 1) as u32,
                change_boost_remaining: c.boost_duration,
                surprise_recent: 0,
                ..s
            },
            true,
        )
    } else if surprises(deviation, c) {
        (StatsView { surprise_recent: raised(s.surprise_recent), ..s }, false)
    } else if s.surprise_recent > 0 {
        (StatsView { surprise_recent: (s.surprise_recent - 1) as u32, ..s }, false)
    } else {
        (s, false)
    }
}

/// One more, held within 32 bits.
pub open spec fn raised(n: u32) -> u32 {
    if n < u32::MAX {
        (n + 1) as u32
    } else {
        n
    }
}

/// Takes how many deviations the latest reward lies from the mean, and the shares
/// of surprises in the window with it counted as one and without it.
pub fn check_change_point_model_surprise(
    s: &mut OptionStats,
    deviation: Real,
    shares: (Real, Real),
    config: &ChangeDetectionConfig,
) -> (changed: bool)
    requires
        old(s).wf(),
        old(s).change_points < u32::MAX,
    ensures
        final(s).wf(),
        (final(s).seen(), changed) == surprise(old(s).seen(), deviation, shares, *config),
{
    if s.tries < 5 || s.window.len() < 4 {
        return false;
    }
    let surprising = config.surprise_k_sigma.lt(deviation);
    let share = if surprising {
        shares.0
    } else {
        shares.1
    };
    if surprising && s.surprise_recent < u32::MAX {
        s.surprise_recent = s.surprise_recent + 1;
    }
    if config.surprise_fraction_threshold.le(share) {
        s.change_points = s.change_points + 1;
        s.change_boost_remaining = config.boost_duration;
        s.surprise_recent = 0;
        return true;
    }
    if !surprising && s.surprise_recent > 0 {
        s.surprise_recent = s.surprise_recent - 1;
    }
    false
}

/// The kind of state that an algorithm keeps.
pub open spec fn fits_algorithm(s: StateView, a: Algorithm) -> bool {
    match a {
        Algorithm::ThompsonSampling => s is BetaBernoulli,
        Algorithm::Ucb1 => s is Ucb,
        _ => s is Weighted,
    }
}

pub open spec fn all_fit(s: Seq<StateView>, a: Algorithm) -> bool {
    forall|i: int| 0 <= i < s.len() ==> fits_algorithm(#[trigger] s[i], a)
}

/// The weight of an option, or an equal share of `n`.
pub open spec fn weight_or_share(w: Seq<Real>, i: int, n: nat) -> Real {
    if i < w.len() {
        w[i]
    } else {
        share_of(n)
    }
}

/// Fresh states of the kind that an algorithm keeps.
pub open spec fn restarted(w: Seq<Real>, n: nat, a: Algorithm) -> Seq<StateView> {
    Seq::new(
        n,
        |i: int|
            match a {
                Algorithm::ThompsonSampling => StateView::BetaBernoulli {
                    alpha: Real { bits: ONE },
                    beta: Real { bits: ONE },
                },
                Algorithm::Ucb1 => StateView::Ucb { tries: Real { bits: 0 }, total_reward: Real { bits: 0 } },
                _ => StateView::Weighted { weight: weight_or_share(w, i, n) },
            },
    )
}

/// Whether all states are of the kind that the algorithm keeps.
pub fn check_all_fit(states: &Vec<OptionState>, a: Algorithm) -> (b: bool)
    ensures
        b == all_fit(state_views(states@), a),
{
    let ghost sv = state_views(states@);
    let mut i: usize = 0;
    while i < states.len()
        invariant
            i <= states@.len(),
            sv == state_views(states@),
            forall|k: int| 0 <= k < i ==> fits_algorithm(#[trigger] sv[k], a),
        decreases states@.len() - i,
    {
        assert(sv[i as int] == states@[i as int].seen());
        let fits = match (&states[i], a) {
            (OptionState::BetaBernoulli { .. }, Algorithm::ThompsonSampling) => true,
            (_, Algorithm::ThompsonSampling) => false,
            (OptionState::Ucb { .. }, Algorithm::Ucb1) => true,
            (_, Algorithm::Ucb1) => false,
            (OptionState::Weighted { .. }, _) => true,
            _ => false,
        };
        assert(fits == fits_algorithm(sv[i as int], a));
        if !fits {
            return false;
        }
        i = i + 1;
    }
    true
}

/// Makes sure that all states are of the kind that the algorithm keeps; where
/// one is not, all start anew.
pub fn ensure_option_states_match_algorithm(bucket: &mut ContextBucket, config: &LearningConfig)
    requires
        old(bucket).option_states@.len() <= 0x20_0000_0000_0000,
    ensures
        final(bucket).seen() == (BucketView {
            option_states: if all_fit(old(bucket).seen().option_states, config.algorithm) {
                old(bucket).seen().option_states
            } else {
                restarted(
                    old(bucket).weights@,
                    old(bucket).option_states@.len(),
                    config.algorithm,
                )
            },
            ..old(bucket).seen()
        }),
        old(bucket).wf() ==> final(bucket).wf(),
{
    let n: usize = bucket.option_states.len();
    let fits = check_all_fit(&bucket.option_states, config.algorithm);
    if fits {
        return ;
    }
    let share = Real::share(n as u64);
    let mut states: Vec<OptionState> = Vec::new();
    let mut k: usize = 0;
    while k < n
        invariant
            k <= n,
            share == share_of(n as nat),
            states@.len() == k,
            *bucket == *old(bucket),
            forall|m: int|
                0 <= m < k ==> (#[trigger] states@[m]).seen() == restarted(
                    bucket.weights@,
                    n as nat,
                    config.algorithm,
                )[m],
        decreases n - k,
    {
        let s = match config.algorithm {
            Algorithm::ThompsonSampling => OptionState::beta(Real { bits: ONE }, Real { bits: ONE }),
            Algorithm::Ucb1 => OptionState::ucb_initial(),
            _ => OptionState::weighted(
                if k < bucket.weights.len() {
                    bucket.weights[k]
                } else {
                    share
                },
            ),
        };
        states.push(s);
        k = k + 1;
    }
    assert(state_views(states@) =~= restarted(bucket.weights@, n as nat, config.algorithm));
    bucket.option_states = states;
}

/// Once the states fit, making sure of it again changes nothing.
pub proof fn restarted_states_fit(w: Seq<Real>, n: nat, a: Algorithm)
    ensures
        all_fit(restarted(w, n, a), a),
{
}

/// Sets all weights, each held between the least and the greatest that a single
/// option may have.
pub fn hold_weights(weights: &Vec<Real>) -> (r: Vec<Real>)
    ensures
        r@ == weights@.map_values(|w: Real| w.spec_clamp(Real { bits: R_0_01 }, Real { bits: R_0_99 })),
{
    let mut r: Vec<Real> = Vec::new();
    let mut i: usize = 0;
    while i < weights.len()
        invariant
            i <= weights.len(),
            r@.len() == i,
            forall|k: int| 0 <= k < i ==> r@[k] == weights@[k].spec_clamp(Real { bits: R_0_01 }, Real { bits: R_0_99 }),
        decreases weights.len() - i,
    {
        r.push(weights[i].clamp(Real { bits: R_0_01 }, Real { bits: R_0_99 }));
        i = i + 1;
    }
    assert(r@ =~= weights@.map_values(|w: Real| w.spec_clamp(Real { bits: R_0_01 }, Real { bits: R_0_99 })));
    r
}

/// The radius of the prediction band, where one is asked for and there are
/// enough residuals; `rank` is the place among them that the coverage stands for.
pub fn conformal_band_radius(bucket: &ContextBucket, config: &LearningConfig, rank: Real) -> (r:
    Option<Real>)
    requires
        config.conformal.enabled ==> bucket.conformity_calibrator.residuals@.len() > 0
            || bucket.conformity_calibrator.min_samples > 0,
    ensures
        r == (if config.conformal.enabled {
            at_rank(
                bucket.conformity_calibrator.residuals@,
                bucket.conformity_calibrator.min_samples as int,
                rank,
            )
        } else {
            None
        }),
{
    if !config.conformal.enabled {
        return None;
    }
    bucket.conformity_calibrator.quantile(rank)
}

/// The options that may be the best: their scores are finite and lie within the
/// radius of the best. Without a radius all may.
pub open spec fn in_prediction_set(
    scores: Seq<Real>,
    gaps: Seq<Real>,
    radius: Option<Real>,
    i: int,
) -> bool {
    match radius {
        Some(r) => scores[i].spec_is_finite() && gaps[i].at_most(r),
        None => true,
    }
}

/// The places up to `n` that are in the prediction set, in order.
pub open spec fn prediction_set(
    scores: Seq<Real>,
    gaps: Seq<Real>,
    radius: Option<Real>,
    n: int,
) -> Seq<usize>
    decreases n,
{
    if n <= 0 {
        Seq::empty()
    } else if in_prediction_set(scores, gaps, radius, n - 1) {
        prediction_set(scores, gaps, radius, n - 1).push((n - 1) as usize)
    } else {
        prediction_set(scores, gaps, radius, n - 1)
    }
}

/// The options that may be the best. `gaps` are the distances of the scores from
/// the best.
pub fn compute_prediction_set(scores: &Vec<Real>, gaps: &Vec<Real>, radius: Option<Real>) -> (r: Vec<
    usize,
>)
    requires
        gaps@.len() == scores@.len(),
    ensures
        r@ == prediction_set(scores@, gaps@, radius, scores@.len() as int),
{
    let mut r: Vec<usize> = Vec::new();
    let mut i: usize = 0;
    while i < scores.len()
        invariant
            i <= scores.len(),
            gaps@.len() == scores@.len(),
            r@ == prediction_set(scores@, gaps@, radius, i as int),
        decreases scores.len() - i,
    {
        let inside = match radius {
            Some(x) => scores[i].is_finite() && gaps[i].le(x),
            None => true,
        };
        if inside {
            r.push(i);
        }
        i = i + 1;
    }
    r
}

// Several objectives

/// `a` is no worse than `b` on any objective and better on one.
pub open spec fn dominates(a: Seq<Real>, b: Seq<Real>) -> bool {
    &&& forall|k: int| 0 <= k < a.len() && k < b.len() ==> b[k].at_most(#[trigger] a[k])
    &&& exists|k: int| 0 <= k < a.len() && k < b.len() && b[k].below(#[trigger] a[k])
}

fn check_dominates(a: &Vec<Real>, b: &Vec<Real>) -> (r: bool)
    ensures
        r == dominates(a@, b@),
{
    let mut better = false;
    let mut k: usize = 0;
    while k < a.len() && k < b.len()
        invariant
            k <= a.len(),
            k <= b.len(),
            forall|j: int| 0 <= j < k ==> b@[j].at_most(#[trigger] a@[j]),
            better == exists|j: int| 0 <= j < k && b@[j].below(#[trigger] a@[j]),
        decreases a.len() - k,
    {
        if !b[k].le(a[k]) {
            assert(!b@[k as int].at_most(a@[k as int]));
            return false;
        }
        if b[k].lt(a[k]) {
            better = true;
            assert(b@[k as int].below(a@[k as int]));
        }
        k = k + 1;
    }
    better
}

/// The scores of each option on each objective.
pub open spec fn dominated(scores: Seq<Vec<Real>>, i: int) -> bool {
    exists|j: int| 0 <= j < scores.len() && j != i && dominates((#[trigger] scores[j])@, scores[i]@)
}

/// The options up to `n` that no other dominates, in order.
pub open spec fn undominated(scores: Seq<Vec<Real>>, n: int) -> Seq<usize>
    decreases n,
{
    if n <= 0 {
        Seq::empty()
    } else if dominated(scores, n - 1) {
        undominated(scores, n - 1)
    } else {
        undominated(scores, n - 1).push((n - 1) as usize)
    }
}

/// The numbers below `n`.
pub open spec fn numbers_below(n: nat) -> Seq<usize> {
    Seq::new(n, |i: int| i as usize)
}

/// The options that no other dominates; all of them where objectives are not
/// weighed or every option is dominated.
pub open spec fn frontier(scores: Seq<Vec<Real>>, weighed: bool) -> Seq<usize> {
    let f = undominated(scores, scores.len() as int);
    if !weighed || f.len() == 0 {
        numbers_below(scores.len())
    } else {
        f
    }
}

fn all_below(n: usize) -> (v: Vec<usize>)
    ensures
        v@ == numbers_below(n as nat),
{
    let mut v: Vec<usize> = Vec::new();
    let mut i: usize = 0;
    while i < n
        invariant
            i <= n,
            v@.len() == i,
            forall|k: int| 0 <= k < i ==> v@[k] == k,
        decreases n - i,
    {
        v.push(i);
        i = i + 1;
    }
    assert(v@ =~= numbers_below(n as nat));
    v
}

/// The options that no other dominates, given the scores of each on each
/// objective.
pub fn pareto_frontier(scores: &Vec<Vec<Real>>, config: &LearningConfig) -> (r: Vec<usize>)
    ensures
        r@ == frontier(
            scores@,
            config.pareto.enabled && config.pareto.objectives@.len() > 0,
        ),
{
    if !config.pareto.enabled || config.pareto.objectives.len() == 0 {
        return all_below(scores.len());
    }
    let mut r: Vec<usize> = Vec::new();
    let mut i: usize = 0;
    while i < scores.len()
        invariant
            i <= scores.len(),
            r@ == undominated(scores@, i as int),
        decreases scores.len() - i,
    {
        let mut j: usize = 0;
        let mut beaten = false;
        while j < scores.len() && !beaten
            invariant
                i < scores.len(),
                j <= scores.len(),
                beaten ==> dominated(scores@, i as int),
                !beaten ==> forall|k: int|
                    0 <= k < j && k != i ==> !dominates((#[trigger] scores@[k])@, scores@[i as int]@),
            decreases scores.len() - j, if beaten { 0int } else { 1int },
        {
            if i != j && check_dominates(&scores[j], &scores[i]) {
                beaten = true;
                assert(dominates(scores@[j as int]@, scores@[i as int]@));
            } else {
                j = j + 1;
            }
        }
        if !beaten {
            r.push(i);
        }
        i = i + 1;
    }
    if r.len() == 0 {
        all_below(scores.len())
    } else {
        r
    }
}

/// Every option on a true frontier is dominated by none.
pub proof fn frontier_is_undominated(scores: Seq<Vec<Real>>, n: int, k: int)
    requires
        0 <= n <= scores.len() <= usize::MAX,
        0 <= k < undominated(scores, n).len(),
    ensures
        undominated(scores, n)[k] < n,
        !dominated(scores, undominated(scores, n)[k] as int),
    decreases n,
{
    if n > 0 {
        let front = undominated(scores, n - 1);
        if k < front.len() {
            frontier_is_undominated(scores, n - 1, k);
        }
    }
}

/// The weight of an option, or zero.
pub open spec fn option_weight(w: Seq<Real>, i: int) -> Real {
    if i < w.len() {
        w[i]
    } else {
        Real { bits: 0 }
    }
}

/// The first of the options with the greatest weight.
pub open spec fn heaviest(f: Seq<usize>, w: Seq<Real>, n: int) -> usize
    decreases n,
{
    if n <= 1 {
        f[0]
    } else {
        let best = heaviest(f, w, n - 1);
        if option_weight(w, best as int).below(option_weight(w, f[n - 1] as int)) {
            f[n - 1]
        } else {
            best
        }
    }
}

/// Chooses from the frontier by weight.
pub fn select_pareto(frontier: &Vec<usize>, weights: &Vec<Real>) -> (r: (usize, String))
    ensures
        ({
            let n = frontier@.len() as int;
            if n == 0 {
                r.0 == 0 && r.1@ == "empty frontier"@
            } else if n == 1 {
                r.0 == frontier@[0] && r.1@ == "single non-dominated option"@
            } else {
                r.0 == heaviest(frontier@, weights@, n) && r.1@ == "pareto frontier ("@ + dec(n)
                    + " options)"@
            }
        }),
{
    if frontier.len() == 0 {
        return (0, String::from_str("empty frontier"));
    }
    if frontier.len() == 1 {
        return (frontier[0], String::from_str("single non-dominated option"));
    }
    let mut best: usize = frontier[0];
    let mut i: usize = 1;
    while i < frontier.len()
        invariant
            1 <= i <= frontier.len(),
            best == heaviest(frontier@, weights@, i as int),
        decreases frontier.len() - i,
    {
        let x: usize = frontier[i];
        let a = if best < weights.len() {
            weights[best]
        } else {
            Real::zero()
        };
        let b = if x < weights.len() {
            weights[x]
        } else {
            Real::zero()
        };
        if a.lt(b) {
            best = x;
        }
        i = i + 1;
    }
    (best, cat3("pareto frontier (", u64_text(frontier.len() as u64).as_str(), " options)"))
}

// Rewards

/// What an outcome gives for a key: one or zero for a truth value, a number, or
/// zero.
pub open spec fn outcome_value(v: Js) -> Real {
    match v.as_bool() {
        Some(b) => if b {
            Real { bits: ONE }
        } else {
            Real { bits: 0 }
        },
        None => match v.as_real() {
            Some(r) => r,
            None => Real { bits: 0 },
        },
    }
}

/// The values that an outcome has for the keys of a policy, with their weights.
pub open spec fn reward_terms(outcome: Js, s: Seq<(String, Real)>) -> Seq<(Real, Real)>
    decreases s.len(),
{
    if s.len() == 0 {
        Seq::empty()
    } else {
        match outcome.get(s.last().0@) {
            Some(v) => reward_terms(outcome, s.drop_last()).push((outcome_value(v), s.last().1)),
            None => reward_terms(outcome, s.drop_last()),
        }
    }
}

/// The terms of a reward, each a value and its weight; the reward is the sum of
/// their products.
pub fn compute_reward(outcome: &Json, policy: &RewardPolicy) -> (r: Vec<(Real, Real)>)
    ensures
        r@ == reward_terms(js(*outcome), policy.weights.entries@),
{
    let ghost all = policy.weights.entries@;
    let mut r: Vec<(Real, Real)> = Vec::new();
    let mut i: usize = 0;
    assert(all.take(0) =~= Seq::<(String, Real)>::empty());
    while i < policy.weights.entries.len()
        invariant
            i <= policy.weights.entries.len(),
            all == policy.weights.entries@,
            r@ == reward_terms(js(*outcome), all.take(i as int)),
        decreases policy.weights.entries.len() - i,
    {
        assert(all.take(i + 1).drop_last() =~= all.take(i as int));
        if let Some(v) = outcome.get(policy.weights.entries[i].0.as_str()) {
            let x = match v.as_bool() {
                Some(b) => if b {
                    Real::one()
                } else {
                    Real::zero()
                },
                None => match v.as_real() {
                    Some(r) => r,
                    None => Real::zero(),
                },
            };
            r.push((x, policy.weights.entries[i].1));
        }
        i = i + 1;
    }
    assert(all.take(i as int) =~= all);
    r
}

/// How a component of a reward is brought to a common scale.
#[derive(Clone, Copy, Debug, PartialEq, Eq, Structural)]
pub enum Scale {
    Plain,
    /// From the range between these to that between zero and one.
    MinMax(Real, Real),
    /// As a part of this.
    Budget(Real),
}

/// A component of a reward: its weight, its value and its scale.
#[derive(Clone, Copy, Debug, PartialEq, Eq, Structural)]
pub struct Component {
    pub weight: Real,
    pub raw: Real,
    pub scale: Scale,
}

/// An item of a list as a number, or a fallback.
pub open spec fn item_or(a: Seq<Js>, i: int, d: Real) -> Real {
    if i < a.len() {
        match a[i].as_real() {
            Some(r) => r,
            None => d,
        }
    } else {
        d
    }
}

fn read_item(a: &Vec<Json>, i: usize, d: Real) -> (r: Real)
    ensures
        r == item_or(jss(a@), i as int, d),
{
    if i < a.len() {
        assert(jss(a@)[i as int] == js(a@[i as int]));
        match a[i].as_real() {
            Some(r) => r,
            None => d,
        }
    } else {
        d
    }
}

pub open spec fn scale_of(c: Js) -> Scale {
    match c.str_at("normalize"@) {
        Some(k) => if k == "minmax"@ {
            match c.array_at("range"@) {
                Some(a) => Scale::MinMax(item_or(a, 0, Real { bits: 0 }), item_or(a, 1, Real { bits: ONE })),
                None => Scale::Plain,
            }
        } else if k == "budget"@ {
            Scale::Budget(c.real_or("budget"@, Real { bits: ONE }))
        } else {
            Scale::Plain
        },
        None => Scale::Plain,
    }
}

fn read_scale(c: &Json) -> (s: Scale)
    ensures
        s == scale_of(js(*c)),
{
    match c.str_at("normalize") {
        Some(k) => if same(k, "minmax") {
            match c.array_at("range") {
                Some(a) => Scale::MinMax(read_item(a, 0, Real { bits: 0 }), read_item(a, 1, Real { bits: ONE })),
                None => Scale::Plain,
            }
        } else if same(k, "budget") {
            Scale::Budget(c.real_or("budget", Real { bits: ONE }))
        } else {
            Scale::Plain
        },
        None => Scale::Plain,
    }
}

/// What a component counts as before its weight, between zero and one. `span` is
/// the upper end of its range less the lower, and `part` its value as a part of
/// its range or budget; a range or budget of hardly anything counts as nothing.
pub open spec fn normed(c: Component, span: Real, part: Real) -> Real {
    let x = match c.scale {
        Scale::Plain => c.raw,
        Scale::MinMax(_, _) => if (Real { bits: R_1EM09 }).below(span.spec_abs()) {
            part
        } else {
            Real { bits: 0 }
        },
        Scale::Budget(b) => if (Real { bits: R_1EM09 }).below(b.spec_abs()) {
            part
        } else {
            Real { bits: 0 }
        },
    };
    x.spec_clamp(Real { bits: 0 }, Real { bits: ONE })
}

/// What a component counts as before its weight.
pub fn norm_component(c: &Component, span: Real, part: Real) -> (r: Real)
    ensures
        r == normed(*c, span, part),
{
    let x = match c.scale {
        Scale::Plain => c.raw,
        Scale::MinMax(_, _) => if (Real { bits: R_1EM09 }).lt(span.abs()) {
            part
        } else {
            Real { bits: 0 }
        },
        Scale::Budget(b) => if (Real { bits: R_1EM09 }).lt(b.abs()) {
            part
        } else {
            Real { bits: 0 }
        },
    };
    x.clamp(Real { bits: 0 }, Real { bits: ONE })
}

/// The components that are declared and measured.
pub open spec fn components_of(s: Seq<Js>, measured: Js) -> Seq<Component>
    decreases s.len(),
{
    if s.len() == 0 {
        Seq::empty()
    } else {
        let front = components_of(s.drop_last(), measured);
        let c = s.last();
        match c.str_at("name"@) {
            None => front,
            Some(name) => match measured.real_at(name) {
                None => front,
                Some(raw) => front.push(
                    Component { weight: c.real_or("weight"@, Real { bits: 0 }), raw, scale: scale_of(c) },
                ),
            },
        }
    }
}

/// The components of a reward, in order; the reward is the sum of what they count
/// as, each times its weight.
pub fn compute_reward_from_components(reward_spec: &Json, components: &Json) -> (r: Vec<Component>)
    ensures
        r@ == (match js(*reward_spec).array_at("components"@) {
            Some(a) => components_of(a, js(*components)),
            None => Seq::empty(),
        }),
{
    let mut r: Vec<Component> = Vec::new();
    let a = match reward_spec.array_at("components") {
        Some(a) => a,
        None => {
            assert(r@ =~= Seq::<Component>::empty());
            return r;
        },
    };
    let ghost all = jss(a@);
    let mut i: usize = 0;
    assert(all.take(0) =~= Seq::<Js>::empty());
    while i < a.len()
        invariant
            i <= a.len(),
            all == jss(a@),
            r@ == components_of(all.take(i as int), js(*components)),
        decreases a.len() - i,
    {
        assert(all.take(i + 1).drop_last() =~= all.take(i as int));
        assert(all.take(i + 1).last() == js(a@[i as int]));
        let c = &a[i];
        if let Some(name) = c.str_at("name") {
            if let Some(raw) = components.real_at(name) {
                r.push(
                    Component {
                        weight: c.real_or("weight", Real { bits: 0 }),
                        raw,
                        scale: read_scale(c),
                    },
                );
            }
        }
        i = i + 1;
    }
    assert(all.take(i as int) =~= all);
    r
}

} // verus!
