//! What feedback does to what is known of the options, and when a shift is seen.

use crate::call_laws::{all_finite, values_in_order};
use crate::cap_calls::sorted_values;
use crate::change_detection::{SplitTest, first_differing, observed, splits};
use crate::conformal::{at_rank, latest};
use crate::feedback::{Credit, FeedbackNumbers, boosted, credit_of, fed, forgets, fused, longest_boost, numbers_fit, residuals_after, rewarded_state, searched};
use crate::learning::{Component, Scale, clipped, counted, feedback_fault, in_prediction_set, normed, page_hinkley, prediction_set, raised, surprise, window_after};
use crate::learning_config::LearningConfig;
use crate::learning_memory::{BucketView, StateView};
use crate::learning_sections::{ChangeDetectionConfig, WindowConfig};
use crate::learning_stats::StatsView;
use crate::meta_bandit::{CandidateRecord, MetaBandit, tried_leader};
use crate::number::{ONE, Real, cut_to};
use vstd::prelude::*;

verus! {

/// Zero, for comparisons.
pub open spec fn nought() -> Real {
    Real { bits: 0 }
}

/// Feedback is refused while learning is frozen and for options that there are
/// not, and else taken with the reward held between the clip and its negative.
pub proof fn feedback_is_checked(c: LearningConfig, option: int, n: int, reward: Real, clip: Real)
    requires
        !reward.spec_is_nan(),
        0 <= option,
    ensures
        feedback_fault(c, option, n) is None <==> !c.safety.freeze_learning && option < n,
        nought().below(clip) ==> {
            let r = clipped(reward, clip);
            &&& clip.spec_negated().at_most(r) && r.at_most(clip)
            &&& clip.spec_negated().at_most(reward) && reward.at_most(clip) ==> r == reward
            &&& clip.below(reward) ==> r == clip
            &&& reward.below(clip.spec_negated()) ==> r == clip.spec_negated()
        },
        !nought().below(clip) ==> clipped(reward, clip) == reward,
{
}

/// A reward is counted once: one more try, a success where it is above zero, a
/// failure where it is below, and it is the last reward, at this time. The boost
/// after a shift runs out one feedback at a time.
pub proof fn rewards_are_counted(
    s: StatsView,
    reward: Real,
    sums: (Real, Real, Real),
    now: u64,
    w: WindowConfig,
)
    requires
        s.tries < u64::MAX,
        s.successes < u64::MAX,
        s.failures < u64::MAX,
    ensures
        ({
            let t = counted(s, reward, sums, now, w);
            &&& t.tries == s.tries + 1
            &&& nought().below(reward) ==> t.successes == s.successes + 1 && t.failures
                == s.failures
            &&& reward.below(nought()) ==> t.failures == s.failures + 1 && t.successes
                == s.successes
            &&& !nought().below(reward) && !reward.below(nought()) ==> t.successes == s.successes
                && t.failures == s.failures
            &&& t.last_reward == reward
            &&& t.last_updated == now
            &&& (t.reward_sum, t.reward_sq_sum, t.effective_tries) == sums
            &&& s.change_boost_remaining > 0 ==> t.change_boost_remaining
                == s.change_boost_remaining - 1
            &&& s.change_boost_remaining == 0 ==> t.change_boost_remaining == 0
            &&& t.change_points == s.change_points
        }),
{
}

/// Recent rewards are the latest ones in order, up to the size of the window, with
/// the new one last; without a window none is added.
pub proof fn windows_hold_the_latest(w: Seq<Real>, reward: Real, c: WindowConfig)
    ensures
        !c.enabled ==> window_after(w, reward, c) == w,
        c.enabled ==> {
            let t = window_after(w, reward, c);
            let all = w.push(reward);
            &&& t.len() == (if all.len() <= c.size {
                all.len() as int
            } else {
                c.size as int
            })
            &&& forall|i: int| 0 <= i < t.len() ==> #[trigger] t[i] == all[all.len() - t.len() + i]
            &&& c.size > 0 ==> t.last() == reward
        },
{
}

/// The last items are a part at the end, as long as there is room for.
pub proof fn the_latest_are_kept(s: Seq<Real>, max: int)
    requires
        max >= 0,
    ensures
        latest(s, max).len() == (if s.len() <= max {
            s.len() as int
        } else {
            max
        }),
        forall|i: int|
            0 <= i < latest(s, max).len() ==> #[trigger] latest(s, max)[i] == s[s.len() - latest(
                s,
                max,
            ).len() + i],
{
}

/// After feedback the weights are those that were scaled to their floor, or all
/// alike where their sum is not above zero; the time is kept.
pub proof fn weights_follow_feedback(
    b: BucketView,
    option: int,
    reward: Real,
    n: FeedbackNumbers,
    c: LearningConfig,
    now: u64,
)
    requires
        numbers_fit(n, b, option, c),
    ensures
        nought().below(n.sum) ==> fed(b, option, reward, n, c, now).weights == n.scaled@,
        !nought().below(n.sum) ==> forall|i: int, j: int|
            0 <= i < b.weights.len() && 0 <= j < b.weights.len() ==> #[trigger] fed(
                b,
                option,
                reward,
                n,
                c,
                now,
            ).weights[i] == #[trigger] fed(b, option, reward, n, c, now).weights[j],
        fed(b, option, reward, n, c, now).weights.len() == b.weights.len(),
        fed(b, option, reward, n, c, now).updated_at == now,
{
}

/// The option that was rewarded is the one whose statistics count it.
pub proof fn the_rewarded_option_counts(
    b: BucketView,
    option: int,
    reward: Real,
    n: FeedbackNumbers,
    c: LearningConfig,
    now: u64,
)
    requires
        numbers_fit(n, b, option, c),
        0 <= option < b.stats.len(),
        !forgets(c),
        !c.change_detection.enabled,
    ensures
        ({
            let t = fed(b, option, reward, n, c, now).stats[option];
            &&& t.tries == b.stats[option].tries + 1
            &&& t.last_reward == reward
            &&& t.last_updated == now
            &&& c.window.enabled && c.window.size > 0 ==> t.window.last() == reward
            &&& !c.delayed_feedback.enabled ==> t.posterior_mean == n.posterior.0
                && t.posterior_var == n.posterior.1
            &&& c.delayed_feedback.enabled ==> t.posterior_mean == b.stats[option].posterior_mean
                && t.posterior_var == b.stats[option].posterior_var
        }),
        forall|other: int|
            0 <= other < b.stats.len() && other != option ==> {
                &&& (#[trigger] fed(b, option, reward, n, c, now).stats[other]).tries
                    == b.stats[other].tries
                &&& fed(b, option, reward, n, c, now).stats[other].last_reward
                    == b.stats[other].last_reward
            },
{
    windows_hold_the_latest(b.stats[option].window, reward, c.window);
}

/// How a reward counts for a belief: as a success from nearly one on, as a failure
/// up to nearly zero, and else as a part of both.
pub proof fn credit_goes_by_the_reward(reward: Real)
    requires
        !reward.spec_is_nan(),
    ensures
        reward.at_most(nought()) ==> credit_of(reward) == Credit::Failure,
        (Real { bits: ONE }).at_most(reward) ==> credit_of(reward) == Credit::Success,
        reward == (Real { bits: 0x3FE0_0000_0000_0000 }) ==> credit_of(reward) == Credit::Part(
            reward,
        ),
        credit_of(reward) is Part ==> {
            &&& credit_of(reward)->Part_0 == reward
            &&& nought().below(reward) && reward.below(Real { bits: ONE })
        },
{
}

/// Beliefs move with the reward: a success raises the successes alone, a failure
/// the failures alone, and a part both. Tries and totals of an option that is
/// bounded grow, a weight stays within its limits, and linear models are not moved
/// here.
pub proof fn states_move_with_the_reward(s: StateView, reward: Real, p: (Real, Real))
    requires
        !p.0.spec_is_nan(),
    ensures
        s is BetaBernoulli && (Real { bits: ONE }).at_most(reward) ==> rewarded_state(s, reward, p)
            == (StateView::BetaBernoulli { alpha: p.0, beta: s->beta }),
        s is BetaBernoulli && reward.at_most(nought()) ==> rewarded_state(s, reward, p) == (
        StateView::BetaBernoulli { alpha: s->alpha, beta: p.1 }),
        s is BetaBernoulli && reward == (Real { bits: 0x3FE0_0000_0000_0000 }) ==> rewarded_state(
            s,
            reward,
            p,
        ) == (StateView::BetaBernoulli { alpha: p.0, beta: p.1 }),
        s is Ucb ==> rewarded_state(s, reward, p) == (StateView::Ucb {
            tries: p.0,
            total_reward: p.1,
        }),
        s is LinUcb ==> rewarded_state(s, reward, p) == s,
        s is Weighted ==> {
            let w = rewarded_state(s, reward, p)->weight;
            let low = Real { bits: 0x3F84_7AE1_47AE_147B };
            let high = Real { bits: 0x3FEF_AE14_7AE1_47AE };
            &&& rewarded_state(s, reward, p) is Weighted
            &&& low.at_most(w) && w.at_most(high)
            &&& low.at_most(p.0) && p.0.at_most(high) ==> w == p.0
        },
{
}

/// A distance from what was predicted is kept for calibration, unless it is not
/// finite or the option is a linear model.
pub proof fn residuals_are_kept(b: BucketView, option: int, residual: Real)
    requires
        0 <= option < b.option_states.len(),
        b.max_size > 0,
    ensures
        residual.spec_is_finite() && !(b.option_states[option] is LinUcb) ==> residuals_after(
            b,
            option,
            residual,
        ).last() == residual,
        !residual.spec_is_finite() || b.option_states[option] is LinUcb ==> residuals_after(
            b,
            option,
            residual,
        ) == b.residuals,
{
}

/// A signal is counted under its name, and what is believed is what it leaves; the
/// statistics of rewards stay as they are.
pub proof fn signals_are_counted(s: StatsView, name: Seq<char>, p: (Real, Real), other: Seq<char>)
    requires
        s.signal_counts.contains_key(name) ==> s.signal_counts[name] < u64::MAX,
        other != name,
    ensures
        ({
            let t = fused(s, name, p);
            &&& (t.posterior_mean, t.posterior_var) == p
            &&& t.signal_counts.contains_key(name)
            &&& s.signal_counts.contains_key(name) ==> t.signal_counts[name]
                == s.signal_counts[name] + 1
            &&& !s.signal_counts.contains_key(name) ==> t.signal_counts[name] == 1
            &&& s.signal_counts.contains_key(other) ==> t.signal_counts[other]
                == s.signal_counts[other]
            &&& t.tries == s.tries && t.reward_sum == s.reward_sum
        }),
{
}

/// A shift is seen where a sum of deviations, up or down, is above the threshold:
/// then both start anew, the shift is counted and the boost begins. Before five
/// tries nothing is searched for, and sums below zero count as zero.
pub proof fn deviations_show_shifts(s: StatsView, up: Real, down: Real, c: ChangeDetectionConfig)
    requires
        !up.spec_is_nan(),
        !down.spec_is_nan(),
        nought().at_most(c.threshold),
        s.change_points < u32::MAX,
    ensures
        s.tries < 5 ==> page_hinkley(s, up, down, c) == (s, false),
        s.tries >= 5 ==> (page_hinkley(s, up, down, c).1 <==> c.threshold.below(up)
            || c.threshold.below(down)),
        s.tries >= 5 && page_hinkley(s, up, down, c).1 ==> {
            let t = page_hinkley(s, up, down, c).0;
            &&& t.change_points == s.change_points + 1
            &&& t.change_boost_remaining == c.boost_duration
            &&& t.ph_cumsum == nought() && t.ph_min == nought()
        },
        s.tries >= 5 && !page_hinkley(s, up, down, c).1 ==> {
            let t = page_hinkley(s, up, down, c).0;
            &&& nought().at_most(up) ==> t.ph_cumsum == up
            &&& up.below(nought()) ==> t.ph_cumsum == nought()
            &&& nought().at_most(down) ==> t.ph_min == down
            &&& down.below(nought()) ==> t.ph_min == nought()
            &&& t.change_points == s.change_points
        },
{
}

/// A reward further from the mean than the limit is a surprise; enough surprises
/// show a shift, which is counted and boosted, and the surprises start anew. A
/// reward that is none lets one earlier surprise be forgotten.
pub proof fn surprises_show_shifts(
    s: StatsView,
    deviation: Real,
    shares: (Real, Real),
    c: ChangeDetectionConfig,
)
    requires
        s.change_points < u32::MAX,
        s.surprise_recent < u32::MAX,
    ensures
        ({
            let (t, shift) = surprise(s, deviation, shares, c);
            let odd = c.surprise_k_sigma.below(deviation);
            let share = if odd {
                shares.0
            } else {
                shares.1
            };
            let searched = s.tries >= 5 && s.window.len() >= 4;
            &&& !searched ==> t == s && !shift
            &&& searched ==> (shift <==> c.surprise_fraction_threshold.at_most(share))
            &&& shift ==> t.change_points == s.change_points + 1 && t.change_boost_remaining
                == c.boost_duration && t.surprise_recent == 0
            &&& searched && !shift && odd ==> t.surprise_recent == s.surprise_recent + 1
            &&& searched && !shift && !odd && s.surprise_recent > 0 ==> t.surprise_recent
                == s.surprise_recent - 1
            &&& !shift ==> t.change_points == s.change_points
        }),
{
}

/// A window takes the new observation and lets the oldest go where there is no
/// room.
pub proof fn observations_push_out_the_oldest(s: Seq<Real>, max: int, v: Real)
    requires
        max > 0,
        s.len() <= max,
    ensures
        observed(s, max, v).last() == v,
        s.len() < max ==> observed(s, max, v) == s.push(v),
        s.len() == max ==> observed(s, max, v).drop_last() == s.drop_first(),
{
    if s.len() == max {
        assert(observed(s, max, v).drop_last() =~= s.drop_first());
    }
}

/// Every split that leaves enough on both sides is tested, and no other.
pub proof fn splits_leave_enough(n: int, m: int, i: int)
    requires
        m >= 0,
        n >= 0,
    ensures
        0 <= i < splits(n, m) <==> 0 <= i && m + i <= n - m,
{
}

/// The first split whose means lie further apart than the bound is taken.
pub proof fn the_first_differing_split_counts(s: Seq<SplitTest>, i: int)
    requires
        0 <= i <= s.len(),
        forall|k: int| 0 <= k < i ==> !(#[trigger] s[k]).bound.below(s[k].gap.spec_abs()),
    ensures
        ({
            let f = first_differing(s, i);
            &&& i <= f <= s.len()
            &&& f < s.len() ==> s[f].bound.below(s[f].gap.spec_abs())
            &&& forall|k: int| 0 <= k < f ==> !(#[trigger] s[k]).bound.below(s[k].gap.spec_abs())
        }),
    decreases s.len() - i,
{
    if i < s.len() && !s[i].bound.below(s[i].gap.spec_abs()) {
        the_first_differing_split_counts(s, i + 1);
    }
}

/// The residual at rank `k` of `n` is one of them, at most `n - k` are above it and
/// at most `k - 1` below: in order, `k - 1` stand before it. Ranks behind the last
/// give the last, and with too few residuals there is none.
pub proof fn ranks_count_from_the_least(s: Seq<Real>, min_samples: int, rank: Real)
    requires
        s.len() > 0,
        all_finite(s),
    ensures
        ({
            let k = cut_to(rank, usize::MAX as nat) as int;
            let place = if k < 1 {
                0
            } else if k > s.len() {
                s.len() - 1
            } else {
                k - 1
            };
            let sorted = sorted_values(s);
            &&& at_rank(s, min_samples, rank) is None <==> s.len() < min_samples
            &&& s.len() >= min_samples ==> at_rank(s, min_samples, rank) == Some(sorted[place])
            &&& forall|i: int| 0 <= i < place ==> (#[trigger] sorted[i]).at_most(sorted[place])
            &&& forall|i: int| place < i < s.len() ==> sorted[place].at_most(#[trigger] sorted[i])
            &&& sorted.to_multiset() == s.to_multiset()
        }),
{
    values_in_order(s);
}

// ---- Portfolios ----

/// Without exploring, the candidate is taken that none is better than: no other has
/// a higher mean, and none with the same mean has fewer trials.
pub proof fn leaders_are_no_worse(means: Seq<Real>, c: Seq<CandidateRecord>, n: int, k: int)
    requires
        1 <= n <= means.len(),
        means.len() == c.len(),
        0 <= k < n,
        all_finite(means),
        forall|i: int| 0 <= i < c.len() ==> (#[trigger] c[i]).trials.spec_is_finite(),
    ensures
        ({
            let i = crate::meta_bandit::leader(means, c, n);
            &&& 0 <= i < n
            &&& !means[i].below(means[k])
            &&& means[i].same_value(means[k]) ==> !c[k].trials.below(c[i].trials)
        }),
    decreases n,
{
    let i = crate::meta_bandit::leader(means, c, n);
    assert(means[k].spec_is_finite() && c[k].trials.spec_is_finite());
    if n > 1 {
        let b = crate::meta_bandit::leader(means, c, n - 1);
        leaders_are_no_worse(
            means,
            c,
            n - 1,
            if k < n - 1 {
                k
            } else {
                0
            },
        );
        assert(means[b].spec_is_finite() && c[b].trials.spec_is_finite());
        assert(means[n - 1].spec_is_finite() && c[n - 1].trials.spec_is_finite());
    }
}

/// A portfolio explores where the roll is below the probability, with the candidate
/// that the pick points at or the last one, and else takes its leader.
pub proof fn portfolios_explore_or_lead(
    m: MetaBandit,
    roll: Real,
    p: Real,
    pick: Real,
    means: Seq<Real>,
)
    requires
        m.candidates@.len() > 0,
        means.len() == m.candidates@.len(),
        all_finite(means),
        forall|i: int|
            0 <= i < m.candidates@.len() ==> (#[trigger] m.candidates@[i]).trials.spec_is_finite(),
    ensures
        ({
            let (id, explored) = m.choice(roll, p, pick, means);
            let n = m.candidates@.len() as int;
            let at = cut_to(pick, usize::MAX as nat) as int;
            &&& explored <==> roll.below(p)
            &&& explored && at < n ==> id == m.candidates@[at].id
            &&& explored && at >= n ==> id == m.candidates@[n - 1].id
            &&& !explored ==> exists|i: int|
                0 <= i < n && (#[trigger] m.candidates@[i]).id == id && forall|k: int|
                    0 <= k < n ==> !means[i].below(#[trigger] means[k])
        }),
{
    let n = m.candidates@.len() as int;
    let i = crate::meta_bandit::leader(means, m.candidates@, n);
    leaders_are_no_worse(means, m.candidates@, n, 0);
    assert forall|k: int| 0 <= k < n implies !means[i].below(#[trigger] means[k]) by {
        leaders_are_no_worse(means, m.candidates@, n, k);
    }
    if !roll.below(p) {
        assert(m.candidates@[i].id == m.choice(roll, p, pick, means).0);
    }
}

/// Among the candidates that were tried at all, the reported leader has the highest
/// mean; there is none exactly where none was tried.
pub proof fn reported_leaders_were_tried(means: Seq<Real>, c: Seq<CandidateRecord>, n: int, k: int)
    requires
        0 <= n <= means.len(),
        means.len() == c.len(),
        0 <= k < n,
        all_finite(means),
    ensures
        tried_leader(means, c, n) is None ==> !nought().below(c[k].trials),
        tried_leader(means, c, n) matches Some(i) ==> {
            &&& 0 <= i < n
            &&& nought().below(c[i].trials)
            &&& nought().below(c[k].trials) ==> !means[i].below(means[k])
        },
    decreases n,
{
    if n > 1 {
        reported_leaders_were_tried(
            means,
            c,
            n - 1,
            if k < n - 1 {
                k
            } else {
                0
            },
        );
    }
    assert(means[k].spec_is_finite() && means[n - 1].spec_is_finite());
    if n > 0 && tried_leader(means, c, n - 1) is Some {
        let b = tried_leader(means, c, n - 1)->Some_0;
        if n > 1 {
            assert(means[b].spec_is_finite());
        }
    }
}

/// The longest boost is that of some option, and none is longer.
pub proof fn the_longest_boost_counts(s: Seq<StatsView>, i: int)
    requires
        0 <= i < s.len(),
    ensures
        s[i].change_boost_remaining <= longest_boost(s),
        longest_boost(s) > 0 ==> exists|k: int|
            0 <= k < s.len() && (#[trigger] s[k]).change_boost_remaining == longest_boost(s),
    decreases s.len(),
{
    let front = s.drop_last();
    if front.len() > 0 {
        the_longest_boost_counts(
            front,
            if i < front.len() {
                i
            } else {
                0
            },
        );
    }
    if i < front.len() {
        assert(front[i] == s[i]);
    }
    if longest_boost(s) > 0 {
        if longest_boost(s) == s.last().change_boost_remaining {
            assert(s[s.len() - 1].change_boost_remaining == longest_boost(s));
        } else {
            let k = choose|k: int|
                0 <= k < front.len() && (#[trigger] front[k]).change_boost_remaining
                    == longest_boost(front);
            assert(s[k] == front[k]);
        }
    }
}

/// A boost explores more, up to one half, and without one the floor stands.
pub proof fn boosts_are_capped(floor: Real, boost: u32, raised: Real)
    requires
        !raised.spec_is_nan(),
    ensures
        boost == 0 ==> boosted(floor, boost, raised) == floor,
        boost > 0 ==> boosted(floor, boost, raised).at_most(Real { bits: 0x3FE0_0000_0000_0000 }),
        boost > 0 && raised.at_most(Real { bits: 0x3FE0_0000_0000_0000 }) ==> boosted(
            floor,
            boost,
            raised,
        ) == raised,
{
}

/// An option may be the best where its score is finite and lies within the radius of
/// the best; without a radius every option may. The set grows.
pub proof fn predictions_lie_within_the_radius(
    scores: Seq<Real>,
    gaps: Seq<Real>,
    radius: Option<Real>,
    n: int,
    i: int,
)
    requires
        0 <= i < n <= scores.len() <= usize::MAX,
        gaps.len() == scores.len(),
    ensures
        prediction_set(scores, gaps, radius, n).contains(i as usize) <==> radius is None || (
        scores[i].spec_is_finite() && gaps[i].at_most(radius->Some_0)),
        forall|j: int|
            0 <= j < prediction_set(scores, gaps, radius, n).len() ==> #[trigger] prediction_set(
                scores,
                gaps,
                radius,
                n,
            )[j] < n,
    decreases n,
{
    let front = prediction_set(scores, gaps, radius, n - 1);
    let all = prediction_set(scores, gaps, radius, n);
    if n > 1 {
        predictions_lie_within_the_radius(
            scores,
            gaps,
            radius,
            n - 1,
            if i < n - 1 {
                i
            } else {
                0
            },
        );
    } else {
        assert(front =~= Seq::<usize>::empty());
    }
    if in_prediction_set(scores, gaps, radius, n - 1) {
        assert(all =~= front.push((n - 1) as usize));
        assert(all[front.len() as int] == n - 1);
        if front.contains(i as usize) {
            let j = choose|j: int| 0 <= j < front.len() && front[j] == i as usize;
            assert(all[j] == i as usize);
        }
        if all.contains(i as usize) && i < n - 1 {
            let j = choose|j: int| 0 <= j < all.len() && all[j] == i as usize;
            assert(front[j] == i as usize);
        }
    } else {
        assert(all =~= front);
        if i == n - 1 && all.contains(i as usize) {
            let j = choose|j: int| 0 <= j < all.len() && all[j] == i as usize;
            assert(front[j] < n - 1);
        }
    }
}

/// A component of a reward counts as its value, as its part of its range, or as its
/// part of its budget, held between zero and one; hardly any range or budget counts
/// as nothing.
pub proof fn components_are_normed(c: Component, span: Real, part: Real)
    ensures
        ({
            let one = Real { bits: ONE };
            let tiny = Real { bits: 0x3E11_2E0B_E826_D695 };
            let x = match c.scale {
                Scale::Plain => c.raw,
                _ => part,
            };
            let r = normed(c, span, part);
            let counts = match c.scale {
                Scale::Plain => true,
                Scale::MinMax(_, _) => tiny.below(span.spec_abs()),
                Scale::Budget(b) => tiny.below(b.spec_abs()),
            };
            &&& counts && nought().at_most(x) && x.at_most(one) ==> r == x
            &&& counts && one.below(x) ==> r == one
            &&& counts && x.below(nought()) ==> r == nought()
            &&& !counts ==> r == nought()
        }),
{
}

} // verus!
