//! What settings say: which fields they are read from, what holds where nothing is
//! said, and what they are held to.

use crate::json::Js;
use crate::learning::{Scale, components_of, reward_terms};
use crate::learning_config::{ParsedParts, algorithm_of, config_of, lists_by_name, shared_of};
use crate::learning_sections::{Algorithm, ChangeDetectionMethod, SelectionMode, method_of, mode_of, safety_of};
use crate::number::Real;
use vstd::prelude::*;

verus! {

/// A number that is not below one bound and not above the other.
pub open spec fn lies_within(x: Real, lo: u64, hi: u64) -> bool {
    !x.below(Real { bits: lo }) && !(Real { bits: hi }).below(x)
}

/// A field that is not there.
pub open spec fn lacks(j: Js, key: Seq<char>) -> bool {
    j.get(key) is None
}

/// Whatever is asked for, settings keep to their bounds: the learning rate from 0.0001
/// to 0.5, what is trimmed up to 0.49, the chance of a random choice up to 0.5,
/// forgetting up to one, the detectors from a billionth to 0.5, the fraction of bad
/// rewards from 0.01 to 0.99, coverage from 0.5 to 0.999, and sizes from one and ten
/// on.
pub proof fn settings_keep_to_their_bounds(j: Js, parts: ParsedParts)
    ensures
        ({
            let c = config_of(j, parts);
            &&& lies_within(c.learning_rate, 0x3F1A_36E2_EB1C_432D, 0x3FE0_0000_0000_0000)
            &&& lies_within(c.safety.trimmed_fraction, 0, 0x3FDF_5C28_F5C2_8F5C)
            &&& lies_within(c.safety.selection_epsilon, 0, 0x3FE0_0000_0000_0000)
            &&& lies_within(c.safety.option_state_forgetting, 0, 0x3FF0_0000_0000_0000)
            &&& lies_within(
                c.safety.capsule_adwin_delta,
                0x3E11_2E0B_E826_D695,
                0x3FE0_0000_0000_0000,
            )
            &&& lies_within(
                c.safety.context_adwin_delta,
                0x3E11_2E0B_E826_D695,
                0x3FE0_0000_0000_0000,
            )
            &&& lies_within(
                c.risk_sensitive.alpha,
                0x3F84_7AE1_47AE_147B,
                0x3FEF_AE14_7AE1_47AE,
            )
            &&& lies_within(c.risk_sensitive.blend, 0, 0x3FF0_0000_0000_0000)
            &&& lies_within(c.conformal.coverage, 0x3FE0_0000_0000_0000, 0x3FEF_F7CE_D916_872B)
            &&& lies_within(c.refusal.coverage, 0x3FE0_0000_0000_0000, 0x3FEF_F7CE_D916_872B)
            &&& lies_within(c.refusal.ood_threshold, 0, 0x4024_0000_0000_0000)
            &&& !c.refusal.max_interval_width.below(Real { bits: 0 })
            &&& !c.corruption_robust.budget.below(Real { bits: 0 })
            &&& c.window.size >= 1
            &&& c.conformal.calibration_size >= 10
            &&& !c.shared_state.lambda.below(Real { bits: 0x3E11_2E0B_E826_D695 })
            &&& !c.shared_state.alpha.below(Real { bits: 0 })
        }),
{
}

/// Where nothing is said, learning goes by simple weights at a rate of 0.05, with a
/// clip of two, a change of 0.15 at most and an exploration of 0.02; snapshots and the
/// journal are kept, and everything that can be enabled is not.
pub proof fn unsaid_settings_have_defaults(j: Js, parts: ParsedParts)
    ensures
        ({
            let c = config_of(j, parts);
            &&& lacks(j, "algorithm"@) ==> c.algorithm == Algorithm::SimpleWeighted
            &&& lacks(j, "learningRate"@) ==> c.learning_rate.bits == 0x3FA9_9999_9999_999A
            &&& lacks(j, "decay"@) ==> !c.decay.enabled && c.decay.half_life_feedbacks.bits
                == 0x4069_0000_0000_0000 && c.decay.half_life_seconds.bits
                == 0x4122_7500_0000_0000
            &&& lacks(j, "safety"@) && lacks(j, "mode"@) ==> {
                &&& c.safety.max_weight_delta_per_feedback.bits == 0x3FC3_3333_3333_3333
                &&& c.safety.min_exploration.bits == 0x3F94_7AE1_47AE_147B
                &&& !c.safety.freeze_learning
                &&& c.safety.reward_clip.bits == 0x4000_0000_0000_0000
                &&& c.safety.trimmed_fraction.bits == 0
                &&& c.safety.snapshot_on_feedback
                &&& c.safety.journal_on_feedback
                &&& c.safety.selection_mode == SelectionMode::Greedy
                &&& c.safety.selection_epsilon.bits == 0x3FB9_9999_9999_999A
                &&& c.safety.option_state_forgetting.bits == 0x3FEF_F7CE_D916_872B
                &&& c.safety.capsule_adwin_delta.bits == 0x3F40_624D_D2F1_A9FC
                &&& c.safety.context_adwin_delta.bits == 0x3F60_624D_D2F1_A9FC
            }
            &&& lacks(j, "window"@) ==> !c.window.enabled && c.window.size == 100
            &&& lacks(j, "changeDetection"@) ==> !c.change_detection.enabled
                && c.change_detection.threshold.bits == 0x4014_0000_0000_0000
                && c.change_detection.min_drift.bits == 0x3FA9_9999_9999_999A
                && c.change_detection.exploration_boost.bits == 0x3FD0_0000_0000_0000
                && c.change_detection.boost_duration == 50 && c.change_detection.method
                == ChangeDetectionMethod::PageHinkley && c.change_detection.surprise_k_sigma.bits
                == 0x4004_0000_0000_0000 && c.change_detection.surprise_fraction_threshold.bits
                == 0x3FD3_3333_3333_3333
            &&& lacks(j, "rewardPolicy"@) ==> c.reward_policy is None
            &&& lacks(j, "delayedFeedback"@) ==> !c.delayed_enabled && c.signals.len() == 0
            &&& lacks(j, "riskSensitive"@) ==> !c.risk_sensitive.enabled
                && c.risk_sensitive.alpha.bits == 0x3FB9_9999_9999_999A
                && c.risk_sensitive.blend.bits == 0x3FD3_3333_3333_3333
            &&& lacks(j, "corruptionRobust"@) ==> !c.corruption_robust.enabled
                && c.corruption_robust.budget.bits == 0
            &&& lacks(j, "conformal"@) ==> !c.conformal.enabled && c.conformal.coverage.bits
                == 0x3FEC_CCCC_CCCC_CCCD && c.conformal.calibration_size == 100
            &&& lacks(j, "pareto"@) ==> !c.pareto_enabled && c.objectives.len() == 0
            &&& lacks(j, "refusal"@) ==> !c.refusal.enabled && c.refusal.coverage.bits
                == 0x3FEE_6666_6666_6666 && c.refusal.max_interval_width.bits
                == 0x3FE0_0000_0000_0000 && c.refusal.ood_threshold.bits == 0x3FE9_9999_9999_999A
            &&& lacks(j, "sharedState"@) ==> !c.shared_state.enabled
        }),
{
}

/// Each setting is read from its own field of its own section; within its bounds it
/// is taken as it stands there.
pub proof fn settings_have_their_fields(j: Js, parts: ParsedParts, d: Js, x: Real, b: bool)
    ensures
        ({
            let c = config_of(j, parts);
            &&& j.real_at("learningRate"@) == Some(x) && lies_within(
                x,
                0x3F1A_36E2_EB1C_432D,
                0x3FE0_0000_0000_0000,
            ) ==> c.learning_rate == x
            &&& j.get("decay"@) == Some(d) ==> {
                &&& d.get("enabled"@) == Some(Js::Bool(b)) ==> c.decay.enabled == b
                &&& d.real_at("halfLifeFeedbacks"@) == Some(x) ==> c.decay.half_life_feedbacks == x
                &&& d.real_at("halfLifeSeconds"@) == Some(x) ==> c.decay.half_life_seconds == x
            }
            &&& j.get("safety"@) == Some(d) ==> {
                &&& d.real_at("maxWeightDeltaPerFeedback"@) == Some(x)
                    ==> c.safety.max_weight_delta_per_feedback == x
                &&& d.real_at("minExploration"@) == Some(x) ==> c.safety.min_exploration == x
                &&& d.real_at("rewardClip"@) == Some(x) ==> c.safety.reward_clip == x
                &&& d.get("freezeLearning"@) == Some(Js::Bool(b)) ==> c.safety.freeze_learning == b
                &&& d.get("snapshotOnFeedback"@) == Some(Js::Bool(b))
                    ==> c.safety.snapshot_on_feedback == b
                &&& d.get("journalOnFeedback"@) == Some(Js::Bool(b))
                    ==> c.safety.journal_on_feedback == b
                &&& d.real_at("trimmedFraction"@) == Some(x) && lies_within(
                    x,
                    0,
                    0x3FDF_5C28_F5C2_8F5C,
                ) ==> c.safety.trimmed_fraction == x
                &&& d.real_at("selectionEpsilon"@) == Some(x) && lies_within(
                    x,
                    0,
                    0x3FE0_0000_0000_0000,
                ) ==> c.safety.selection_epsilon == x
                &&& d.real_at("optionStateForgetting"@) == Some(x) && lies_within(
                    x,
                    0,
                    0x3FF0_0000_0000_0000,
                ) ==> c.safety.option_state_forgetting == x
            }
            &&& j.get("changeDetection"@) == Some(d) ==> {
                &&& d.get("enabled"@) == Some(Js::Bool(b)) ==> c.change_detection.enabled == b
                &&& d.real_at("threshold"@) == Some(x) ==> c.change_detection.threshold == x
                &&& d.real_at("minDrift"@) == Some(x) ==> c.change_detection.min_drift == x
                &&& d.real_at("explorationBoost"@) == Some(x)
                    ==> c.change_detection.exploration_boost == x
                &&& d.real_at("surpriseKSigma"@) == Some(x)
                    ==> c.change_detection.surprise_k_sigma == x
                &&& d.real_at("surpriseFractionThreshold"@) == Some(x)
                    ==> c.change_detection.surprise_fraction_threshold == x
            }
            &&& j.get("riskSensitive"@) == Some(d) ==> {
                &&& d.get("enabled"@) == Some(Js::Bool(b)) ==> c.risk_sensitive.enabled == b
                &&& d.real_at("alpha"@) == Some(x) && lies_within(
                    x,
                    0x3F84_7AE1_47AE_147B,
                    0x3FEF_AE14_7AE1_47AE,
                ) ==> c.risk_sensitive.alpha == x
                &&& d.real_at("blend"@) == Some(x) && lies_within(x, 0, 0x3FF0_0000_0000_0000)
                    ==> c.risk_sensitive.blend == x
            }
            &&& j.get("conformal"@) == Some(d) ==> {
                &&& d.get("enabled"@) == Some(Js::Bool(b)) ==> c.conformal.enabled == b
                &&& d.real_at("coverage"@) == Some(x) && lies_within(
                    x,
                    0x3FE0_0000_0000_0000,
                    0x3FEF_F7CE_D916_872B,
                ) ==> c.conformal.coverage == x
            }
            &&& j.get("corruptionRobust"@) == Some(d) ==> {
                &&& d.get("enabled"@) == Some(Js::Bool(b)) ==> c.corruption_robust.enabled == b
                &&& d.real_at("budget"@) == Some(x) && (Real { bits: 0 }).below(x)
                    ==> c.corruption_robust.budget == x
            }
            &&& j.get("window"@) == Some(d) && d.get("enabled"@) == Some(Js::Bool(b))
                ==> c.window.enabled == b
            &&& j.get("pareto"@) == Some(d) && d.get("enabled"@) == Some(Js::Bool(b))
                ==> c.pareto_enabled == b
            &&& j.get("delayedFeedback"@) == Some(d) && d.get("enabled"@) == Some(Js::Bool(b))
                ==> c.delayed_enabled == b
        }),
{
}

/// One width for both detectors stands in for those that are not given.
pub proof fn one_width_stands_in_for_both(d: Js, x: Real)
    requires
        d.real_at("adwinDelta"@) == Some(x),
        lies_within(x, 0x3E11_2E0B_E826_D695, 0x3FE0_0000_0000_0000),
    ensures
        lacks(d, "capsuleAdwinDelta"@) ==> safety_of(d).capsule_adwin_delta == x,
        lacks(d, "contextAdwinDelta"@) ==> safety_of(d).context_adwin_delta == x,
{
}

/// The algorithm is the one that is named, with its own parameter.
pub proof fn algorithms_go_by_name(j: Js)
    ensures
        ({
            let word = j.str_at("algorithm"@);
            &&& algorithm_of(j) is EpsilonGreedy <==> word == Some("epsilonGreedy"@)
            &&& algorithm_of(j) is Ucb1 <==> word == Some("ucb1"@)
            &&& algorithm_of(j) is ThompsonSampling <==> word == Some("thompsonSampling"@) || word
                == Some("thompson"@)
            &&& algorithm_of(j) is Softmax <==> word == Some("softmax"@)
            &&& algorithm_of(j) is EpsilonGreedy ==> algorithm_of(j)->epsilon == j.real_or(
                "epsilon"@,
                Real { bits: 0x3FB9_9999_9999_999A },
            )
            &&& algorithm_of(j) is Softmax ==> algorithm_of(j)->temperature == j.real_or(
                "temperature"@,
                Real { bits: 0x3FF0_0000_0000_0000 },
            )
        }),
{
    reveal_strlit("epsilonGreedy");
    reveal_strlit("ucb1");
    reveal_strlit("thompsonSampling");
    reveal_strlit("thompson");
    reveal_strlit("softmax");
    assert("epsilonGreedy"@.len() == 13);
    assert("ucb1"@.len() == 4);
    assert("thompsonSampling"@.len() == 16);
    assert("thompson"@.len() == 8);
    assert("softmax"@.len() == 7);
    assert("ucb1"@[0] == 'u');
}

/// High throughput keeps neither snapshots nor a journal, high assurance keeps both
/// and clips rewards at one; a safety section counts instead of a mode.
pub proof fn modes_set_what_is_kept(j: Js, parts: ParsedParts, d: Js)
    ensures
        ({
            let s = config_of(j, parts).safety;
            let mode = j.str_at("mode"@);
            &&& lacks(j, "safety"@) && mode == Some("highThroughput"@) ==> !s.snapshot_on_feedback
                && !s.journal_on_feedback && s.reward_clip.bits == 0x4000_0000_0000_0000
            &&& lacks(j, "safety"@) && mode == Some("highAssurance"@) ==> s.snapshot_on_feedback
                && s.journal_on_feedback && s.reward_clip.bits == 0x3FF0_0000_0000_0000
            &&& j.get("safety"@) == Some(d) ==> s == safety_of(d)
        }),
{
    reveal_strlit("highThroughput");
    reveal_strlit("highAssurance");
    assert("highThroughput"@.len() == 14);
    assert("highAssurance"@.len() == 13);
}

/// Modes of choosing and methods of looking for changes go by name; what is not named
/// is greedy, and looks for drifts.
pub proof fn modes_go_by_name(s: Option<Seq<char>>)
    ensures
        mode_of(s) == SelectionMode::Weighted <==> s == Some("weighted"@),
        mode_of(s) == SelectionMode::EpsilonGreedy <==> s == Some("epsilonGreedy"@),
        method_of(s) == ChangeDetectionMethod::ModelSurprise <==> s == Some("modelSurprise"@),
{
    reveal_strlit("weighted");
    reveal_strlit("epsilonGreedy");
    assert("weighted"@.len() == 8);
    assert("epsilonGreedy"@.len() == 13);
}

/// Shared settings that are not enabled say nothing; enabled ones hold the options'
/// features that have the right length.
pub proof fn shared_settings_have_to_be_enabled(j: Js, o: Seq<(Seq<char>, Js)>, k: Seq<char>)
    ensures
        j.get("enabled"@) != Some(Js::Bool(true)) ==> !shared_of(j).enabled
            && shared_of(j).option_features == Map::<Seq<char>, Seq<Real>>::empty(),
        j.get("enabled"@) == Some(Js::Bool(true)) ==> shared_of(j).enabled,
        j.get("enabled"@) == Some(Js::Bool(true)) && j.object_at("optionFeatures"@) == Some(o)
            && shared_of(j).option_features.contains_key(k) ==> shared_of(
            j,
        ).option_features[k].len() == shared_of(j).d_option,
{
    if j.get("enabled"@) == Some(Js::Bool(true)) && j.object_at("optionFeatures"@) == Some(o) {
        lists_are_long(o, shared_of(j).d_option, k);
    }
}

proof fn lists_are_long(o: Seq<(Seq<char>, Js)>, d: usize, k: Seq<char>)
    ensures
        lists_by_name(o, d).contains_key(k) ==> lists_by_name(o, d)[k].len() == d,
    decreases o.len(),
{
    if o.len() > 0 {
        lists_are_long(o.drop_last(), d, k);
    }
}

/// A reward has a term for each key that the outcome has, in the order of the policy:
/// the value, one or zero where it is a truth value, and the weight of the key.
pub proof fn rewards_have_terms_for_shared_keys(
    outcome: Js,
    s: Seq<(String, Real)>,
    k: String,
    w: Real,
    b: bool,
    x: Real,
)
    ensures
        reward_terms(outcome, Seq::empty()).len() == 0,
        outcome.get(k@) is None ==> reward_terms(outcome, s.push((k, w))) == reward_terms(
            outcome,
            s,
        ),
        outcome.get(k@) == Some(Js::Bool(b)) ==> reward_terms(outcome, s.push((k, w)))
            == reward_terms(outcome, s).push(
            (
                Real {
                    bits: if b {
                        0x3FF0_0000_0000_0000
                    } else {
                        0
                    },
                },
                w,
            ),
        ),
        outcome.real_at(k@) == Some(x) ==> reward_terms(outcome, s.push((k, w))) == reward_terms(
            outcome,
            s,
        ).push((x, w)),
{
    assert(s.push((k, w)).drop_last() =~= s);
}

/// Components count that are named and measured, in their order; a range or a budget
/// that is given tells how they are scaled.
pub proof fn components_are_named_and_measured(s: Seq<Js>, c: Js, measured: Js)
    ensures
        ({
            let name = c.str_at("name"@);
            let all = components_of(s.push(c), measured);
            &&& name is None || measured.real_at(name->Some_0) is None ==> all == components_of(
                s,
                measured,
            )
            &&& name is Some && measured.real_at(name->Some_0) is Some ==> {
                &&& all.drop_last() == components_of(s, measured)
                &&& Some(all.last().raw) == measured.real_at(name->Some_0)
                &&& all.last().weight == c.real_or("weight"@, Real { bits: 0 })
                &&& lacks(c, "normalize"@) ==> all.last().scale is Plain
                &&& c.str_at("normalize"@) == Some("budget"@) ==> all.last().scale
                    == Scale::Budget(c.real_or("budget"@, Real { bits: 0x3FF0_0000_0000_0000 }))
                &&& c.str_at("normalize"@) == Some("minmax"@) && c.array_at("range"@) is Some
                    ==> all.last().scale is MinMax
            }
        }),
{
    reveal_strlit("minmax");
    reveal_strlit("budget");
    assert("minmax"@[0] == 'm');
    assert("budget"@[0] == 'b');
    assert(s.push(c).drop_last() =~= s);
    let name = c.str_at("name"@);
    if name is Some && measured.real_at(name->Some_0) is Some {
        let all = components_of(s.push(c), measured);
        assert(all.drop_last() =~= components_of(s, measured));
    }
}

} // verus!
