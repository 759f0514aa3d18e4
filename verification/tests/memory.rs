use lycan::capsule_memory::{CapsuleMemory, MemoryParts, OodParts, StrategyMemory, StrategyRounded};
use lycan::change_detection::AdwinDetector;
use lycan::json::{copy_json, Json};
use lycan::json_text::parse_json_text;
use lycan::learning_config::{LearningConfig, ParsedParts};
use lycan::learning_memory::{new_bucket, ContextBucket, OptionState};
use lycan::learning_sections::{Algorithm, RefusalConfig};
use lycan::learning_stats::Rounded;
use lycan::linucb::LinUcbState;
use lycan::meta_bandit::{CandidateId, MetaBandit};
use lycan::number::Real;
use lycan::table::Table;

fn num(x: f64) -> Real {
    Real { bits: x.to_bits() }
}

fn value(r: Real) -> f64 {
    f64::from_bits(r.bits)
}

fn nums(v: &[f64]) -> Vec<Real> {
    v.iter().map(|x| num(*x)).collect()
}

fn json(text: &str) -> Json {
    parse_json_text(text).unwrap()
}

fn no_rounding(b: &ContextBucket) -> Vec<Rounded> {
    let zero = num(0.0);
    b.stats
        .iter()
        .map(|s| Rounded {
            reward_mean: zero,
            reward_mean_windowed: zero,
            reward_variance: zero,
            effective_tries: s.effective_tries,
            posterior_mean: s.posterior_mean,
            posterior_var: s.posterior_var,
        })
        .collect()
}

/// A reader that takes every object and list as it stands.
fn part(j: &Json, key: &str) -> Option<Json> {
    match j.get(key) {
        Some(v @ (Json::Obj(_) | Json::Arr(_))) => Some(copy_json(v)),
        _ => None,
    }
}

fn read(j: &Json) -> CapsuleMemory {
    let strategies = match j.object_at("strategies") {
        Some(o) => o
            .iter()
            .map(|(_, s)| OodParts {
                discrete: part(s, "discreteOod"),
                feature: part(s, "featureOod"),
            })
            .collect(),
        None => Vec::new(),
    };
    CapsuleMemory::from_json(j, MemoryParts { strategies, shared: part(j, "sharedState") })
}

fn to_json(m: &CapsuleMemory) -> Json {
    let rounded: Vec<StrategyRounded> = m
        .strategies
        .entries
        .iter()
        .map(|(_, s)| StrategyRounded {
            contexts: s.contexts.entries.iter().map(|(_, b)| no_rounding(b)).collect(),
            candidates: s.candidate_contexts.entries.iter().map(|(_, b)| no_rounding(b)).collect(),
        })
        .collect();
    m.to_json(&rounded)
}

fn strategy(m: &mut CapsuleMemory, id: u32) -> &mut StrategyMemory {
    let at = m.strategies.position(&id.to_string()).unwrap();
    &mut m.strategies.entries[at].1
}

fn candidate<'a>(m: &'a mut CapsuleMemory, id: u32, key: &str) -> &'a mut ContextBucket {
    let s = strategy(m, id);
    let at = s.candidate_contexts.position(key).unwrap();
    &mut s.candidate_contexts.entries[at].1
}

fn detector<'a>(m: &'a mut CapsuleMemory, id: u32, key: &str) -> &'a mut AdwinDetector {
    let s = strategy(m, id);
    let at = s.context_detectors.position(key).unwrap();
    &mut s.context_detectors.entries[at].1
}

fn record(m: &mut MetaBandit, chosen: CandidateId, reward: f64) {
    let same: Vec<(Real, Real)> =
        m.candidates.iter().map(|c| (c.trials, c.cumulative_reward)).collect();
    let at = m.position(chosen).unwrap();
    let credit = (num(value(same[at].0) + 1.0), num(value(same[at].1) + reward));
    m.record(chosen, &same, credit);
}

fn quantile(b: &ContextBucket) -> Option<f64> {
    let c = &b.conformity_calibrator;
    c.quantile(num(((c.len() as f64 + 1.0) * 0.95).ceil())).map(value)
}

#[test]
fn candidate_context_initialized_with_correct_option_state() {
    let mut mem = CapsuleMemory::default();
    let weights = nums(&[0.25, 0.25, 0.25, 0.25]);

    let thompson_bucket =
        mem.get_or_init_candidate_context(42, "default", CandidateId::Thompson, &weights, 4);
    for state in &thompson_bucket.option_states {
        assert!(matches!(state, OptionState::BetaBernoulli { alpha, beta }
            if (value(*alpha) - 1.0).abs() < 1e-9 && (value(*beta) - 1.0).abs() < 1e-9));
    }

    let ucb_bucket =
        mem.get_or_init_candidate_context(42, "default", CandidateId::Ucb, &weights, 4);
    for state in &ucb_bucket.option_states {
        assert!(matches!(state, OptionState::Ucb { tries, .. } if value(*tries).abs() < 1e-9));
    }

    let weighted_bucket =
        mem.get_or_init_candidate_context(42, "default", CandidateId::Weighted, &weights, 4);
    for state in &weighted_bucket.option_states {
        assert!(matches!(state, OptionState::Weighted { .. }));
    }
}

#[test]
fn candidate_contexts_are_independent() {
    let mut mem = CapsuleMemory::default();
    let weights = nums(&[0.5, 0.5]);
    let b = mem.get_or_init_candidate_context(7, "ctx", CandidateId::Thompson, &weights, 2);
    b.updated_at = 12345;
    let ucb_b = mem.get_or_init_candidate_context(7, "ctx", CandidateId::Ucb, &weights, 2);
    assert_eq!(ucb_b.updated_at, 0);
}

#[test]
fn legacy_get_or_init_context_unchanged() {
    let mut mem = CapsuleMemory::default();
    let bucket = mem.get_or_init_context(99, "ctx", &nums(&[0.5, 0.5]), 2);
    bucket.updated_at = 7;
    mem.get_or_init_context(99, "ctx", &nums(&[0.5, 0.5]), 2);
    let s = strategy(&mut mem, 99);
    assert!(s.candidate_contexts.entries.is_empty());
    assert_eq!(s.contexts.get("ctx").unwrap().updated_at, 7);
    assert_eq!(mem.list_contexts(99), vec!["ctx".to_string()]);
    assert!(mem.list_contexts(98).is_empty());
}

#[test]
fn serialization_roundtrip_preserves_candidate_contexts() {
    let mut mem = CapsuleMemory::default();
    let weights = nums(&[0.3, 0.7]);
    let b = mem.get_or_init_candidate_context(1, "ctx_a", CandidateId::Thompson, &weights, 2);
    b.updated_at = 1000;
    let b = mem.get_or_init_candidate_context(1, "ctx_b", CandidateId::Ucb, &weights, 2);
    b.updated_at = 2000;

    let mut mem2 = read(&to_json(&mem));
    assert_eq!(candidate(&mut mem2, 1, "Thompson|ctx_a").updated_at, 1000);
    assert_eq!(candidate(&mut mem2, 1, "Ucb|ctx_b").updated_at, 2000);
}

#[test]
fn reset_candidate_contexts_clears_only_matching_context_key() {
    let mut mem = CapsuleMemory::default();
    let weights = nums(&[0.5, 0.5]);
    mem.get_or_init_candidate_context(5, "keep", CandidateId::Thompson, &weights, 2);
    mem.get_or_init_candidate_context(5, "keep", CandidateId::Ucb, &weights, 2);
    mem.get_or_init_candidate_context(5, "drop", CandidateId::Thompson, &weights, 2);
    mem.get_or_init_candidate_context(5, "drop", CandidateId::Ucb, &weights, 2);

    mem.reset_candidate_contexts(5, "drop");

    let candidates = mem.candidates_for_context(5, "keep");
    assert_eq!(candidates.len(), 2);
    let candidates = mem.candidates_for_context(5, "drop");
    assert!(candidates.is_empty());
}

#[test]
fn meta_bandit_roundtrip_through_json() {
    let mut mem = CapsuleMemory::default();
    let mb = mem.get_or_init_meta_bandit(42, 3, &CandidateId::discrete_only().to_vec());
    mb.forgetting_factor = num(1.0);
    record(mb, CandidateId::Thompson, 0.8);
    record(mb, CandidateId::Ucb, 0.5);
    mb.forgetting_factor = num(0.95);

    let mem2 = read(&to_json(&mem));
    let mb2 = mem2.meta_bandit_for(42).expect("meta-bandit should roundtrip");
    assert_eq!(mb2.total_rounds, 2);
    let thompson = mb2.candidates.iter().find(|c| c.id == CandidateId::Thompson).unwrap();
    assert!((value(thompson.trials) - 1.0).abs() < 1e-9);
    assert!((value(thompson.cumulative_reward) - 0.8).abs() < 1e-9);
    let ucb = mb2.candidates.iter().find(|c| c.id == CandidateId::Ucb).unwrap();
    assert!((value(ucb.trials) - 1.0).abs() < 1e-9);
    assert!((value(ucb.cumulative_reward) - 0.5).abs() < 1e-9);
    assert!((value(mb2.forgetting_factor) - 0.95).abs() < 1e-9);

    mem.reset_meta_bandit(42);
    assert_eq!(mem.meta_bandit_for(42).unwrap().total_rounds, 0);
    assert!(mem.meta_bandit_for(41).is_none());
}

#[test]
fn v3_memory_json_loads_without_meta_bandit() {
    let mut mem = read(&json(
        "{\"version\": 3, \"strategies\": {\"5\": {\"nodeId\": 5, \"nOptions\": 2, \
         \"contexts\": {}, \"candidateContexts\": {}}}}",
    ));
    assert!(strategy(&mut mem, 5).meta_bandit.is_none());
}

#[test]
fn context_detector_created_on_demand() {
    let mut mem = CapsuleMemory::default();
    let d = mem.get_or_init_context_detector(5, "merchant_a");
    assert_eq!(d.len(), 0);
}

#[test]
fn context_detectors_are_independent() {
    let mut mem = CapsuleMemory::default();
    let d = mem.get_or_init_context_detector(5, "merchant_a");
    for _ in 0..30 {
        d.add(num(0.5));
    }
    let d_b = mem.get_or_init_context_detector(5, "merchant_b");
    assert_eq!(d_b.len(), 0, "merchant_b detector is independent of merchant_a");
    assert_eq!(detector(&mut mem, 5, "merchant_a").len(), 30);
}

#[test]
fn context_detector_roundtrip_through_json() {
    let mut mem = CapsuleMemory::default();
    let d = mem.get_or_init_context_detector(1, "ctx");
    for i in 0..20 {
        d.add(num(i as f64 / 20.0));
    }
    let mut mem2 = read(&to_json(&mem));
    let restored = detector(&mut mem2, 1, "ctx");
    assert_eq!(restored.len(), 20);
    assert_eq!(value(restored.delta()), 0.002);
    assert_eq!(value(restored.window_snapshot()[19]), 0.95);
}

#[test]
fn reset_context_detector_clears_window() {
    let mut mem = CapsuleMemory::default();
    let d = mem.get_or_init_context_detector_with_delta(1, "ctx", num(0.25));
    for _ in 0..30 {
        d.add(num(0.5));
    }
    mem.reset_context_detector(1, "ctx");
    let d = mem.get_or_init_context_detector(1, "ctx");
    assert_eq!(d.len(), 0);
    assert_eq!(value(d.delta()), 0.25);
    mem.reset_context_detector(2, "ctx");
    assert!(mem.strategies.get("2").is_none());
}

#[test]
fn v4_memory_loads_without_context_detectors() {
    let mut mem = read(&json(
        "{\"version\": 4, \"strategies\": {\"42\": {\"nodeId\": 42, \"nOptions\": 2, \
         \"contexts\": {}, \"candidateContexts\": {}, \"metaBandit\": null}}}",
    ));
    assert!(strategy(&mut mem, 42).context_detectors.entries.is_empty());
}

#[test]
fn ucb_state_serializes_with_f64_tries() {
    let state = OptionState::Ucb { tries: num(12.5), total_reward: num(8.7) };
    let written = state.to_json();
    assert_eq!(written.get("tries").and_then(|v| v.as_real()).map(value), Some(12.5));
    let restored = OptionState::from_json(&written).unwrap();
    if let OptionState::Ucb { tries, total_reward } = restored {
        assert!((value(tries) - 12.5).abs() < 1e-9);
        assert!((value(total_reward) - 8.7).abs() < 1e-9);
    } else {
        panic!("expected Ucb");
    }
}

#[test]
fn ucb_state_loads_legacy_integer_tries() {
    let legacy = json("{\"kind\": \"ucb\", \"tries\": 42, \"totalReward\": 30.5}");
    if let OptionState::Ucb { tries, total_reward } = OptionState::from_json(&legacy).unwrap() {
        assert!((value(tries) - 42.0).abs() < 1e-9);
        assert!((value(total_reward) - 30.5).abs() < 1e-9);
    } else {
        panic!("expected Ucb");
    }
}

#[test]
fn v2_memory_json_loads_without_candidate_contexts() {
    let mut mem = read(&json(
        "{\"version\": 2, \"strategies\": {\"42\": {\"nodeId\": 42, \"nOptions\": 2, \
         \"contexts\": {\"default\": {\"weights\": [0.5, 0.5], \"stats\": [], \
         \"optionStates\": [], \"conformityScores\": [], \"updatedAt\": 0}}}}}",
    ));
    let sm = strategy(&mut mem, 42);
    assert_eq!(sm.contexts.entries.len(), 1);
    assert!(sm.candidate_contexts.entries.is_empty());
}

fn fresh_bucket(n: usize) -> ContextBucket {
    let w = num(1.0 / n as f64);
    new_bucket(vec![w; n], n, (0..n).map(|_| OptionState::weighted(w)).collect())
}

#[test]
fn bucket_roundtrip_preserves_calibrator() {
    let mut bucket = fresh_bucket(2);
    for i in 0..40 {
        bucket.conformity_calibrator.record(num((0.5 - (0.5 + (i as f64) * 0.01)).abs()));
    }
    let q_before = quantile(&bucket).unwrap();

    let mut mem = CapsuleMemory::default();
    let mut s = StrategyMemory::new(1, 2);
    s.contexts.insert("ctx".to_string(), bucket);
    mem.strategies.insert("1".to_string(), s);
    let written = to_json(&mem);
    assert_eq!(written.get("version").and_then(|v| v.as_u64()), Some(7));

    let mut mem2 = read(&written);
    let restored = strategy(&mut mem2, 1).contexts.get("ctx").unwrap();
    let q_after = quantile(restored).unwrap();
    assert!((q_before - q_after).abs() < 1e-9);
}

#[test]
fn legacy_conformity_scores_array_loads_into_calibrator() {
    let five = "0.1, 0.2, 0.3, 0.4, 0.5";
    let scores = [five; 6].join(", ");
    let mut mem = read(&json(&format!(
        "{{\"version\": 5, \"strategies\": {{\"1\": {{\"nodeId\": 1, \"nOptions\": 2, \
         \"contexts\": {{\"ctx\": {{\"weights\": [0.5, 0.5], \"stats\": [], \
         \"optionStates\": [], \"conformityScores\": [{scores}], \"updatedAt\": 0}}}}}}}}}}"
    )));
    let bucket = strategy(&mut mem, 1).contexts.get("ctx").unwrap();
    assert_eq!(bucket.conformity_calibrator.len(), 30);
    assert!(quantile(bucket).is_some());
}

#[test]
fn v6_memory_loads_without_ood_fields() {
    let mem = read(&json(
        "{\"version\": 6, \"strategies\": {\"3\": {\"nodeId\": 3, \"nOptions\": 2, \
         \"contexts\": {}, \"candidateContexts\": {}, \"metaBandit\": null, \
         \"contextDetectors\": {}}}}",
    ));
    assert!(mem.strategies.get("3").is_some());
    assert!(mem.discrete_ood_for(3).is_none());
    assert!(mem.feature_ood_for(3).is_none());
}

#[test]
fn unfamiliar_parts_are_kept_as_they_are_read() {
    let mut mem = CapsuleMemory::default();
    let mut s = StrategyMemory::new(3, 2);
    s.discrete_ood = Some(json("{\"seen\": 60}"));
    mem.strategies.insert("3".to_string(), s);
    mem.shared_state = Some(json("[1, 2]"));
    let back = read(&to_json(&mem));
    let kept = back.discrete_ood_for(3).unwrap();
    assert_eq!(kept.get("seen").and_then(|v| v.as_u64()), Some(60));
    assert!(back.feature_ood_for(3).is_none());
    assert_eq!(back.shared_state.unwrap().as_array().map(|a| a.len()), Some(2));
}

#[test]
fn unfamiliar_parts_that_cannot_be_read_are_dropped() {
    let j = json(
        "{\"sharedState\": {\"x\": 1}, \"strategies\": {\"3\": {\"discreteOod\": {\"seen\": 60}, \
         \"featureOod\": 5}, \"4\": {}}}",
    );
    let nothing = || OodParts { discrete: None, feature: None };
    let parts = MemoryParts { strategies: vec![nothing(), nothing()], shared: None };
    let mem = CapsuleMemory::from_json(&j, parts);
    assert!(mem.discrete_ood_for(3).is_none());
    assert!(mem.feature_ood_for(3).is_none());
    assert!(mem.shared_state.is_none());
    // A part without its field does not count.
    let given = OodParts { discrete: Some(json("{}")), feature: Some(json("{}")) };
    let parts = MemoryParts { strategies: vec![nothing(), given], shared: Some(json("{}")) };
    let mem = CapsuleMemory::from_json(&j, parts);
    assert!(mem.discrete_ood_for(4).is_none());
    assert!(mem.shared_state.is_some());
}

#[test]
fn refusal_config_defaults_to_disabled() {
    let cfg = RefusalConfig::default();
    assert!(!cfg.enabled);
    assert_eq!(value(cfg.coverage), 0.95);
    assert_eq!(value(cfg.max_interval_width), 0.5);
    assert_eq!(value(cfg.ood_threshold), 0.8);
}

fn no_parts() -> ParsedParts {
    ParsedParts { context_spec: None, action_space: None, refusal: None }
}

#[test]
fn learning_config_without_refusal_uses_default() {
    let cfg = LearningConfig::from_json(&json("{}"), no_parts());
    let expected = RefusalConfig::default();
    assert_eq!(cfg.refusal.enabled, expected.enabled);
    assert_eq!(cfg.refusal.coverage, expected.coverage);
    assert_eq!(cfg.refusal.max_interval_width, expected.max_interval_width);
    assert_eq!(cfg.refusal.ood_threshold, expected.ood_threshold);
}

#[test]
fn learning_config_takes_a_parsed_refusal() {
    let refusal = RefusalConfig {
        enabled: true,
        coverage: num(0.99),
        max_interval_width: num(0.15),
        ood_threshold: num(0.6),
    };
    let parts = ParsedParts { context_spec: None, action_space: None, refusal: Some(refusal) };
    let cfg = LearningConfig::from_json(&json("{\"refusal\": {}}"), parts);
    assert!(cfg.refusal.enabled);
    assert_eq!(value(cfg.refusal.coverage), 0.99);
    assert_eq!(value(cfg.refusal.max_interval_width), 0.15);
    assert_eq!(value(cfg.refusal.ood_threshold), 0.6);
}

#[test]
fn settings_survive_being_written() {
    let cfg = LearningConfig::from_json(
        &json(
            "{\"algorithm\": \"softmax\", \"temperature\": 0.5, \"learningRate\": 0.25, \
             \"window\": {\"enabled\": true, \"size\": 12}, \
             \"decay\": {\"enabled\": true, \"halfLifeFeedbacks\": 8.0}, \
             \"delayedFeedback\": {\"enabled\": true, \"signals\": \
             [{\"name\": \"late\", \"noiseVariance\": 0.5, \"bias\": 0.125}]}}",
        ),
        no_parts(),
    );
    assert!(matches!(cfg.algorithm, Algorithm::Softmax { temperature } if value(temperature) == 0.5));
    let back = LearningConfig::from_json(
        &cfg.to_json(Json::Null, Json::Null, Json::Null),
        no_parts(),
    );
    assert_eq!(value(back.learning_rate), 0.25);
    assert!(back.window.enabled);
    assert_eq!(back.window.size, 12);
    assert_eq!(value(back.decay.half_life_feedbacks), 8.0);
    assert_eq!(back.delayed_feedback.signals.len(), 1);
    assert_eq!(back.delayed_feedback.signals[0].name, "late");
    assert_eq!(value(back.delayed_feedback.signals[0].bias), 0.125);
}

#[test]
fn linear_states_survive_being_written() {
    let mut state = LinUcbState::new(2, num(0.5), num(2.0));
    state.b = nums(&[0.25, -1.5]);
    let back = OptionState::from_json(&OptionState::LinUcb { state }.to_json()).unwrap();
    if let OptionState::LinUcb { state } = back {
        assert_eq!(state.d, 2);
        assert_eq!(state.b, nums(&[0.25, -1.5]));
        assert_eq!(value(state.a_inv[1][1]), 2.0);
        assert_eq!(value(state.a[0][1]), 0.0);
    } else {
        panic!("expected LinUcb");
    }
    assert!(OptionState::from_json(&json("{\"kind\": \"other\"}")).is_none());
}

#[test]
fn windows_survive_being_written() {
    let mut mem = CapsuleMemory::default();
    let mut w = lycan::feature_schema::TimeSeriesWindow::new(2);
    for x in [1.0, 2.0, 3.0] {
        w.push(num(x));
    }
    mem.time_series_windows.insert("load".to_string(), w);
    let back = read(&to_json(&mem));
    let kept = back.time_series_windows.get("load").unwrap();
    assert_eq!(kept.values, nums(&[2.0, 3.0]));
    assert_eq!(kept.max_size, 2);
}

#[test]
fn tables_hold_each_key_once() {
    let mut t: Table<u64> = Table::new();
    t.insert("b".to_string(), 1);
    t.insert("a".to_string(), 2);
    t.insert("b".to_string(), 3);
    assert_eq!(t.entries.len(), 2);
    assert_eq!(t.get("b"), Some(&3));
    assert_eq!(t.remove("b"), Some(3));
    assert_eq!(t.get("b"), None);
    let mut s: Table<u64> = Table::new();
    for k in ["c", "a", "b"] {
        s.insert_sorted(k.to_string(), 0);
    }
    let keys: Vec<&str> = s.entries.iter().map(|e| e.0.as_str()).collect();
    assert_eq!(keys, vec!["a", "b", "c"]);
}
