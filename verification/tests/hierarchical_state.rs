use lycan::capsule_memory::{parse_meta_bandit, serialize_meta_bandit};
use lycan::hierarchical::{
    DecisionPath, HierState, HierarchicalDecision, HierarchicalOption, HierarchicalSpec,
    LevelReward, RewardKind, RewardPropagation, RewardSpec,
};
use lycan::hierarchical_feedback::credited_candidate;
use lycan::hierarchical_state::{
    HierBucket, HierStateKey, HierarchicalCapsuleState, LevelEnd, LevelNumbers, nudge_weights,
};
use lycan::json::Json;
use lycan::learning::select_weighted;
use lycan::learning_stats::Rounded;
use lycan::meta_bandit::{CandidateId, MetaBandit, Quotient};
use lycan::number::Real;

fn num(x: f64) -> Real {
    Real { bits: x.to_bits() }
}

fn value(r: Real) -> f64 {
    f64::from_bits(r.bits)
}

fn nums(v: &[f64]) -> Vec<Real> {
    v.iter().map(|x| num(*x)).collect()
}

fn values(v: &[Real]) -> Vec<f64> {
    v.iter().map(|r| value(*r)).collect()
}

fn means(m: &MetaBandit) -> Vec<Real> {
    m.candidates
        .iter()
        .map(|c| match c.mean_reward() {
            Quotient::Known(r) => r,
            Quotient::Of(a, b) => num(value(a) / value(b)),
        })
        .collect()
}

fn choose_candidate(m: &MetaBandit, roll: f64, pick: f64) -> (CandidateId, bool) {
    let n = m.candidates.len() as f64;
    let raw = (n * value(m.exploration_decay) / m.total_rounds as f64).sqrt();
    let p = m.exploration_probability(num(raw));
    m.select(num(roll), p, num(pick * n), &means(m))
}

fn leading_candidate(m: &MetaBandit) -> Option<CandidateId> {
    m.current_leader(&means(m))
}

/// The most options of a decision for which an even share is exact.
const MOST_OPTIONS: usize = 0x20_0000_0000_0000;

// The running sums of the weights.
fn weighted_index(weights: &[Real], roll: f64) -> usize {
    if weights.is_empty() {
        return 0;
    }
    let w = values(weights);
    let sum: f64 = w.iter().sum();
    let cumulative: Vec<f64> = w
        .iter()
        .scan(0.0, |c, x| {
            *c += x;
            Some(*c)
        })
        .collect();
    select_weighted(num(sum), &nums(&cumulative), num(roll * sum)).0
}

/// Walks down the tree to a leaf.
fn select_path<F: FnMut() -> (f64, f64)>(
    state: &mut HierarchicalCapsuleState,
    mut rolls: F,
) -> Option<HierarchicalDecision> {
    let mut path: DecisionPath = Vec::new();
    let mut ids = Vec::new();
    loop {
        state.open_level(&path)?;
        let key = HierStateKey::from_parts(path.len(), &path);
        let bucket = state.buckets.get(key.as_str())?;
        let (explore, pick) = rolls();
        let (candidate, _) = choose_candidate(&bucket.meta_bandit, explore, pick);
        ids.push(candidate.as_str().to_string());
        let (_, arm) = rolls();
        path.push(weighted_index(&bucket.weights, arm));
        match state.end_of(&path)? {
            LevelEnd::Deeper => continue,
            LevelEnd::Leaf(leaf_name) => {
                return Some(HierarchicalDecision { path, leaf_name, per_level_candidate_ids: ids });
            }
        }
    }
}

fn reward_at(r: &LevelReward) -> f64 {
    match r {
        LevelReward::Known(x) => value(*x),
        LevelReward::Discounted { reward, factor, power } => {
            value(*reward) * value(*factor).powi(*power as i32)
        }
    }
}

// What a level's reward does to the weights, sums and records.
fn level_numbers(b: &HierBucket, chosen: usize, reward: f64, candidate: CandidateId) -> LevelNumbers {
    let before = b.weights.get(chosen).map_or(0.0, |w| value(*w));
    let moved = num(before + 0.1 * (reward - before));
    let w = values(&nudge_weights(&b.weights, chosen, moved));
    let sum: f64 = w.iter().sum();
    let shares: Vec<f64> = w.iter().map(|x| x / sum).collect();
    let mut sums = (0.0, 0.0, 0.0);
    if let Some(s) = b.stats.get(chosen) {
        sums = (
            value(s.reward_sum) + reward,
            value(s.reward_sq_sum) + reward * reward,
            value(s.effective_tries) + 1.0,
        );
    }
    let m = &b.meta_bandit;
    let f = if m.forgets() { value(m.forgetting_factor) } else { 1.0 };
    let records: Vec<(Real, Real)> = m
        .candidates
        .iter()
        .map(|c| (num(value(c.trials) * f), num(value(c.cumulative_reward) * f)))
        .collect();
    let credit = match m.position(candidate) {
        Some(at) => (num(value(records[at].0) + 1.0), num(value(records[at].1) + reward)),
        None => (num(0.0), num(0.0)),
    };
    LevelNumbers {
        reward: num(reward),
        moved,
        sum: num(sum),
        shares: nums(&shares),
        sums: (num(sums.0), num(sums.1), num(sums.2)),
        candidate,
        records,
        credit,
    }
}

/// Gives a reward to every level along a path. Credit goes to the candidates that
/// chose, where there is one for each level, or else to the leaders.
fn apply_feedback(
    state: &mut HierarchicalCapsuleState,
    path: &DecisionPath,
    chosen_per_level: &Vec<usize>,
    candidates: Option<&Vec<CandidateId>>,
    reward: f64,
) -> Vec<(HierState, f64)> {
    let levels = state.feedback_levels(path, chosen_per_level, num(reward));
    let mut numbers = Vec::with_capacity(levels.len());
    for (level, (at, r)) in levels.iter().enumerate() {
        assert!(at.branching_factor <= MOST_OPTIONS, "too many options");
        let key = HierStateKey::from_state(at);
        let fresh = HierBucket::new(at.branching_factor);
        let bucket = state.buckets.get(key.as_str()).unwrap_or(&fresh);
        assert!(bucket.meta_bandit.total_rounds < u64::MAX, "round count overflow");
        let leader = leading_candidate(&bucket.meta_bandit);
        let candidate = credited_candidate(candidates, levels.len(), level, leader);
        numbers.push(level_numbers(bucket, chosen_per_level[level], reward_at(r), candidate));
    }
    state
        .apply_feedback(path, chosen_per_level, num(reward), numbers)
        .into_iter()
        .map(|(at, r)| (at, reward_at(&r)))
        .collect()
}

/// What is written of each bucket beside its weights.
fn written_parts(s: &HierarchicalCapsuleState) -> (Vec<Vec<Rounded>>, Vec<Json>) {
    let zero = num(0.0);
    let rounded = s
        .buckets
        .entries
        .iter()
        .map(|(_, b)| {
            b.stats
                .iter()
                .map(|st| Rounded {
                    reward_mean: zero,
                    reward_mean_windowed: zero,
                    reward_variance: zero,
                    effective_tries: st.effective_tries,
                    posterior_mean: st.posterior_mean,
                    posterior_var: st.posterior_var,
                })
                .collect()
        })
        .collect();
    let metas =
        s.buckets.entries.iter().map(|(_, b)| serialize_meta_bandit(&b.meta_bandit)).collect();
    (rounded, metas)
}

fn read_metas(j: &Json) -> Vec<Option<MetaBandit>> {
    match j.object_at("buckets") {
        Some(o) => {
            o.iter().map(|(_, b)| b.get("metaBandit").and_then(parse_meta_bandit)).collect()
        }
        None => Vec::new(),
    }
}

fn cont_reward() -> RewardSpec {
    RewardSpec { kind: RewardKind::Continuous, range: Some([num(-1.0), num(1.0)]) }
}

fn leaf(name: &str) -> HierarchicalOption {
    HierarchicalOption::Leaf { name: name.to_string() }
}

fn branch(name: &str, sub: HierarchicalSpec) -> HierarchicalOption {
    HierarchicalOption::Branch {
        name: name.to_string(),
        sub_capsule: Box::new(sub),
    }
}

/// Two regions of three server types each.
fn spec_2x3() -> HierarchicalSpec {
    HierarchicalSpec {
        options: vec![
            branch(
                "us-east",
                HierarchicalSpec {
                    options: vec![leaf("small"), leaf("medium"), leaf("large")],
                    reward: cont_reward(),
                    reward_propagation: None,
                },
            ),
            branch(
                "eu-west",
                HierarchicalSpec {
                    options: vec![leaf("small"), leaf("medium"), leaf("large")],
                    reward: cont_reward(),
                    reward_propagation: None,
                },
            ),
        ],
        reward: cont_reward(),
        reward_propagation: None,
    }
}

/// Tiny deterministic RNG so the unit test is reproducible. Returns
/// pairs of independent `[0, 1)` draws.
fn seeded_rng(seed: u64) -> impl FnMut() -> (f64, f64) {
    let mut state: u64 = seed.max(1);
    move || {
        let step = |s: &mut u64| -> f64 {
            *s = s.wrapping_mul(6364136223846793005).wrapping_add(1442695040888963407);
            ((*s >> 11) as u32) as f64 / (u32::MAX as f64 + 1.0)
        };
        (step(&mut state), step(&mut state))
    }
}

#[test]
fn key_round_trips_via_state() {
    let s = HierState {
        depth: 2,
        parent_option_path: vec![0, 1],
        branching_factor: 3,
    };
    let k = HierStateKey::from_state(&s);
    assert_eq!(k.as_str(), "d2|0,1");
    let k2 = HierStateKey::from_parts(0, &vec![]);
    assert_eq!(k2.as_str(), "d0|");
}

#[test]
fn new_state_has_no_buckets_until_selection() {
    let s = HierarchicalCapsuleState::new(spec_2x3());
    assert!(s.buckets.entries.is_empty(), "buckets must be allocated lazily");
}

#[test]
fn first_selection_allocates_two_buckets() {
    let mut s = HierarchicalCapsuleState::new(spec_2x3());
    let mut rng = seeded_rng(1);
    let dec = select_path(&mut s, || rng())
        .expect("a 2x3 spec must produce a path");
    assert_eq!(dec.path.len(), 2, "depth-2 spec yields a length-2 path");
    assert_eq!(dec.per_level_candidate_ids.len(), 2);
    // Root bucket plus exactly one second-level bucket (the one
    // reachable along the chosen root option).
    assert_eq!(s.buckets.entries.len(), 2);
    assert!(s.buckets.get("d0|").is_some());
    let second_key = format!("d1|{}", dec.path[0]);
    assert!(
        s.buckets.get(&second_key).is_some(),
        "expected second-level bucket {second_key}, have {:?}",
        s.buckets.entries
    );
}

#[test]
fn weighted_index_picks_endpoints_correctly() {
    // Uniform [0.5, 0.5]: r=0.0 -> 0, r=0.99 -> 1.
    assert_eq!(weighted_index(&nums(&[0.5, 0.5]), 0.0), 0);
    assert_eq!(weighted_index(&nums(&[0.5, 0.5]), 0.99), 1);
    // Skewed [0.9, 0.1]: r=0.5 falls inside the first bucket.
    assert_eq!(weighted_index(&nums(&[0.9, 0.1]), 0.5), 0);
}

#[test]
fn json_round_trip_preserves_state() {
    let mut s = HierarchicalCapsuleState::new(spec_2x3());
    let mut rng = seeded_rng(7);
    // Touch a few buckets so the serialized form actually carries
    // state.
    for _ in 0..5 {
        let dec = select_path(&mut s, || rng()).expect("decision");
        apply_feedback(&mut s, &dec.path, &dec.path, None, 0.42);
    }
    let (rounded, metas) = written_parts(&s);
    let j = s.to_json(&rounded, &metas);
    let options = j.get("spec").unwrap().array_at("options").unwrap();
    assert!(options[0].get("subCapsule").is_some());
    for (_, b) in j.object_at("buckets").unwrap() {
        assert!(b.get("metaBandit").is_some());
    }
    let read = read_metas(&j);
    let round = HierarchicalCapsuleState::from_json(&j, Ok(spec_2x3()), read).expect("round-trips");
    assert_eq!(round.buckets.entries.len(), s.buckets.entries.len());
    for (k, b) in &s.buckets.entries {
        let rb = round.buckets.get(k).expect("bucket survives");
        assert_eq!(rb.weights.len(), b.weights.len());
        for (x, y) in rb.weights.iter().zip(b.weights.iter()) {
            let (x, y) = (value(*x), value(*y));
            assert!((x - y).abs() < 1e-9, "weights diverged: {x} vs {y}");
        }
        assert_eq!(rb.meta_bandit.total_rounds, b.meta_bandit.total_rounds);
    }
}

#[test]
fn invalid_feedback_path_returns_empty() {
    let mut s = HierarchicalCapsuleState::new(spec_2x3());
    // Out-of-bounds at the root.
    let updates = apply_feedback(&mut s, &vec![9, 0], &vec![9, 0], None, 0.5);
    assert!(updates.is_empty());
    // Length mismatch between path and chosen_per_level.
    let updates = apply_feedback(&mut s, &vec![0, 0], &vec![0], None, 0.5);
    assert!(updates.is_empty());
}

#[test]
fn apply_feedback_discounted_attenuates_root_bucket_stats() {
    // With Discounted { factor: num(0.5) } in a 2-level (2x3) spec, a
    // leaf reward of 1.0 should land on the root bucket as 0.5 and
    // on the sub-bucket as 1.0. The stat accumulator picks this up
    // directly (reward_sum on the chosen arm).
    let mut spec = spec_2x3();
    spec.reward_propagation = Some(
        RewardPropagation::Discounted { factor: num(0.5) }
    );
    let mut s = HierarchicalCapsuleState::new(spec);

    // Apply feedback for path [0, 1] (us-east / medium) once.
    let path = vec![0, 1];
    let updates = apply_feedback(&mut s, &path, &path, None, 1.0);
    assert_eq!(updates.len(), 2);
    // Returned per-level rewards reflect the discount.
    assert!((updates[0].1 - 0.5).abs() < 1e-12,
            "root level should see 0.5, got {}", updates[0].1);
    assert!((updates[1].1 - 1.0).abs() < 1e-12,
            "leaf level should see 1.0, got {}", updates[1].1);

    // The persisted bucket stats also reflect the discount: the
    // root bucket's chosen-arm reward_sum is 0.5, not 1.0.
    let root = s.buckets.get("d0|").expect("root bucket allocated");
    let root_sum = root.stats.get(0).map(|st| value(st.reward_sum)).unwrap_or(0.0);
    assert!((root_sum - 0.5).abs() < 1e-12,
            "root chosen-arm reward_sum should be 0.5, got {root_sum}");

    let mid = s.buckets.get("d1|0").expect("us-east bucket allocated");
    let mid_sum = mid.stats.get(1).map(|st| value(st.reward_sum)).unwrap_or(0.0);
    assert!((mid_sum - 1.0).abs() < 1e-12,
            "leaf chosen-arm reward_sum should be 1.0, got {mid_sum}");
}

#[test]
fn apply_feedback_with_candidates_credits_supplied_candidate() {
    let mut s = HierarchicalCapsuleState::new(spec_2x3());
    // Walk path [0, 1] (us-east / medium) and credit two distinct,
    // non-leader candidates so the test can prove the supplied id
    // is what landed in the meta-bandit.
    let path = vec![0, 1];
    let candidates = vec![CandidateId::Weighted, CandidateId::EpsilonGreedy];
    let updates = apply_feedback(&mut s, &path, &path, Some(&candidates), 0.7);
    assert_eq!(updates.len(), 2, "feedback should hit both levels");

    // Root bucket must have credited Weighted (level 0).
    let root_bucket = s.buckets.get("d0|").expect("root bucket allocated");
    let weighted_trials = root_bucket
        .meta_bandit
        .candidates
        .iter()
        .find(|c| c.id == CandidateId::Weighted)
        .map(|c| value(c.trials))
        .unwrap_or(0.0);
    assert!(weighted_trials > 0.5,
            "root meta-bandit must have credited Weighted, got trials={weighted_trials}");

    // us-east bucket (depth 1, parent_path=[0]) must have credited
    // EpsilonGreedy (level 1).
    let us_bucket = s.buckets.get("d1|0").expect("us-east bucket allocated");
    let eg_trials = us_bucket
        .meta_bandit
        .candidates
        .iter()
        .find(|c| c.id == CandidateId::EpsilonGreedy)
        .map(|c| value(c.trials))
        .unwrap_or(0.0);
    assert!(eg_trials > 0.5,
            "us-east meta-bandit must have credited EpsilonGreedy, got trials={eg_trials}");
}

#[test]
fn apply_feedback_with_candidates_falls_back_on_length_mismatch() {
    let mut s = HierarchicalCapsuleState::new(spec_2x3());
    let path = vec![0, 1];
    // Only one candidate supplied for a two-level path → fall back.
    let candidates = vec![CandidateId::Weighted];
    let updates = apply_feedback(&mut s, &path, &path, Some(&candidates), 0.7);
    assert_eq!(updates.len(), 2, "fallback path should still update both levels");
    // The proxy credits the current leader, which for a fresh
    // meta-bandit (no trials yet) falls back to Thompson via
    // unwrap_or. So both buckets credit Thompson, not Weighted.
    let root_bucket = s.buckets.get("d0|").expect("root bucket allocated");
    let weighted_trials = root_bucket
        .meta_bandit
        .candidates
        .iter()
        .find(|c| c.id == CandidateId::Weighted)
        .map(|c| value(c.trials))
        .unwrap_or(0.0);
    assert!(weighted_trials < 1e-9,
            "fallback must NOT credit the supplied Weighted candidate; got trials={weighted_trials}");
}

#[test]
fn learns_preferred_path_over_200_rounds() {
    let mut s = HierarchicalCapsuleState::new(spec_2x3());
    let mut rng = seeded_rng(42);
    for _ in 0..200 {
        let dec = select_path(&mut s, || rng()).expect("decision");
        let reward = if dec.path == vec![0, 1] { 1.0 } else { 0.1 };
        apply_feedback(&mut s, &dec.path, &dec.path, None, reward);
    }
    // Root: us-east (0) should outweigh eu-west (1).
    let root = s.buckets.get("d0|").expect("root bucket exists");
    assert!(
        value(root.weights[0]) > value(root.weights[1]),
        "root weights[0]={:.4} weights[1]={:.4}",
        value(root.weights[0]), value(root.weights[1])
    );
    // us-east level: medium (1) should outweigh small (0) and large (2).
    let east = s.buckets.get("d1|0").expect("us-east bucket exists");
    assert!(
        value(east.weights[1]) > value(east.weights[0]),
        "us-east weights[1]={:.4} weights[0]={:.4}",
        value(east.weights[1]), value(east.weights[0])
    );
    assert!(
        value(east.weights[1]) > value(east.weights[2]),
        "us-east weights[1]={:.4} weights[2]={:.4}",
        value(east.weights[1]), value(east.weights[2])
    );
    // Both levels should have received meta-bandit updates.
    assert!(root.meta_bandit.total_rounds > 0);
    assert!(east.meta_bandit.total_rounds > 0);
}

#[test]
fn states_that_cannot_be_read() {
    let none = HierarchicalCapsuleState::from_json(&Json::Obj(vec![]), Ok(spec_2x3()), vec![]);
    assert_eq!(none.unwrap_err(), "missing 'spec' field");
    let j = Json::Obj(vec![("spec".to_string(), Json::Null)]);
    let wrong = HierarchicalCapsuleState::from_json(&j, Err("no tree".to_string()), vec![]);
    assert_eq!(wrong.unwrap_err(), "no tree");
    let bare = HierarchicalCapsuleState::from_json(&j, Ok(spec_2x3()), vec![]).unwrap();
    assert!(bare.buckets.entries.is_empty());
}

#[test]
fn different_decisions_have_different_keys() {
    let a = HierStateKey::from_parts(2, &vec![1, 11]);
    let b = HierStateKey::from_parts(2, &vec![11, 1]);
    let c = HierStateKey::from_parts(2, &vec![111]);
    assert_ne!(a.as_str(), b.as_str());
    assert_ne!(a.as_str(), c.as_str());
}

#[test]
fn levels_open_down_to_leaves() {
    let mut s = HierarchicalCapsuleState::new(spec_2x3());
    assert_eq!(s.open_level(&vec![]), Some(2));
    assert!(matches!(s.end_of(&vec![0]), Some(LevelEnd::Deeper)));
    assert_eq!(s.open_level(&vec![0]), Some(3));
    assert!(matches!(s.end_of(&vec![0, 1]), Some(LevelEnd::Leaf(n)) if n == "medium"));
    assert_eq!(s.buckets.get("d1|0").unwrap().weights.len(), 3);
    assert_eq!(s.open_level(&vec![0, 1]), None);
    assert!(s.end_of(&vec![7]).is_none());
}
