use lycan::meta_bandit::{CandidateId, CandidateRecord, MetaBandit, PickedAlgorithm, Quotient};
use lycan::number::Real;

fn num(x: f64) -> Real {
    Real { bits: x.to_bits() }
}

fn value(r: Real) -> f64 {
    f64::from_bits(r.bits)
}

fn mean_reward(c: &CandidateRecord) -> f64 {
    match c.mean_reward() {
        Quotient::Known(r) => value(r),
        Quotient::Of(a, b) => value(a) / value(b),
    }
}

fn means(m: &MetaBandit) -> Vec<Real> {
    m.candidates.iter().map(|c| num(mean_reward(c))).collect()
}

fn exploration_probability(m: &MetaBandit) -> f64 {
    let n = m.candidates.len() as f64;
    let raw = (n * value(m.exploration_decay) / m.total_rounds as f64).sqrt();
    value(m.exploration_probability(num(raw)))
}

fn select(m: &MetaBandit, roll: f64, pick: f64) -> (CandidateId, bool) {
    let p = exploration_probability(m);
    m.select(num(roll), num(p), num(pick * m.candidates.len() as f64), &means(m))
}

fn record(m: &mut MetaBandit, chosen: CandidateId, reward: f64) {
    let f = if m.forgets() { value(m.forgetting_factor) } else { 1.0 };
    let faded: Vec<(Real, Real)> = m
        .candidates
        .iter()
        .map(|c| (num(value(c.trials) * f), num(value(c.cumulative_reward) * f)))
        .collect();
    let credit = match m.position(chosen) {
        Some(at) => (num(value(faded[at].0) + 1.0), num(value(faded[at].1) + reward)),
        None => (num(0.0), num(0.0)),
    };
    m.record(chosen, &faded, credit);
}

fn current_leader(m: &MetaBandit) -> Option<CandidateId> {
    m.current_leader(&means(m))
}

#[test]
fn new_meta_bandit_has_five_candidates() {
    let m = MetaBandit::new();
    assert_eq!(m.candidates.len(), 5);
    assert_eq!(m.total_rounds, 0);
}

#[test]
fn discrete_candidates_excludes_linucb() {
    assert!(!CandidateId::discrete_only().contains(&CandidateId::LinUcb));
    assert_eq!(CandidateId::discrete_only().len(), 5);
}

#[test]
fn all_candidates_includes_linucb_and_lints() {
    assert!(CandidateId::all().contains(&CandidateId::LinUcb));
    assert!(CandidateId::all().contains(&CandidateId::LinTs));
    assert_eq!(CandidateId::all().len(), 7);
}

#[test]
fn new_with_candidates_respects_list() {
    let m = MetaBandit::new_with_candidates(&CandidateId::discrete_only().to_vec());
    assert_eq!(m.candidates.len(), 5);
    assert!(!m.candidates.iter().any(|c| c.id == CandidateId::LinUcb));
    assert!(!m.candidates.iter().any(|c| c.id == CandidateId::LinTs));
    let m_all = MetaBandit::new_with_candidates(&CandidateId::all().to_vec());
    assert_eq!(m_all.candidates.len(), 7);
    assert!(m_all.candidates.iter().any(|c| c.id == CandidateId::LinUcb));
    assert!(m_all.candidates.iter().any(|c| c.id == CandidateId::LinTs));
}

#[test]
fn first_selection_is_exploratory() {
    let m = MetaBandit::new();
    // With total_rounds=0, exploration probability is 1.0
    assert_eq!(exploration_probability(&m), 1.0);
}

#[test]
fn exploration_decays_with_rounds() {
    let mut m = MetaBandit::new();
    for _ in 0..1000 {
        record(&mut m, CandidateId::Thompson, 0.5);
    }
    let p = exploration_probability(&m);
    assert!(p < 0.5, "exploration should decay, got {}", p);
    assert!(p >= value(m.min_exploration), "should respect floor");
}

#[test]
fn greedy_selection_picks_leader() {
    let mut m = MetaBandit::new();
    m.forgetting_factor = num(1.0);
    // Make Thompson the clear winner
    for _ in 0..100 {
        record(&mut m, CandidateId::Thompson, 0.9);
    }
    for _ in 0..100 {
        record(&mut m, CandidateId::Greedy, 0.1);
    }
    // rng_value = 0.99 forces exploitation; rng_pick irrelevant
    let (chosen, exploratory) = select(&m, 0.99, 0.5);
    assert!(!exploratory);
    assert_eq!(chosen, CandidateId::Thompson);
}

#[test]
fn exploratory_selection_uses_rng_pick() {
    let m = MetaBandit::new();
    // rng_value = 0.01 forces exploration; rng_pick picks idx 0
    let (chosen, exploratory) = select(&m, 0.01, 0.0);
    assert!(exploratory);
    assert_eq!(chosen, CandidateId::Thompson);
    // rng_pick near 1.0 picks last candidate
    let (chosen, exploratory) = select(&m, 0.01, 0.99);
    assert!(exploratory);
    assert_eq!(chosen, CandidateId::Greedy);
}

#[test]
fn record_updates_correct_candidate() {
    let mut m = MetaBandit::new();
    m.forgetting_factor = num(1.0);
    record(&mut m, CandidateId::Ucb, 0.7);
    record(&mut m, CandidateId::Ucb, 0.3);
    let ucb = m.candidates.iter().find(|c| c.id == CandidateId::Ucb).unwrap();
    assert!((value(ucb.trials) - 2.0).abs() < 1e-9);
    assert!((value(ucb.cumulative_reward) - 1.0).abs() < 1e-9);
    assert!((mean_reward(ucb) - 0.5).abs() < 1e-9);
    assert_eq!(m.total_rounds, 2);
}

#[test]
fn reset_clears_everything() {
    let mut m = MetaBandit::new();
    m.forgetting_factor = num(1.0);
    for _ in 0..50 {
        record(&mut m, CandidateId::Thompson, 1.0);
    }
    m.reset();
    assert_eq!(m.total_rounds, 0);
    for c in &m.candidates {
        assert!(value(c.trials).abs() < 1e-9);
        assert_eq!(value(c.cumulative_reward), 0.0);
    }
}

#[test]
fn current_leader_returns_highest_mean() {
    let mut m = MetaBandit::new();
    m.forgetting_factor = num(1.0);
    record(&mut m, CandidateId::Thompson, 0.9);
    record(&mut m, CandidateId::Ucb, 0.5);
    assert_eq!(current_leader(&m), Some(CandidateId::Thompson));
}

#[test]
fn current_leader_none_when_no_trials() {
    let m = MetaBandit::new();
    assert_eq!(current_leader(&m), None);
}

#[test]
fn forgetting_decays_old_observations() {
    let mut m = MetaBandit::new();
    m.forgetting_factor = num(0.9);

    for _ in 0..50 {
        record(&mut m, CandidateId::Thompson, 1.0);
    }
    let thompson_before = m
        .candidates
        .iter()
        .find(|c| c.id == CandidateId::Thompson)
        .unwrap()
        .clone();

    for _ in 0..50 {
        record(&mut m, CandidateId::Greedy, 1.0);
    }
    let thompson_after = m
        .candidates
        .iter()
        .find(|c| c.id == CandidateId::Thompson)
        .unwrap();
    let greedy_after = m
        .candidates
        .iter()
        .find(|c| c.id == CandidateId::Greedy)
        .unwrap();

    assert!(
        value(thompson_after.cumulative_reward) < value(thompson_before.cumulative_reward) * 0.5,
        "Thompson should decay: was {}, now {}",
        value(thompson_before.cumulative_reward),
        value(thompson_after.cumulative_reward)
    );
    assert!(value(greedy_after.cumulative_reward) > value(thompson_after.cumulative_reward));
}

#[test]
fn forgetting_factor_one_means_no_decay() {
    let mut m = MetaBandit::new();
    m.forgetting_factor = num(1.0);

    for _ in 0..100 {
        record(&mut m, CandidateId::Thompson, 1.0);
    }
    let thompson = m.candidates.iter().find(|c| c.id == CandidateId::Thompson).unwrap();
    assert!((value(thompson.trials) - 100.0).abs() < 1e-9);
    assert!((value(thompson.cumulative_reward) - 100.0).abs() < 1e-9);
}

#[test]
fn meta_bandit_with_decay_adapts_to_regime_shift() {
    let mut m = MetaBandit::new();
    m.forgetting_factor = num(0.99);
    let mut rng_state: u64 = 42;
    let next_rand = |s: &mut u64| -> f64 {
        *s = s.wrapping_mul(6364136223846793005).wrapping_add(1442695040888963407);
        (*s as u32) as f64 / (u32::MAX as f64 + 1.0)
    };

    for _ in 0..300 {
        let (r1, r2) = (next_rand(&mut rng_state), next_rand(&mut rng_state));
        let (chosen, _) = select(&m, r1, r2);
        let reward = if chosen == CandidateId::Thompson { 0.9 } else { 0.2 };
        record(&mut m, chosen, reward);
    }
    let leader_phase1 = current_leader(&m);
    assert_eq!(leader_phase1, Some(CandidateId::Thompson));

    for _ in 0..500 {
        let (r1, r2) = (next_rand(&mut rng_state), next_rand(&mut rng_state));
        let (chosen, _) = select(&m, r1, r2);
        let reward = if chosen == CandidateId::Greedy { 0.9 } else { 0.2 };
        record(&mut m, chosen, reward);
    }
    let leader_phase2 = current_leader(&m);
    assert_eq!(
        leader_phase2,
        Some(CandidateId::Greedy),
        "After regime shift with forgetting, Greedy should lead"
    );
}

#[test]
fn forgetting_serializes_correctly() {
    let mut m = MetaBandit::new();
    m.forgetting_factor = num(0.95);
    assert_eq!(value(m.forgetting_factor), 0.95);
}

#[test]
fn converges_to_best_under_repeated_selection() {
    // Simulated environment where Thompson gives reward 0.8 and others give 0.2.
    // After many rounds, the meta-bandit should be choosing Thompson most of the time.
    let mut m = MetaBandit::new();
    m.forgetting_factor = num(1.0);
    let mut rng_state: u64 = 12345;

    let next_rand = |state: &mut u64| -> f64 {
        *state = state.wrapping_mul(6364136223846793005).wrapping_add(1442695040888963407);
        (*state as u32) as f64 / (u32::MAX as f64 + 1.0)
    };

    let mut thompson_count = 0;
    for _ in 0..2000 {
        let r1 = next_rand(&mut rng_state);
        let r2 = next_rand(&mut rng_state);
        let (chosen, _) = select(&m, r1, r2);
        let reward = if chosen == CandidateId::Thompson { 0.8 } else { 0.2 };
        record(&mut m, chosen, reward);
        if chosen == CandidateId::Thompson {
            thompson_count += 1;
        }
    }

    // After 2000 rounds, Thompson should dominate selections.
    // Floor of 0.05 exploration × 5 candidates = ~1% pure random Thompson selections,
    // plus the rest of exploitation. Conservative threshold: >50%.
    assert!(
        thompson_count > 1000,
        "Thompson should dominate, got {} / 2000",
        thompson_count
    );
}

#[test]
fn words_lead_back_to_candidates() {
    for c in CandidateId::all() {
        assert_eq!(CandidateId::from_str(c.as_str()), Some(c));
    }
    assert_eq!(CandidateId::from_str("thompson"), None);
    assert_eq!(CandidateId::LinTs.as_str(), "LinTs");
}

#[test]
fn candidates_stand_for_algorithms() {
    assert_eq!(CandidateId::Thompson.to_algorithm(), PickedAlgorithm::Thompson { alpha: num(1.0), beta: num(1.0) });
    assert_eq!(CandidateId::LinUcb.to_algorithm(), PickedAlgorithm::UCB { c: num(1.0) });
}

#[test]
fn ties_go_to_the_less_tried() {
    let mut m = MetaBandit::new_with_candidates(&vec![CandidateId::Ucb, CandidateId::Greedy]);
    m.forgetting_factor = num(1.0);
    record(&mut m, CandidateId::Ucb, 0.5);
    record(&mut m, CandidateId::Greedy, 0.5);
    record(&mut m, CandidateId::Greedy, 0.5);
    let chosen = m.select(num(0.9), num(0.1), num(0.0), &means(&m));
    assert_eq!(chosen, (CandidateId::Ucb, false));
}

#[test]
fn unknown_candidates_only_count_the_round() {
    let mut m = MetaBandit::new();
    record(&mut m, CandidateId::LinTs, 1.0);
    assert_eq!(m.total_rounds, 1);
    assert!(m.candidates.iter().all(|c| value(c.trials) == 0.0));
}

#[test]
fn without_candidates_thompson_is_chosen() {
    let m = MetaBandit::new_with_candidates(&vec![]);
    let chosen = m.select(num(0.5), num(0.1), num(0.0), &vec![]);
    assert_eq!(chosen, (CandidateId::Thompson, false));
}
