use lycan::linucb::{
    capped_bonus, concat_features, finish_score, validate_features, validate_shared_features,
    LinUcbSharedState, LinUcbState,
};
use lycan::message::Piece;
use lycan::number::Real;

fn num(x: f64) -> Real {
    Real { bits: x.to_bits() }
}

fn value(r: Real) -> f64 {
    f64::from_bits(r.bits)
}

fn nums(v: &[f64]) -> Vec<Real> {
    v.iter().map(|x| num(*x)).collect()
}

fn values(v: &[Real]) -> Vec<f64> {
    v.iter().map(|r| value(*r)).collect()
}

type Matrix = Vec<Vec<f64>>;

fn matrix(m: &[Vec<Real>]) -> Matrix {
    m.iter().map(|r| values(r)).collect()
}

fn real_matrix(m: &[Vec<f64>]) -> Vec<Vec<Real>> {
    m.iter().map(|r| nums(r)).collect()
}

// A matrix times a vector.
fn matvec(a: &[Vec<f64>], x: &[f64]) -> Vec<f64> {
    a.iter().map(|row| dot(row, x)).collect()
}

// The sum of the products.
fn dot(x: &[f64], y: &[f64]) -> f64 {
    x.iter().zip(y).map(|(a, b)| a * b).sum()
}

// Inversion by elimination with partial pivoting.
fn gauss_jordan_invert(a: &[Vec<f64>]) -> Option<Matrix> {
    let n = a.len();
    if n == 0 || a[0].len() != n {
        return None;
    }
    let mut aug = vec![vec![0.0; 2 * n]; n];
    for i in 0..n {
        aug[i][..n].copy_from_slice(&a[i][..n]);
        aug[i][n + i] = 1.0;
    }
    for k in 0..n {
        let mut max_row = k;
        let mut max_val = aug[k][k].abs();
        for r in (k + 1)..n {
            if aug[r][k].abs() > max_val {
                max_val = aug[r][k].abs();
                max_row = r;
            }
        }
        if max_val < 1e-12 {
            return None;
        }
        aug.swap(k, max_row);
        let pivot = aug[k][k];
        for x in aug[k].iter_mut() {
            *x /= pivot;
        }
        let row = aug[k].clone();
        for (r, other) in aug.iter_mut().enumerate() {
            if r != k {
                let factor = other[k];
                for (x, y) in other.iter_mut().zip(&row) {
                    *x -= factor * y;
                }
            }
        }
    }
    Some(aug.into_iter().map(|row| row[n..].to_vec()).collect())
}

// The score of features with its bonus for exploration.
fn ucb(a_inv: &[Vec<f64>], b: &[f64], x: &[f64], alpha: f64) -> (f64, bool) {
    let mean = dot(x, &matvec(a_inv, b));
    let variance = dot(x, &matvec(a_inv, x)).max(0.0);
    let bonus = num(alpha * variance.sqrt());
    let cap = num(alpha * 10.0);
    let sum = mean + value(capped_bonus(bonus, cap));
    let (score, held) = finish_score(num(mean), bonus, cap, num(sum));
    (value(score), held)
}

// The matrix, its inverse and the response after an observation.
fn updated(a: &mut Matrix, a_inv: &mut Matrix, b: &mut [f64], x: &[f64], reward: f64) {
    let ax = matvec(a_inv, x);
    let denom = (1.0 + dot(x, &ax)).max(1e-12);
    for i in 0..x.len() {
        for j in 0..x.len() {
            a[i][j] += x[i] * x[j];
            a_inv[i][j] -= (ax[i] * ax[j]) / denom;
        }
        b[i] += reward * x[i];
    }
}

fn new_state(d: usize, lambda: f64) -> LinUcbState {
    LinUcbState::new(d, num(lambda), num(1.0 / lambda))
}

fn theta(s: &LinUcbState) -> Vec<f64> {
    matvec(&matrix(&s.a_inv), &values(&s.b))
}

fn ucb_score(s: &LinUcbState, x: &[f64], alpha: f64) -> (f64, bool) {
    ucb(&matrix(&s.a_inv), &values(&s.b), x, alpha)
}

fn update(s: &mut LinUcbState, x: &[f64], reward: f64) {
    let (mut a, mut a_inv, mut b) = (matrix(&s.a), matrix(&s.a_inv), values(&s.b));
    updated(&mut a, &mut a_inv, &mut b, x, reward);
    assert!(s.since_last_rebuild < u64::MAX, "update count overflow");
    s.update(real_matrix(&a), real_matrix(&a_inv), nums(&b));
}

fn rebuild_inverse(s: &mut LinUcbState) {
    s.rebuild_inverse(gauss_jordan_invert(&matrix(&s.a)).map(|m| real_matrix(&m)));
}

fn new_shared_state(d_total: usize, lambda: f64) -> LinUcbSharedState {
    LinUcbSharedState::new(d_total, num(lambda), num(1.0 / lambda))
}

fn both(x_context: &[f64], x_option: &[f64]) -> Vec<f64> {
    values(&concat_features(&nums(x_context), &nums(x_option)))
}

fn shared_ucb_score(s: &LinUcbSharedState, x_context: &[f64], x_option: &[f64], alpha: f64) -> (f64, bool) {
    ucb(&matrix(&s.a_inv), &values(&s.b), &both(x_context, x_option), alpha)
}

fn shared_update(s: &mut LinUcbSharedState, x_context: &[f64], x_option: &[f64], reward: f64) {
    let (mut a, mut a_inv, mut b) = (matrix(&s.a), matrix(&s.a_inv), values(&s.b));
    updated(&mut a, &mut a_inv, &mut b, &both(x_context, x_option), reward);
    assert!(s.since_last_rebuild < u64::MAX, "update count overflow");
    s.shared_update(real_matrix(&a), real_matrix(&a_inv), nums(&b));
}

fn shared_rebuild_inverse(s: &mut LinUcbSharedState) {
    s.shared_rebuild_inverse(gauss_jordan_invert(&matrix(&s.a)).map(|m| real_matrix(&m)));
}

#[test]
fn init_state_has_correct_dimensions() {
    let s = new_state(5, 1.0);
    assert_eq!(s.d, 5);
    assert_eq!(s.b.len(), 5);
    assert_eq!(s.a_inv.len(), 5);
    assert_eq!(s.a_inv[0].len(), 5);
    // a_inv should start as (1/lambda) · I
    for i in 0..5 {
        for j in 0..5 {
            let expected = if i == j { 1.0 } else { 0.0 };
            assert!((value(s.a_inv[i][j]) - expected).abs() < 1e-9);
        }
    }
}

#[test]
fn theta_starts_at_zero() {
    let s = new_state(3, 1.0);
    let theta = theta(&s);
    for v in &theta {
        assert!(v.abs() < 1e-9);
    }
}

#[test]
fn ucb_score_uses_exploration_bonus_initially() {
    let s = new_state(3, 1.0);
    let x = vec![1.0, 0.0, 0.0];
    let (score, _clamped) = ucb_score(&s, &x, 1.0);
    // mean is 0 (theta = 0), bonus is alpha · sqrt(x · A_inv · x) = 1 · sqrt(1) = 1
    assert!((score - 1.0).abs() < 1e-9);
}

#[test]
fn sherman_morrison_matches_full_inverse() {
    // After a few updates, check Sherman-Morrison's A_inv against a fresh
    // Gauss-Jordan inversion of the explicit A.
    let mut s = new_state(3, 1.0);
    let xs = vec![
        vec![1.0, 0.5, 0.2],
        vec![0.3, 1.0, 0.1],
        vec![0.2, 0.1, 1.0],
        vec![0.7, 0.4, 0.3],
    ];
    let rs = vec![0.5, 0.8, 0.3, 0.6];
    for (x, r) in xs.iter().zip(rs.iter()) {
        update(&mut s, x, *r);
    }
    // Compute A_inv from scratch
    let fresh_inv = gauss_jordan_invert(&matrix(&s.a)).unwrap();
    // Compare element-by-element
    for i in 0..3 {
        for j in 0..3 {
            let diff = (value(s.a_inv[i][j]) - fresh_inv[i][j]).abs();
            assert!(diff < 1e-9, "[{},{}] sherman={} fresh={}", i, j, value(s.a_inv[i][j]), fresh_inv[i][j]);
        }
    }
}

#[test]
fn theta_recovers_linear_function() {
    // y = 2*x_0 + 3*x_1 - 1*x_2 (no noise).
    // After enough observations, theta should be close to [2, 3, -1].
    let mut s = new_state(3, 0.001); // low regularization to converge fast
    let xs = vec![
        vec![1.0, 0.0, 0.0],
        vec![0.0, 1.0, 0.0],
        vec![0.0, 0.0, 1.0],
        vec![1.0, 1.0, 0.0],
        vec![1.0, 0.0, 1.0],
        vec![0.0, 1.0, 1.0],
        vec![1.0, 1.0, 1.0],
        vec![0.5, 0.5, 0.5],
    ];
    let true_theta = vec![2.0, 3.0, -1.0];
    for x in &xs {
        let r = dot(x, &true_theta);
        update(&mut s, x, r);
    }
    let estimated = theta(&s);
    for i in 0..3 {
        assert!(
            (estimated[i] - true_theta[i]).abs() < 0.1,
            "theta[{}] = {}, expected {}",
            i, estimated[i], true_theta[i]
        );
    }
}

#[test]
fn rebuild_after_many_updates_corrects_drift() {
    // Force drift by doing many updates, then rebuild, and verify A_inv
    // matches a fresh inversion.
    let mut s = new_state(4, 1.0);
    let mut rng_state: u64 = 12345;
    let next_rand = |st: &mut u64| -> f64 {
        *st = st.wrapping_mul(6364136223846793005).wrapping_add(1442695040888963407);
        (*st >> 33) as u32 as f64 / (u32::MAX as f64 + 1.0)
    };
    for _ in 0..1500 {
        let x = vec![
            next_rand(&mut rng_state),
            next_rand(&mut rng_state),
            next_rand(&mut rng_state),
            next_rand(&mut rng_state),
        ];
        let r = next_rand(&mut rng_state);
        update(&mut s, &x, r);
    }
    // Save the Sherman-Morrison version
    let before_rebuild = matrix(&s.a_inv);
    rebuild_inverse(&mut s);
    assert_eq!(s.since_last_rebuild, 0);

    // Compare. They should be very close — drift after 1500 updates at d=4
    // is small but non-zero. Rebuild gives the precise value.
    let fresh = gauss_jordan_invert(&matrix(&s.a)).unwrap();
    for i in 0..4 {
        for j in 0..4 {
            let diff = (value(s.a_inv[i][j]) - fresh[i][j]).abs();
            assert!(diff < 1e-12);
        }
    }
    // The before-rebuild version may have minor drift; we don't assert
    // that the drift is large (it usually isn't at d=4), but the rebuild
    // is unambiguously correct.
    let _ = before_rebuild;
}

#[test]
fn rebuild_due_flags_correctly() {
    let mut s = new_state(3, 1.0);
    let x = vec![0.5, 0.5, 0.5];
    assert!(!s.rebuild_due(1000));
    for _ in 0..1000 {
        update(&mut s, &x, 0.5);
    }
    assert!(s.rebuild_due(1000));
    rebuild_inverse(&mut s);
    assert!(!s.rebuild_due(1000));
}

#[test]
fn ucb_score_clamps_blowup() {
    // Construct a degenerate state where A_inv has a huge diagonal element.
    let s = new_state(2, 0.001);
    // Don't update with any observation — A_inv stays at (1/lambda)·I = 1000·I
    let x = vec![1.0, 0.0];
    let (score, clamped) = ucb_score(&s, &x, 1.0);
    // raw bonus = 1.0 · sqrt(1000) ≈ 31.6
    // clamped at 10.0 · alpha = 10.0
    assert!(clamped);
    assert!((score - 10.0).abs() < 1e-9);
}

#[test]
fn validate_features_rejects_non_finite() {
    let good = vec![1.0, 2.0, 3.0];
    assert!(validate_features(&nums(&good), 3).is_ok());

    let nan = vec![1.0, f64::NAN, 3.0];
    assert!(validate_features(&nums(&nan), 3).is_err());

    let inf = vec![1.0, f64::INFINITY, 3.0];
    assert!(validate_features(&nums(&inf), 3).is_err());

    let wrong_len = vec![1.0, 2.0];
    assert!(validate_features(&nums(&wrong_len), 3).is_err());
}

#[test]
fn shared_init_state_has_correct_dimensions() {
    let s = new_shared_state(5, 1.0);
    assert_eq!(s.d_total, 5);
    assert_eq!(s.b.len(), 5);
    assert_eq!(s.a.len(), 5);
    assert_eq!(s.a_inv.len(), 5);
    assert_eq!(s.a[0].len(), 5);
    assert_eq!(s.a_inv[0].len(), 5);
    assert_eq!(s.since_last_rebuild, 0);
    // a_inv = (1/λ)·I, a = λ·I, b = 0.
    for i in 0..5 {
        assert!(value(s.b[i]).abs() < 1e-12);
        for j in 0..5 {
            let want_inv = if i == j { 1.0 } else { 0.0 };
            let want_a = if i == j { 1.0 } else { 0.0 };
            assert!((value(s.a_inv[i][j]) - want_inv).abs() < 1e-9);
            assert!((value(s.a[i][j]) - want_a).abs() < 1e-9);
        }
    }
}

#[test]
fn concat_features_concatenates_in_order() {
    let ctx = vec![1.0, 2.0];
    let opt = vec![3.0, 4.0];
    let joined = values(&concat_features(&nums(&ctx), &nums(&opt)));
    assert_eq!(joined, vec![1.0, 2.0, 3.0, 4.0]);

    // Empty option slice still produces a valid vector.
    let empty: Vec<f64> = vec![];
    assert_eq!(values(&concat_features(&nums(&ctx), &nums(&empty))), vec![1.0, 2.0]);
    // Empty context slice too.
    assert_eq!(values(&concat_features(&nums(&empty), &nums(&opt))), vec![3.0, 4.0]);
}

#[test]
fn shared_options_differ_and_update_improves_own_score() {
    // d_context = 2, d_option = 2 → d_total = 4.
    // Two options with different option-features but the same context
    // should produce different UCB scores. Updating one with positive
    // reward should raise its posterior-mean prediction.
    let mut s = new_shared_state(4, 1.0);
    let ctx = vec![1.0, 0.0];
    let opt_a = vec![1.0, 0.0];
    let opt_b = vec![0.0, 1.0];

    // Initial scores at α = 1.0. With θ = 0 and identical ‖x‖, A and B
    // have identical mean (0) and identical bonus — initial scores match.
    let (a_init, _) = shared_ucb_score(&s, &ctx, &opt_a, 1.0);
    let (b_init, _) = shared_ucb_score(&s, &ctx, &opt_b, 1.0);
    assert!((a_init - b_init).abs() < 1e-9);

    // Drive option A with positive reward.
    for _ in 0..5 {
        shared_update(&mut s, &ctx, &opt_a, 1.0);
    }

    // The exploration bonus on A also shrinks (variance reduction in
    // the option-half AND the shared context-half), which can make the
    // total UCB score on A lower than on B — that's correct behaviour
    // for a high-α regime. The discriminating test is the POSTERIOR MEAN
    // (α = 0): A's predicted reward must exceed B's, since A was the
    // one rewarded.
    let (a_mean, _) = shared_ucb_score(&s, &ctx, &opt_a, 0.0);
    let (b_mean, _) = shared_ucb_score(&s, &ctx, &opt_b, 0.0);
    assert!(
        a_mean > b_mean,
        "A's mean {} should exceed B's mean {} after A was rewarded",
        a_mean, b_mean
    );
    // And A's mean should be clearly positive (close to 1, the reward).
    assert!(a_mean > 0.5, "A's mean {} should be > 0.5", a_mean);

    // Bonuses should now differ too: A's variance shrank more (it got
    // five updates), so A's UCB score component (bonus only) is lower
    // than B's. Verify by computing α=1 score minus α=0 score, which
    // isolates the bonus magnitude.
    let (a_ucb, _) = shared_ucb_score(&s, &ctx, &opt_a, 1.0);
    let (b_ucb, _) = shared_ucb_score(&s, &ctx, &opt_b, 1.0);
    let a_bonus = a_ucb - a_mean;
    let b_bonus = b_ucb - b_mean;
    assert!(
        a_bonus < b_bonus,
        "A's bonus {} should be smaller than B's bonus {} after A updates",
        a_bonus, b_bonus
    );
}

#[test]
fn shared_state_generalises_to_unseen_option() {
    // The key property: if option C's embedding is a linear combination
    // of A's and B's embeddings, then C's predicted reward should be
    // the same linear combination of A's and B's predicted rewards.
    //
    // Setup: d_context = 0 (context is empty; pure action-embedding
    // generalisation), d_option = 2 → d_total = 2.
    // Train on options A = [1, 0] and B = [0, 1] with linear true
    // rewards r_A = 1.0, r_B = 0.5.
    // Then query unseen C = α·A + β·B = [0.4, 0.6] and verify
    // predicted r_C ≈ α·r_A + β·r_B = 0.4·1.0 + 0.6·0.5 = 0.7.
    let mut s = new_shared_state(2, 0.01); // low λ → fast convergence
    let ctx: Vec<f64> = vec![];
    let opt_a = vec![1.0, 0.0];
    let opt_b = vec![0.0, 1.0];
    for _ in 0..50 {
        shared_update(&mut s, &ctx, &opt_a, 1.0);
        shared_update(&mut s, &ctx, &opt_b, 0.5);
    }
    // Read the posterior mean (no exploration bonus, α=0).
    let (pred_a, _) = shared_ucb_score(&s, &ctx, &opt_a, 0.0);
    let (pred_b, _) = shared_ucb_score(&s, &ctx, &opt_b, 0.0);
    let opt_c = vec![0.4, 0.6];
    let (pred_c, _) = shared_ucb_score(&s, &ctx, &opt_c, 0.0);
    let expected_c = 0.4 * pred_a + 0.6 * pred_b;
    assert!(
        (pred_c - expected_c).abs() < 1e-9,
        "linear generalisation failed: pred_c={} expected={} (pred_a={}, pred_b={})",
        pred_c, expected_c, pred_a, pred_b
    );
    // Sanity: pred_a and pred_b should be close to their training rewards.
    assert!((pred_a - 1.0).abs() < 0.05, "pred_a={}", pred_a);
    assert!((pred_b - 0.5).abs() < 0.05, "pred_b={}", pred_b);
    // And pred_c should be near the true linear combination 0.7.
    assert!((pred_c - 0.7).abs() < 0.05, "pred_c={}", pred_c);
}

#[test]
fn validate_shared_features_catches_bad_inputs() {
    let ctx_good = vec![1.0, 2.0];
    let opt_good = vec![3.0, 4.0];
    assert!(validate_shared_features(&nums(&ctx_good), &nums(&opt_good), 2, 2).is_ok());

    // Wrong-length context.
    assert!(validate_shared_features(&nums(&vec![1.0]), &nums(&opt_good), 2, 2).is_err());
    // Wrong-length option.
    assert!(validate_shared_features(&nums(&ctx_good), &nums(&vec![3.0, 4.0, 5.0]), 2, 2).is_err());
    // NaN in context.
    assert!(validate_shared_features(&nums(&vec![1.0, f64::NAN]), &nums(&opt_good), 2, 2).is_err());
    // NaN in option.
    assert!(validate_shared_features(&nums(&ctx_good), &nums(&vec![f64::NAN, 4.0]), 2, 2).is_err());
    // +Inf in context.
    assert!(validate_shared_features(&nums(&vec![1.0, f64::INFINITY]), &nums(&opt_good), 2, 2).is_err());
    // -Inf in option.
    assert!(validate_shared_features(&nums(&ctx_good), &nums(&vec![3.0, f64::NEG_INFINITY]), 2, 2).is_err());
}

#[test]
fn shared_rebuild_due_and_sherman_morrison_consistent() {
    // Sanity that the shared-state rebuild path mirrors the per-option one.
    let mut s = new_shared_state(3, 1.0);
    let ctx = vec![0.5];
    let opt = vec![0.5, 0.5];
    assert!(!s.shared_rebuild_due(100));
    for _ in 0..100 {
        shared_update(&mut s, &ctx, &opt, 0.3);
    }
    assert!(s.shared_rebuild_due(100));
    // Sherman-Morrison's a_inv should match a Gauss-Jordan inversion of a.
    let fresh = gauss_jordan_invert(&matrix(&s.a)).unwrap();
    for i in 0..3 {
        for j in 0..3 {
            let diff = (value(s.a_inv[i][j]) - fresh[i][j]).abs();
            assert!(diff < 1e-9, "[{},{}] drifted: {}", i, j, diff);
        }
    }
    shared_rebuild_inverse(&mut s);
    assert_eq!(s.since_last_rebuild, 0);
    assert!(!s.shared_rebuild_due(100));
}

fn text(pieces: &[Piece]) -> String {
    let mut s = String::new();
    for p in pieces {
        match p {
            Piece::Text(t) => s.push_str(t),
            Piece::Number(r) => s.push_str(&value(*r).to_string()),
            _ => panic!("unexpected piece"),
        }
    }
    s
}

#[test]
fn faults_of_features_are_told() {
    let wrong = |x: &[f64]| text(&validate_features(&nums(x), 2).unwrap_err());
    assert_eq!(wrong(&[1.0]), "feature vector length 1 does not match expected 2");
    assert_eq!(wrong(&[1.0, f64::NAN]), "feature[1] is non-finite: NaN");
    let shared = |x: &[f64], y: &[f64]| {
        text(&validate_shared_features(&nums(x), &nums(y), 2, 1).unwrap_err())
    };
    assert_eq!(
        shared(&[1.0], &[1.0]),
        "context feature vector length 1 does not match expected 2"
    );
    assert_eq!(
        shared(&[1.0, 2.0], &[]),
        "option feature vector length 0 does not match expected 1"
    );
    assert_eq!(shared(&[f64::INFINITY, 2.0], &[1.0]), "context feature[0] is non-finite: inf");
    assert_eq!(shared(&[1.0, 2.0], &[f64::NAN]), "option feature[0] is non-finite: NaN");
}

#[test]
fn scores_fall_back_to_the_mean() {
    let f = |mean: f64, sum: f64| {
        let (s, held) = finish_score(num(mean), num(1.0), num(2.0), num(sum));
        (value(s), held)
    };
    assert_eq!(f(0.25, 1.25), (1.25, false));
    assert_eq!(f(0.25, f64::INFINITY), (0.25, true));
    assert_eq!(f(f64::NAN, f64::NAN), (0.0, true));
}
