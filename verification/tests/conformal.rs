use lycan::conformal::ConformalCalibrator;
use lycan::number::Real;

fn num(x: f64) -> Real {
    Real { bits: x.to_bits() }
}

fn value(r: Real) -> f64 {
    f64::from_bits(r.bits)
}

fn record(c: &mut ConformalCalibrator, predicted: f64, observed: f64) {
    c.record(num((observed - predicted).abs()));
}

fn quantile(c: &ConformalCalibrator, alpha: f64) -> Option<f64> {
    let coverage = (1.0 - alpha).clamp(0.0, 1.0);
    let rank = ((c.len() as f64 + 1.0) * coverage).ceil();
    c.quantile(num(rank)).map(value)
}

fn interval_width(c: &ConformalCalibrator, alpha: f64) -> Option<f64> {
    quantile(c, alpha).map(|q| 2.0 * q)
}

#[test]
fn empty_calibrator_returns_none() {
    let c = ConformalCalibrator::default_config();
    assert!(quantile(&c, 0.05).is_none());
    assert!(interval_width(&c, 0.05).is_none());
}

#[test]
fn under_min_samples_returns_none() {
    let mut c = ConformalCalibrator::new(500, 30);
    for i in 0..29 {
        record(&mut c, 0.5, 0.5 + (i as f64) * 0.01);
    }
    assert!(quantile(&c, 0.05).is_none());
}

#[test]
fn quantile_at_threshold_returns_value() {
    let mut c = ConformalCalibrator::new(500, 30);
    for i in 0..50 {
        record(&mut c, 0.5, 0.5 + (i as f64) * 0.01);
    }
    let q = quantile(&c, 0.05).unwrap();
    // 95th percentile of 0..0.49 (step 0.01) via split-conformal:
    // ceil(51 * 0.95) = 49th index (0-indexed 48) ≈ 0.48
    assert!((q - 0.48).abs() < 0.01, "got q = {}", q);
}

#[test]
fn interval_width_is_double_quantile() {
    let mut c = ConformalCalibrator::new(500, 30);
    for i in 0..50 {
        record(&mut c, 0.5, 0.5 + (i as f64) * 0.01);
    }
    let q = quantile(&c, 0.05).unwrap();
    let w = interval_width(&c, 0.05).unwrap();
    assert!((w - 2.0 * q).abs() < 1e-9);
}

#[test]
fn higher_coverage_gives_wider_interval() {
    let mut c = ConformalCalibrator::new(500, 30);
    for i in 0..100 {
        record(&mut c, 0.5, 0.5 + (i as f64) * 0.005);
    }
    let q90 = quantile(&c, 0.1).unwrap();
    let q95 = quantile(&c, 0.05).unwrap();
    let q99 = quantile(&c, 0.01).unwrap();
    assert!(q90 <= q95, "90% should be tighter than or equal to 95%");
    assert!(q95 <= q99, "95% should be tighter than or equal to 99%");
    assert!(q90 < q99, "90% should be strictly tighter than 99%");
}

#[test]
fn perfect_predictions_give_zero_quantile() {
    let mut c = ConformalCalibrator::new(500, 30);
    for _ in 0..50 {
        record(&mut c, 0.5, 0.5);
    }
    let q = quantile(&c, 0.05).unwrap();
    assert_eq!(q, 0.0);
}

#[test]
fn noisy_predictions_give_wide_quantile() {
    let mut c = ConformalCalibrator::new(500, 30);
    for i in 0..100 {
        let observed = if i % 2 == 0 { 0.8 } else { 0.5 };
        record(&mut c, 0.5, observed);
    }
    let q = quantile(&c, 0.05).unwrap();
    // 95th percentile of residuals {0.0, 0.3, 0.0, 0.3, ...} is 0.3
    assert!((q - 0.3).abs() < 0.05, "got q = {}", q);
}

#[test]
fn window_cap_drops_oldest() {
    let mut c = ConformalCalibrator::new(10, 5);
    for i in 0..20 {
        record(&mut c, 0.0, i as f64);
    }
    assert_eq!(c.len(), 10);
    let snap = c.residuals_snapshot();
    assert!(snap.iter().all(|r| value(*r) >= 10.0), "got {:?}", snap);
}

#[test]
fn reset_clears_residuals() {
    let mut c = ConformalCalibrator::new(500, 30);
    for _ in 0..50 {
        record(&mut c, 0.5, 0.7);
    }
    c.reset();
    assert!(c.is_empty());
    assert!(quantile(&c, 0.05).is_none());
}

#[test]
fn restore_state_preserves_residuals() {
    let mut c = ConformalCalibrator::new(500, 30);
    for i in 0..40 {
        record(&mut c, 0.5, 0.5 + (i as f64) * 0.01);
    }
    let snap = c.residuals_snapshot();
    let c2 = ConformalCalibrator::restore_state(&snap, 500, 30);
    let q1 = quantile(&c, 0.05).unwrap();
    let q2 = quantile(&c2, 0.05).unwrap();
    assert!((q1 - q2).abs() < 1e-9);
}

#[test]
fn nan_observation_does_not_crash() {
    let mut c = ConformalCalibrator::new(500, 30);
    for _ in 0..30 {
        record(&mut c, 0.5, 0.5);
    }
    record(&mut c, 0.5, f64::NAN);
    assert_eq!(c.len(), 30);
}

#[test]
fn ranks_beyond_the_ends_give_the_ends() {
    let mut c = ConformalCalibrator::new(10, 1);
    for r in [0.3, 0.1, 0.2] {
        c.record(num(r));
    }
    assert_eq!(c.quantile(num(0.0)).map(value), Some(0.1));
    assert_eq!(c.quantile(num(2.0)).map(value), Some(0.2));
    assert_eq!(c.quantile(num(9.0)).map(value), Some(0.3));
}

#[test]
fn restoring_leaves_out_what_is_not_finite() {
    let c = ConformalCalibrator::restore_state(
        &vec![num(1.0), num(f64::INFINITY), num(2.0), num(3.0)], 3, 1,
    );
    let kept: Vec<f64> = c.residuals_snapshot().into_iter().map(value).collect();
    assert_eq!(kept, vec![1.0, 2.0]);
    assert_eq!(c.max_size(), 3);
    assert_eq!(c.min_samples(), 1);
}
