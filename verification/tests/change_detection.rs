use lycan::change_detection::{AdwinDetector, ChangeDetected, SplitTest};
use lycan::number::Real;

fn num(x: f64) -> Real {
    Real { bits: x.to_bits() }
}

fn value(r: Real) -> f64 {
    f64::from_bits(r.bits)
}

fn mean(v: &[Real]) -> f64 {
    v.iter().map(|r| value(*r)).sum::<f64>() / v.len() as f64
}

fn split_test(window: &[Real], delta: f64, split: usize) -> SplitTest {
    let (n_old, n_new) = (split as f64, (window.len() - split) as f64);
    let (old_mean, new_mean) = (mean(&window[..split]), mean(&window[split..]));
    let m = 1.0 / (1.0 / n_old + 1.0 / n_new);
    let epsilon = ((1.0 / (2.0 * m)) * (4.0 * window.len() as f64 / delta).ln()).sqrt();
    SplitTest {
        old_mean: num(old_mean),
        new_mean: num(new_mean),
        gap: num(old_mean - new_mean),
        bound: num(epsilon),
    }
}

fn observe(d: &mut AdwinDetector, x: f64) -> Option<ChangeDetected> {
    let splits = d.add(num(x));
    let window = d.window_snapshot();
    let delta = value(d.delta());
    let least = d.min_subwindow();
    let shown: Vec<SplitTest> = (0..splits).map(|i| split_test(&window, delta, least + i)).collect();
    d.check_for_change(&shown)
}

#[test]
fn no_change_on_stationary_stream() {
    let mut d = AdwinDetector::new(num(0.002), 1000);
    // 200 samples from a stationary Bernoulli(0.3)
    let mut detected = None;
    for i in 0..200 {
        let v = if (i * 7919) % 10 < 3 { 1.0 } else { 0.0 };
        if let Some(c) = observe(&mut d, v) {
            detected = Some(c);
            break;
        }
    }
    assert!(detected.is_none(), "no change should be detected on stationary stream");
}

#[test]
fn detects_clear_mean_shift() {
    let mut d = AdwinDetector::new(num(0.002), 1000);
    // 100 samples from Bernoulli(0.1), then 100 from Bernoulli(0.9)
    for i in 0..100 {
        observe(&mut d, if (i * 7919) % 10 < 1 { 1.0 } else { 0.0 });
    }
    let mut detected = None;
    for i in 0..100 {
        let v = if (i * 7919) % 10 < 9 { 1.0 } else { 0.0 };
        if let Some(c) = observe(&mut d, v) {
            detected = Some(c);
            break;
        }
    }
    let c = detected.expect("change should be detected after mean shift");
    assert!(value(c.old_mean) < 0.3, "old mean should be low, got {}", value(c.old_mean));
    assert!(value(c.new_mean) > 0.7, "new mean should be high, got {}", value(c.new_mean));
}

#[test]
fn window_capped_at_max_size() {
    let mut d = AdwinDetector::new(num(0.002), 50);
    for _ in 0..200 {
        observe(&mut d, 0.5);
    }
    assert!(d.len() <= 50);
}

#[test]
fn reset_clears_window() {
    let mut d = AdwinDetector::new(num(0.002), 1000);
    for _ in 0..50 {
        observe(&mut d, 0.5);
    }
    assert_eq!(d.len(), 50);
    d.reset();
    assert_eq!(d.len(), 0);
}

#[test]
fn detects_continuous_drift() {
    let mut d = AdwinDetector::new(num(0.002), 1000);
    // 100 samples around 0.2, then 100 samples around 0.8
    for i in 0..100 {
        let noise = ((i as f64 * 13.0).sin() + 1.0) / 20.0;
        observe(&mut d, 0.2 + noise);
    }
    let mut detected = false;
    for i in 0..100 {
        let noise = ((i as f64 * 13.0).sin() + 1.0) / 20.0;
        if observe(&mut d, 0.8 + noise).is_some() {
            detected = true;
            break;
        }
    }
    assert!(detected, "should detect shift from ~0.2 to ~0.8");
}

#[test]
fn the_first_split_that_differs_is_dropped() {
    let mut d = AdwinDetector::new(num(0.5), 100);
    for i in 0..11 {
        assert_eq!(d.add(num(i as f64)), if i < 9 { 0 } else { i - 8 });
    }
    let quiet = SplitTest {
        old_mean: num(0.0),
        new_mean: num(0.0),
        gap: num(0.5),
        bound: num(0.5),
    };
    let loud = SplitTest {
        old_mean: num(1.0),
        new_mean: num(2.0),
        gap: num(-1.0),
        bound: num(0.5),
    };
    assert!(d.check_for_change(&vec![quiet, quiet]).is_none());
    assert_eq!(d.len(), 11);
    let c = d.check_for_change(&vec![quiet, loud]).unwrap();
    assert_eq!(c.dropped, 6);
    assert_eq!(value(c.new_mean), 2.0);
    let left: Vec<f64> = d.window_snapshot().into_iter().map(value).collect();
    assert_eq!(left, vec![6.0, 7.0, 8.0, 9.0, 10.0]);
}

#[test]
fn ready_made_settings() {
    assert_eq!(value(AdwinDetector::default_config().delta()), 0.002);
    assert_eq!(value(AdwinDetector::capsule_level_config().delta()), 0.0005);
    assert_eq!(AdwinDetector::default_config().max_size(), 1000);
    assert_eq!(AdwinDetector::default_config().min_subwindow(), 5);
    assert!(AdwinDetector::default_config().is_empty());
}

#[test]
fn parts_of_one_observation_can_differ() {
    let mut d = AdwinDetector::restore_state(vec![num(0.0); 40], num(0.9), 100, 0);
    assert_eq!(d.add(num(0.0)), 42);
    let split = |window: &[Real], at: usize| split_test(window, 0.9, at);
    let window = d.window_snapshot();
    assert!(!split(&window, 0).differs());
    assert!(!split(&window, 41).differs());
    for _ in 0..40 {
        if let Some(c) = observe(&mut d, 1.0) {
            assert!(c.dropped > 0);
            assert!(value(c.old_mean) < value(c.new_mean));
            return;
        }
    }
    panic!("the shift was not found");
}
