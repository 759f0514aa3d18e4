use lycan::hierarchical::{
    propagate_reward, DecisionPath, HierState, HierarchicalOption, HierarchicalSpec, LevelReward,
    RewardKind, RewardPropagation, RewardSpec,
};
use lycan::json::Json;
use lycan::number::Real;

fn num(x: f64) -> Real {
    Real { bits: x.to_bits() }
}

fn value(r: Real) -> f64 {
    f64::from_bits(r.bits)
}

fn reward_at(r: &LevelReward) -> f64 {
    match r {
        LevelReward::Known(x) => value(*x),
        LevelReward::Discounted { reward, factor, power } => {
            value(*reward) * value(*factor).powi(*power as i32)
        }
    }
}

fn propagated(spec: &HierarchicalSpec, path: &DecisionPath, reward: f64) -> Vec<(HierState, f64)> {
    propagate_reward(spec, path, num(reward)).into_iter().map(|(s, r)| (s, reward_at(&r))).collect()
}

// ── Helpers ────────────────────────────────────────────────────────

fn leaf(name: &str) -> HierarchicalOption {
    HierarchicalOption::Leaf {
        name: name.to_string(),
    }
}

fn branch(name: &str, sub: HierarchicalSpec) -> HierarchicalOption {
    HierarchicalOption::Branch {
        name: name.to_string(),
        sub_capsule: Box::new(sub),
    }
}

fn cont_reward() -> RewardSpec {
    RewardSpec {
        kind: RewardKind::Continuous,
        range: Some([num(-1.0), num(1.0)]),
    }
}

/// Build a 2x2 spec: root has two branches, each branch has two leaves.
fn spec_2x2() -> HierarchicalSpec {
    HierarchicalSpec {
        options: vec![
            branch(
                "route_to_a",
                HierarchicalSpec {
                    options: vec![leaf("variant_x"), leaf("variant_y")],
                    reward: cont_reward(),
                    reward_propagation: None,
                },
            ),
            branch(
                "route_to_b",
                HierarchicalSpec {
                    options: vec![leaf("variant_p"), leaf("variant_q")],
                    reward: cont_reward(),
                    reward_propagation: None,
                },
            ),
        ],
        reward: cont_reward(),
        reward_propagation: None,
    }
}

/// Build a 3-level spec (depth 3): each branch nests once more.
fn spec_3_levels() -> HierarchicalSpec {
    HierarchicalSpec {
        options: vec![
            branch(
                "a",
                HierarchicalSpec {
                    options: vec![
                        branch(
                            "a1",
                            HierarchicalSpec {
                                options: vec![leaf("a1x"), leaf("a1y")],
                                reward: cont_reward(),
                                reward_propagation: None,
                            },
                        ),
                        branch(
                            "a2",
                            HierarchicalSpec {
                                options: vec![leaf("a2x"), leaf("a2y")],
                                reward: cont_reward(),
                                reward_propagation: None,
                            },
                        ),
                    ],
                    reward: cont_reward(),
                    reward_propagation: None,
                },
            ),
            branch(
                "b",
                HierarchicalSpec {
                    options: vec![
                        branch(
                            "b1",
                            HierarchicalSpec {
                                options: vec![leaf("b1x"), leaf("b1y")],
                                reward: cont_reward(),
                                reward_propagation: None,
                            },
                        ),
                        branch(
                            "b2",
                            HierarchicalSpec {
                                options: vec![leaf("b2x"), leaf("b2y")],
                                reward: cont_reward(),
                                reward_propagation: None,
                            },
                        ),
                    ],
                    reward: cont_reward(),
                    reward_propagation: None,
                },
            ),
        ],
        reward: cont_reward(),
        reward_propagation: None,
    }
}

/// A chain of nested branches.
fn nest(depth_remaining: usize) -> HierarchicalSpec {
    if depth_remaining == 1 {
        HierarchicalSpec {
            options: vec![leaf("x"), leaf("y")],
            reward: cont_reward(),
            reward_propagation: None,
        }
    } else {
        HierarchicalSpec {
            options: vec![
                branch("l", nest(depth_remaining - 1)),
                branch("r", nest(depth_remaining - 1)),
            ],
            reward: cont_reward(),
            reward_propagation: None,
        }
    }
}

#[test]
fn rejects_five_level_hierarchy() {
    let spec = nest(5);
    assert_eq!(spec.max_depth(), 5);
    let err = spec.validate().unwrap_err();
    assert!(
        err.contains("depth") && err.contains("maximum"),
        "expected depth-limit error, got: {err}"
    );
}

#[test]
fn rejects_branch_with_one_option() {
    let spec = HierarchicalSpec {
        options: vec![branch(
            "only",
            HierarchicalSpec {
                options: vec![leaf("solo")],
                reward: cont_reward(),
                reward_propagation: None,
            },
        ), leaf("other")],
        reward: cont_reward(),
        reward_propagation: None,
    };
    let err = spec.validate().unwrap_err();
    assert!(err.contains("minimum"), "got: {err}");
}

#[test]
fn rejects_duplicate_option_names() {
    let spec = HierarchicalSpec {
        options: vec![leaf("dup"), leaf("dup")],
        reward: cont_reward(),
        reward_propagation: None,
    };
    let err = spec.validate().unwrap_err();
    assert!(err.contains("duplicate"), "got: {err}");
}

#[test]
fn enumerate_paths_2x2_returns_four() {
    let spec = spec_2x2();
    let paths = spec.enumerate_paths();
    assert_eq!(paths.len(), 4);
    assert_eq!(paths[0], vec![0, 0]);
    assert_eq!(paths[1], vec![0, 1]);
    assert_eq!(paths[2], vec![1, 0]);
    assert_eq!(paths[3], vec![1, 1]);
}

#[test]
fn resolve_path_returns_leaf_or_none() {
    let spec = spec_2x2();
    assert_eq!(spec.resolve_path(&vec![0, 0]), Some("variant_x"));
    assert_eq!(spec.resolve_path(&vec![1, 1]), Some("variant_q"));
    // Out-of-bounds at root.
    assert_eq!(spec.resolve_path(&vec![5, 0]), None);
    // Out-of-bounds at nested level.
    assert_eq!(spec.resolve_path(&vec![0, 7]), None);
    // Path too short — terminates on a branch.
    assert_eq!(spec.resolve_path(&vec![0]), None);
    // Path too long — continues past a leaf.
    assert_eq!(spec.resolve_path(&vec![0, 0, 0]), None);
    // Empty path.
    assert_eq!(spec.resolve_path(&vec![]), None);
}

#[test]
fn propagate_reward_depth3_returns_three_entries() {
    let spec = spec_3_levels();
    let path = vec![0, 1, 0]; // a -> a2 -> a2x
    assert_eq!(spec.resolve_path(&path), Some("a2x"));
    let updates = propagated(&spec, &path, 0.42);
    assert_eq!(updates.len(), 3);

    // Level 0 (root): no parent, 2 options.
    assert_eq!(updates[0].0.depth, 0);
    assert_eq!(updates[0].0.parent_option_path, Vec::<usize>::new());
    assert_eq!(updates[0].0.branching_factor, 2);
    assert!((updates[0].1 - 0.42).abs() < 1e-12);

    // Level 1 (inside 'a'): parent = [0], 2 options.
    assert_eq!(updates[1].0.depth, 1);
    assert_eq!(updates[1].0.parent_option_path, vec![0]);
    assert_eq!(updates[1].0.branching_factor, 2);
    assert!((updates[1].1 - 0.42).abs() < 1e-12);

    // Level 2 (inside 'a2'): parent = [0, 1], 2 options.
    assert_eq!(updates[2].0.depth, 2);
    assert_eq!(updates[2].0.parent_option_path, vec![0, 1]);
    assert_eq!(updates[2].0.branching_factor, 2);
    assert!((updates[2].1 - 0.42).abs() < 1e-12);
}

#[test]
fn propagate_reward_discounted_attenuates_root_relative_to_leaf() {
    // 3-level spec with Discounted { factor: num(0.5) }. A leaf reward of
    // 1.0 should credit:
    //   leaf (depth 2): 1.0 * 0.5^0 = 1.0
    //   mid  (depth 1): 1.0 * 0.5^1 = 0.5
    //   root (depth 0): 1.0 * 0.5^2 = 0.25
    let mut spec = spec_3_levels();
    spec.reward_propagation = Some(RewardPropagation::Discounted { factor: num(0.5) });
    let path = vec![0, 1, 0];
    let updates = propagated(&spec, &path, 1.0);
    assert_eq!(updates.len(), 3);
    assert!((updates[0].1 - 0.25).abs() < 1e-12,
            "root should attenuate to 0.25, got {}", updates[0].1);
    assert!((updates[1].1 - 0.5).abs() < 1e-12,
            "mid should attenuate to 0.5, got {}", updates[1].1);
    assert!((updates[2].1 - 1.0).abs() < 1e-12,
            "leaf should keep 1.0, got {}", updates[2].1);
}

#[test]
fn propagate_reward_full_is_default_and_returns_raw_reward() {
    // Explicit Full and missing-field both produce the same result:
    // every level sees the input reward unchanged.
    let mut spec = spec_3_levels();
    let path = vec![0, 1, 0];

    spec.reward_propagation = Some(RewardPropagation::Full);
    let explicit = propagated(&spec, &path, 0.42);
    for (_, r) in &explicit { assert!((r - 0.42).abs() < 1e-12); }

    spec.reward_propagation = None;
    let defaulted = propagated(&spec, &path, 0.42);
    for (_, r) in &defaulted { assert!((r - 0.42).abs() < 1e-12); }

    // Factor 1.0 must be equivalent to Full on
    // the math edge case.
    spec.reward_propagation = Some(RewardPropagation::Discounted { factor: num(1.0) });
    let factor_one = propagated(&spec, &path, 0.42);
    for (_, r) in &factor_one { assert!((r - 0.42).abs() < 1e-12); }
}

#[test]
fn rejects_continuous_reward_without_range() {
    let spec = HierarchicalSpec {
        options: vec![leaf("a"), leaf("b")],
        reward: RewardSpec {
            kind: RewardKind::Continuous,
            range: None,
        },
        reward_propagation: None,
    };
    let err = spec.validate().unwrap_err();
    assert!(err.contains("range"), "got: {err}");
}

#[test]
fn state_keys_match_propagate_for_invalid_path() {
    let spec = spec_2x2();
    // Out-of-bounds index — both should report empty.
    let bad: DecisionPath = vec![9, 0];
    assert!(spec.state_keys_for_path(&bad).is_empty());
    assert!(propagated(&spec, &bad, 0.5).is_empty());
}

fn level(options: Vec<HierarchicalOption>) -> HierarchicalSpec {
    HierarchicalSpec { options, reward: cont_reward(), reward_propagation: None }
}

#[test]
fn three_levels_have_eight_leaves() {
    let spec = spec_3_levels();
    spec.validate().expect("valid");
    assert_eq!(spec.max_depth(), 3);
    assert_eq!(spec.count_leaves(), 8);
    assert_eq!(spec.enumerate_paths().len(), 8);
    for p in spec.enumerate_paths() {
        assert!(spec.resolve_path(&p).is_some());
    }
}

#[test]
fn faults_of_a_tree_are_told() {
    assert_eq!(
        nest(5).validate().unwrap_err(),
        "hierarchical spec depth 5 exceeds maximum 4"
    );
    let few = level(vec![branch("only", level(vec![leaf("x")])), leaf("y")]);
    assert_eq!(
        few.validate().unwrap_err(),
        "level at depth 2 has 1 option(s); minimum is 2"
    );
    let same = level(vec![leaf("same"), leaf("same")]);
    assert_eq!(same.validate().unwrap_err(), "duplicate option name 'same' at depth 1");
    let blank = level(vec![leaf("x"), leaf(" ")]);
    assert_eq!(blank.validate().unwrap_err(), "option[1] at depth 1 has empty name");
    let many: Vec<HierarchicalOption> =
        (0..257).map(|i| HierarchicalOption::BareLeaf(format!("o{i}"))).collect();
    assert_eq!(
        level(many).validate().unwrap_err(),
        "total leaf count 257 exceeds maximum 256"
    );
}

#[test]
fn faults_of_a_reward_are_told() {
    let mut s = level(vec![leaf("x"), leaf("y")]);
    s.reward = RewardSpec { kind: RewardKind::Continuous, range: None };
    assert_eq!(
        s.validate().unwrap_err(),
        "reward at depth 1 requires range when type is continuous"
    );
    s.reward = RewardSpec {
        kind: RewardKind::SparseContinuous,
        range: Some([num(0.0), num(f64::INFINITY)]),
    };
    assert_eq!(s.validate().unwrap_err(), "reward.range at depth 1 is not finite");
    s.reward = RewardSpec { kind: RewardKind::Continuous, range: Some([num(1.0), num(1.0)]) };
    assert_eq!(s.validate().unwrap_err(), "reward.range at depth 1 must satisfy lo < hi");
    s.reward = RewardSpec { kind: RewardKind::Bernoulli, range: None };
    assert!(s.validate().is_ok());
}

#[test]
fn tree_json_names_every_part() {
    let mut s = spec_2x2();
    assert!(s.to_json().get("rewardPropagation").is_none());
    s.reward_propagation = Some(RewardPropagation::Discounted { factor: num(0.5) });
    let j = s.to_json();
    let options = j.array_at("options").unwrap();
    assert_eq!(options.len(), 2);
    assert_eq!(options[0].str_at("name"), Some("route_to_a"));
    let sub: &Json = options[0].get("subCapsule").unwrap();
    assert_eq!(sub.array_at("options").unwrap()[1].str_at("name"), Some("variant_y"));
    assert_eq!(j.get("reward").unwrap().str_at("type"), Some("continuous"));
    let p = j.get("rewardPropagation").unwrap();
    assert_eq!(p.str_at("mode"), Some("discounted"));
    assert_eq!(p.real_at("factor"), Some(num(0.5)));
}

#[test]
fn paths_are_listed_in_growing_order() {
    let found = spec_3_levels().enumerate_paths();
    assert_eq!(found[0], vec![0, 0, 0]);
    assert_eq!(found[7], vec![1, 1, 1]);
    for i in 1..found.len() {
        assert!(found[i - 1] < found[i]);
    }
}
