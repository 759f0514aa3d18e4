//! Feedback along a path of decisions.
use crate::hierarchical::{DecisionPath, HierState, LevelReward, Tree, leaf_at, level_reward, state_matches, tree, tree_at};
use crate::hierarchical_state::{HierView, HierarchicalCapsuleState, LevelNumbers, fresh_hier, key_text, keys_are_different, level_after};
use crate::meta_bandit::{CandidateId, leader};
use crate::number::Real;
use vstd::prelude::*;

verus! {

/// The name of a path's decision on a level.
pub open spec fn level_key(path: Seq<usize>, level: int) -> Seq<char> {
    key_text(level as nat, path.take(level))
}

/// How many options a path's decision on a level has.
pub open spec fn level_options(t: Tree, path: Seq<usize>, level: int) -> nat {
    tree_at(t, path, level)->Some_0.options.len()
}

/// The bucket of a path's decision on a level, or a fresh one.
pub open spec fn level_bucket(
    m: Map<Seq<char>, HierView>,
    t: Tree,
    path: Seq<usize>,
    level: int,
) -> HierView {
    if m.contains_key(level_key(path, level)) {
        m[level_key(path, level)]
    } else {
        fresh_hier(level_options(t, path, level))
    }
}

/// The buckets after the feedback of the first `n` levels of a path.
pub open spec fn spread(
    m: Map<Seq<char>, HierView>,
    t: Tree,
    path: Seq<usize>,
    chosen: Seq<usize>,
    numbers: Seq<LevelNumbers>,
    n: int,
) -> Map<Seq<char>, HierView>
    decreases n,
{
    if n <= 0 {
        m
    } else {
        let before = spread(m, t, path, chosen, numbers, n - 1);
        let b = level_bucket(before, t, path, n - 1);
        before.insert(
            level_key(path, n - 1),
            if chosen[n - 1] < b.weights.len() {
                level_after(b, chosen[n - 1] as int, numbers[n - 1])
            } else {
                b
            },
        )
    }
}

/// The levels among the first `n` that have the option that was chosen.
pub open spec fn levels_hit(
    m: Map<Seq<char>, HierView>,
    t: Tree,
    path: Seq<usize>,
    chosen: Seq<usize>,
    n: int,
) -> Seq<int>
    decreases n,
{
    if n <= 0 {
        Seq::empty()
    } else {
        let before = levels_hit(m, t, path, chosen, n - 1);
        if chosen[n - 1] < level_bucket(m, t, path, n - 1).weights.len() {
            before.push(n - 1)
        } else {
            before
        }
    }
}

/// The numbers fit the bucket of their level.
pub open spec fn level_fits(
    m: Map<Seq<char>, HierView>,
    t: Tree,
    path: Seq<usize>,
    level: int,
    n: LevelNumbers,
) -> bool {
    let b = level_bucket(m, t, path, level);
    &&& level_options(t, path, level) <= 0x20_0000_0000_0000
    &&& n.shares@.len() == b.weights.len()
    &&& n.records@.len() == b.meta_bandit.candidates.len()
    &&& b.meta_bandit.total_rounds < u64::MAX
}

/// Feedback of the levels above leaves the bucket of a level alone.
pub proof fn levels_are_apart(
    m: Map<Seq<char>, HierView>,
    t: Tree,
    path: Seq<usize>,
    chosen: Seq<usize>,
    numbers: Seq<LevelNumbers>,
    n: int,
    level: int,
)
    requires
        0 <= n <= level <= path.len(),
    ensures
        level_bucket(spread(m, t, path, chosen, numbers, n), t, path, level) == level_bucket(
            m,
            t,
            path,
            level,
        ),
    decreases n,
{
    if n > 0 {
        levels_are_apart(m, t, path, chosen, numbers, n - 1, level);
        if level_key(path, n - 1) == level_key(path, level) {
            keys_are_different(
                (n - 1) as nat,
                path.take(n - 1),
                level as nat,
                path.take(level),
            );
        }
    }
}

/// Buckets of decisions that are not on the path stay as they are.
pub proof fn other_decisions_are_left_alone(
    m: Map<Seq<char>, HierView>,
    t: Tree,
    path: Seq<usize>,
    chosen: Seq<usize>,
    numbers: Seq<LevelNumbers>,
    n: int,
    key: Seq<char>,
)
    requires
        forall|k: int| 0 <= k < n ==> key != #[trigger] level_key(path, k),
    ensures
        spread(m, t, path, chosen, numbers, n).contains_key(key) == m.contains_key(key),
        m.contains_key(key) ==> spread(m, t, path, chosen, numbers, n)[key] == m[key],
    decreases n,
{
    if n > 0 {
        other_decisions_are_left_alone(m, t, path, chosen, numbers, n - 1, key);
        assert(key != level_key(path, n - 1));
    }
}

/// The candidate that a level's feedback goes to: the one that chose, where there
/// is one for each level, or else the leader, or else the first.
pub fn credited_candidate(
    candidates: Option<&Vec<CandidateId>>,
    levels: usize,
    level: usize,
    leader: Option<CandidateId>,
) -> (c: CandidateId)
    requires
        level < levels,
    ensures
        c == (if candidates is Some && candidates->Some_0@.len() == levels {
            candidates->Some_0@[level as int]
        } else {
            match leader {
                Some(l) => l,
                None => CandidateId::Thompson,
            }
        }),
{
    if let Some(v) = candidates {
        if v.len() == levels {
            return v[level];
        }
    }
    match leader {
        Some(l) => l,
        None => CandidateId::Thompson,
    }
}

impl HierarchicalCapsuleState {
    /// Gives every level along a path its feedback, and says which levels took it.
    /// `numbers` are what the host computed from each level's bucket.
    pub fn apply_feedback(
        &mut self,
        path: &DecisionPath,
        chosen_per_level: &Vec<usize>,
        reward: Real,
        numbers: Vec<LevelNumbers>,
    ) -> (r: Vec<(HierState, LevelReward)>)
        requires
            old(self).wf(),
            leaf_at(tree(old(self).spec), path@) is Some && chosen_per_level@.len() == path@.len()
                ==> {
                &&& numbers@.len() == path@.len()
                &&& forall|k: int|
                    0 <= k < path@.len() ==> level_fits(
                        old(self).views(),
                        tree(old(self).spec),
                        path@,
                        k,
                        #[trigger] numbers@[k],
                    )
            },
        ensures
            final(self).wf(),
            final(self).spec == old(self).spec,
            ({
                let t = tree(old(self).spec);
                let n = path@.len() as int;
                if leaf_at(t, path@) is Some && chosen_per_level@.len() == n {
                    let hit = levels_hit(old(self).views(), t, path@, chosen_per_level@, n);
                    &&& final(self).views() == spread(
                        old(self).views(),
                        t,
                        path@,
                        chosen_per_level@,
                        numbers@,
                        n,
                    )
                    &&& r@.len() == hit.len()
                    &&& forall|i: int|
                        0 <= i < r@.len() ==> state_matches(
                            (#[trigger] r@[i]).0,
                            t,
                            path@,
                            hit[i],
                        ) && r@[i].1 == level_reward(
                            old(self).spec.reward_propagation,
                            reward,
                            hit[i],
                            n,
                        )
                } else {
                    r@.len() == 0 && final(self).views() == old(self).views()
                }
            }),
    {
        let ghost t = tree(self.spec);
        let ghost start = self.views();
        let ghost given = numbers@;
        let mut levels = self.feedback_levels(path, chosen_per_level, reward);
        let mut left = numbers;
        let mut r: Vec<(HierState, LevelReward)> = Vec::new();
        let many: usize = levels.len();
        if many == 0 {
            proof {
                if leaf_at(t, path@) is Some && chosen_per_level@.len() == path@.len() {
                    assert(path@.len() == 0);
                }
            }
            return r;
        }
        let ghost all = levels@;
        proof {
            assert(all.skip(0) =~= all);
            assert(given.skip(0) =~= given);
        }
        let mut i: usize = 0;
        while i < many
            invariant
                i <= many,
                many == path@.len(),
                many == chosen_per_level@.len(),
                many == given.len(),
                many == all.len(),
                self.wf(),
                self.spec == old(self).spec,
                t == tree(old(self).spec),
                start == old(self).views(),
                levels@ == all.skip(i as int),
                left@ == given.skip(i as int),
                forall|k: int|
                    0 <= k < many ==> level_fits(start, t, path@, k, #[trigger] given[k]),
                forall|k: int|
                    0 <= k < many ==> state_matches((#[trigger] all[k]).0, t, path@, k)
                        && all[k].1 == level_reward(
                        old(self).spec.reward_propagation,
                        reward,
                        k,
                        many as int,
                    ),
                self.views() == spread(start, t, path@, chosen_per_level@, given, i as int),
                r@.len() == levels_hit(start, t, path@, chosen_per_level@, i as int).len(),
                forall|k: int|
                    0 <= k < r@.len() ==> state_matches(
                        (#[trigger] r@[k]).0,
                        t,
                        path@,
                        levels_hit(start, t, path@, chosen_per_level@, i as int)[k],
                    ) && r@[k].1 == level_reward(
                        old(self).spec.reward_propagation,
                        reward,
                        levels_hit(start, t, path@, chosen_per_level@, i as int)[k],
                        many as int,
                    ),
            decreases many - i,
        {
            let ghost before = self.views();
            let (state, share) = levels.remove(0);
            let n = left.remove(0);
            proof {
                assert((state, share) == all[i as int]);
                assert(n == given[i as int]);
                assert(levels@ =~= all.skip(i + 1));
                assert(left@ =~= given.skip(i + 1));
                assert(state_matches(all[i as int].0, t, path@, i as int));
                assert(level_fits(start, t, path@, i as int, given[i as int]));
                levels_are_apart(
                    start,
                    t,
                    path@,
                    chosen_per_level@,
                    given,
                    i as int,
                    i as int,
                );
            }
            let ghost key = level_key(path@, i as int);
            let ghost there = self.with_bucket(key, state.branching_factor as nat);
            assert(there[key] == level_bucket(before, t, path@, i as int));
            let applied = self.apply_level(&state, chosen_per_level[i], n);
            proof {
                let b = level_bucket(before, t, path@, i as int);
                let goal = spread(start, t, path@, chosen_per_level@, given, i + 1);
                if applied {
                    assert(self.views() =~= goal);
                } else {
                    assert(self.views() =~= goal);
                }
            }
            if applied {
                r.push((state, share));
            }
            i = i + 1;
        }
        r
    }
}

} // verus!
