//! The buckets of a tree of decisions, one for each decision that was reached.
use crate::hierarchical::{DecisionPath, HierState, HierarchicalSpec, LevelReward, Tree, Twig, depth, leaf_at, level_reward, propagate_reward, state_matches, tree, tree_at, twig};
use crate::learning_memory::{default_stats_list, share_of, starting_weights, stats_views};
use crate::learning_stats::{OptionStats, StatsView, default_stats};
use crate::meta_bandit::{BanditView, CandidateId, CandidateRecord, MetaBandit, faded, record_of};
use crate::number::{ONE, Real};
use crate::real_constants::R_1EM06;
use crate::strings::{cat4, join, joined, parts};
use crate::table::Table;
use crate::text::{dec_nat, digit_char, u64_text};
use crate::values::texts;
use crate::weighing::{scale_weights, scaled_weights};
use vstd::prelude::*;
use vstd::string::StringExecFns;

verus! {

// Keys

/// The name of a decision in a tree: its depth, and how it is reached.
#[derive(Debug)]
pub struct HierStateKey(pub String);

pub open spec fn number_texts(p: Seq<usize>) -> Seq<Seq<char>> {
    p.map_values(|i: usize| dec_nat(i as nat))
}

/// `d`, the depth, a bar, and the places along the path with commas between
/// them.
pub open spec fn key_text(depth: nat, path: Seq<usize>) -> Seq<char> {
    "d"@ + dec_nat(depth) + "|"@ + joined(number_texts(path), ","@)
}

impl HierStateKey {
    pub fn from_state(state: &HierState) -> (k: Self)
        ensures
            k.0@ == key_text(state.depth as nat, state.parent_option_path@),
    {
        HierStateKey::from_parts(state.depth, &state.parent_option_path)
    }

    pub fn from_parts(depth: usize, parent_option_path: &Vec<usize>) -> (k: Self)
        ensures
            k.0@ == key_text(depth as nat, parent_option_path@),
    {
        let mut parts: Vec<String> = Vec::new();
        let mut i: usize = 0;
        while i < parent_option_path.len()
            invariant
                i <= parent_option_path.len(),
                parts@.len() == i,
                forall|k: int|
                    0 <= k < i ==> (#[trigger] parts@[k])@ == dec_nat(
                        parent_option_path@[k] as nat,
                    ),
            decreases parent_option_path.len() - i,
        {
            parts.push(u64_text(parent_option_path[i] as u64));
            i = i + 1;
        }
        assert(texts(parts@) =~= number_texts(parent_option_path@));
        HierStateKey(
            cat4("d", u64_text(depth as u64).as_str(), "|", join(&parts, ",").as_str()),
        )
    }

    pub fn as_str(&self) -> (s: &str)
        ensures
            s@ == self.0@,
    {
        self.0.as_str()
    }
}

pub open spec fn without_char(s: Seq<char>, c: char) -> bool {
    forall|i: int| 0 <= i < s.len() ==> #[trigger] s[i] != c
}

proof fn digits_are_plain(n: nat)
    ensures
        dec_nat(n).len() > 0,
        forall|i: int|
            0 <= i < dec_nat(n).len() ==> '0' <= #[trigger] dec_nat(n)[i] && dec_nat(n)[i] <= '9',
    decreases n,
{
    if n >= 10 {
        digits_are_plain(n / 10);
        let front = dec_nat(n / 10);
        assert forall|i: int| 0 <= i < dec_nat(n).len() implies '0' <= #[trigger] dec_nat(n)[i]
            && dec_nat(n)[i] <= '9' by {
            if i < front.len() {
                assert(dec_nat(n)[i] == front[i]);
            }
        }
    }
}

proof fn digits_are_injective(a: nat, b: nat)
    requires
        dec_nat(a) == dec_nat(b),
    ensures
        a == b,
    decreases a,
{
    digits_are_plain(a / 10);
    digits_are_plain(b / 10);
    if a >= 10 {
        assert(dec_nat(a).last() == digit_char((a % 10) as int));
        if b >= 10 {
            assert(dec_nat(b).last() == digit_char((b % 10) as int));
            assert(dec_nat(a).drop_last() =~= dec_nat(a / 10));
            assert(dec_nat(b).drop_last() =~= dec_nat(b / 10));
            digits_are_injective(a / 10, b / 10);
        } else {
            assert(dec_nat(a).len() >= 2);
        }
    } else {
        assert(dec_nat(a)[0] == digit_char(a as int));
        if b >= 10 {
            assert(dec_nat(b).len() >= 2);
        } else {
            assert(dec_nat(b)[0] == digit_char(b as int));
        }
    }
}

/// A text without the mark goes onto the last part.
proof fn parts_grow(x: Seq<char>, s: Seq<char>, c: char)
    requires
        without_char(s, c),
    ensures
        parts(x, c).len() >= 1,
        parts(x + s, c) == parts(x, c).drop_last().push(parts(x, c).last() + s),
    decreases s.len(),
{
    parts_not_empty(x, c);
    if s.len() == 0 {
        assert(x + s =~= x);
        assert(parts(x, c).last() + s =~= parts(x, c).last());
        assert(parts(x, c).drop_last().push(parts(x, c).last()) =~= parts(x, c));
    } else {
        let front = s.drop_last();
        assert forall|i: int| 0 <= i < front.len() implies #[trigger] front[i] != c by {
            assert(front[i] == s[i]);
        }
        parts_grow(x, front, c);
        assert((x + s).drop_last() =~= x + front);
        assert((x + s).last() == s.last());
        assert(s[s.len() - 1] != c);
        let p = parts(x, c);
        let q = parts(x + front, c);
        assert(q.drop_last() =~= p.drop_last());
        assert((p.last() + front).push(s.last()) =~= p.last() + s);
    }
}

proof fn parts_not_empty(s: Seq<char>, c: char)
    ensures
        parts(s, c).len() >= 1,
    decreases s.len(),
{
    if s.len() > 0 {
        parts_not_empty(s.drop_last(), c);
    }
}

/// Joining texts without the mark and splitting at the mark gives the texts
/// back.
pub proof fn joined_texts_split(s: Seq<Seq<char>>, c: char)
    requires
        s.len() > 0,
        forall|i: int| 0 <= i < s.len() ==> without_char(#[trigger] s[i], c),
    ensures
        parts(joined(s, seq![c]), c) == s,
    decreases s.len(),
{
    let e = Seq::<char>::empty();
    assert(parts(e, c) == seq![e]);
    if s.len() == 1 {
        assert(without_char(s[0], c));
        parts_grow(e, s[0], c);
        assert(e + s[0] =~= s[0]);
        assert(parts(s[0], c) =~= s);
    } else {
        let front = s.drop_last();
        assert forall|i: int| 0 <= i < front.len() implies without_char(#[trigger] front[i], c) by {
            assert(front[i] == s[i]);
        }
        joined_texts_split(front, c);
        let j = joined(front, seq![c]);
        let x = j + seq![c];
        assert(x.drop_last() =~= j);
        assert(x.last() == c);
        assert(parts(x, c) == front.push(e));
        assert(without_char(s[s.len() - 1], c));
        parts_grow(x, s.last(), c);
        assert(front.push(e).drop_last() =~= front);
        assert(e + s.last() =~= s.last());
        assert(front.push(s.last()) =~= s);
    }
}

proof fn joined_is_plain(p: Seq<usize>)
    ensures
        without_char(joined(number_texts(p), ","@), '|'),
    decreases p.len(),
{
    reveal_strlit(",");
    let s = number_texts(p);
    if p.len() == 1 {
        digits_are_plain(p[0] as nat);
        assert(s[0] == dec_nat(p[0] as nat));
    } else if p.len() > 1 {
        joined_is_plain(p.drop_last());
        assert(s.drop_last() =~= number_texts(p.drop_last()));
        digits_are_plain(p.last() as nat);
        assert(s.last() == dec_nat(p.last() as nat));
        let j = joined(s, ","@);
        let a = joined(s.drop_last(), ","@);
        assert forall|i: int| 0 <= i < j.len() implies #[trigger] j[i] != '|' by {
            if i < a.len() {
                assert(j[i] == a[i]);
            } else if i == a.len() {
                assert(j[i] == ","@[0]);
            } else {
                assert(j[i] == s.last()[i - a.len() - 1]);
            }
        }
    }
}

proof fn joined_numbers_differ(p: Seq<usize>, q: Seq<usize>)
    requires
        joined(number_texts(p), ","@) == joined(number_texts(q), ","@),
    ensures
        p == q,
{
    reveal_strlit(",");
    assert(","@ =~= seq![',']);
    let a = number_texts(p);
    let b = number_texts(q);
    assert forall|i: int| 0 <= i < a.len() implies without_char(#[trigger] a[i], ',') by {
        digits_are_plain(p[i] as nat);
    }
    assert forall|i: int| 0 <= i < b.len() implies without_char(#[trigger] b[i], ',') by {
        digits_are_plain(q[i] as nat);
    }
    if p.len() > 0 {
        joined_texts_split(a, ',');
        joined_is_not_empty(p);
    }
    if q.len() > 0 {
        joined_texts_split(b, ',');
        joined_is_not_empty(q);
    }
    if p.len() > 0 && q.len() > 0 {
        assert(a == b);
        assert forall|i: int| 0 <= i < p.len() implies p[i] == q[i] by {
            assert(a[i] == b[i]);
            digits_are_injective(p[i] as nat, q[i] as nat);
        }
    }
    assert(p =~= q);
}

proof fn joined_is_not_empty(p: Seq<usize>)
    requires
        p.len() > 0,
    ensures
        joined(number_texts(p), ","@).len() > 0,
{
    digits_are_plain(p.last() as nat);
    assert(number_texts(p).last() == dec_nat(p.last() as nat));
    if p.len() == 1 {
        assert(number_texts(p)[0] == dec_nat(p[0] as nat));
    }
}

/// Different decisions have different names.
pub proof fn keys_are_different(d: nat, p: Seq<usize>, e: nat, q: Seq<usize>)
    requires
        key_text(d, p) == key_text(e, q),
    ensures
        d == e,
        p == q,
{
    reveal_strlit("d");
    reveal_strlit("|");
    digits_are_plain(d);
    digits_are_plain(e);
    joined_is_plain(p);
    joined_is_plain(q);
    let a = joined(number_texts(p), ","@);
    let b = joined(number_texts(q), ","@);
    let x = "d"@ + dec_nat(d);
    let y = "d"@ + dec_nat(e);
    let s = seq![x, a];
    let u = seq![y, b];
    assert(without_char(x, '|')) by {
        assert forall|i: int| 0 <= i < x.len() implies #[trigger] x[i] != '|' by {
            if i > 0 {
                assert(x[i] == dec_nat(d)[i - 1]);
            }
        }
    }
    assert(without_char(y, '|')) by {
        assert forall|i: int| 0 <= i < y.len() implies #[trigger] y[i] != '|' by {
            if i > 0 {
                assert(y[i] == dec_nat(e)[i - 1]);
            }
        }
    }
    assert(seq!['|'] =~= "|"@);
    reveal_with_fuel(joined, 3);
    assert(s.drop_last() =~= seq![x]);
    assert(u.drop_last() =~= seq![y]);
    assert(joined(s, seq!['|']) =~= key_text(d, p));
    assert(joined(u, seq!['|']) =~= key_text(e, q));
    joined_texts_split(s, '|');
    joined_texts_split(u, '|');
    assert(s[0] == u[0] && s[1] == u[1]);
    assert(x.drop_first() =~= dec_nat(d));
    assert(y.drop_first() =~= dec_nat(e));
    digits_are_injective(d, e);
    joined_numbers_differ(p, q);
}

// Buckets

/// What is kept for one decision of a tree.
#[derive(Debug)]
pub struct HierBucket {
    pub weights: Vec<Real>,
    pub stats: Vec<OptionStats>,
    pub meta_bandit: MetaBandit,
}

pub struct HierView {
    pub weights: Seq<Real>,
    pub stats: Seq<StatsView>,
    pub meta_bandit: BanditView,
}

/// The portfolio of contexts without features, fresh.
pub open spec fn fresh_portfolio() -> BanditView {
    MetaBandit::fresh(
        seq![
            CandidateId::Thompson,
            CandidateId::Ucb,
            CandidateId::Weighted,
            CandidateId::EpsilonGreedy,
            CandidateId::Greedy,
        ],
    )
}

/// A bucket of `n` options that has seen nothing; one option at least.
pub open spec fn fresh_hier(options: nat) -> HierView {
    let n = if options == 0 {
        1
    } else {
        options
    };
    HierView {
        weights: Seq::new(n, |i: int| share_of(n)),
        stats: Seq::new(n, |i: int| default_stats()),
        meta_bandit: fresh_portfolio(),
    }
}

impl HierBucket {
    pub open spec fn seen(self) -> HierView {
        HierView {
            weights: self.weights@,
            stats: stats_views(self.stats@),
            meta_bandit: self.meta_bandit.seen(),
        }
    }

    pub open spec fn wf(self) -> bool {
        forall|i: int| 0 <= i < self.stats@.len() ==> (#[trigger] self.stats@[i]).wf()
    }

    pub fn new(branching_factor: usize) -> (b: Self)
        requires
            branching_factor <= 0x20_0000_0000_0000,
        ensures
            b.seen() == fresh_hier(branching_factor as nat),
            b.wf(),
    {
        let n: usize = if branching_factor == 0 {
            1
        } else {
            branching_factor
        };
        let none: Vec<Real> = Vec::new();
        let weights = starting_weights(&none, n);
        assert(weights@ =~= Seq::new(n as nat, |i: int| share_of(n as nat)));
        let stats = default_stats_list(n);
        assert(stats@.len() == stats_views(stats@).len());
        HierBucket { weights, stats, meta_bandit: MetaBandit::new() }
    }
}

/// The state of a capsule whose options form a tree. Buckets stand under the
/// names of their decisions.
#[derive(Debug)]
pub struct HierarchicalCapsuleState {
    pub spec: HierarchicalSpec,
    pub buckets: Table<HierBucket>,
}

pub open spec fn hier_map(m: Map<Seq<char>, HierBucket>) -> Map<Seq<char>, HierView> {
    m.map_values(|b: HierBucket| b.seen())
}

pub open spec fn hiers_wf(m: Map<Seq<char>, HierBucket>) -> bool {
    forall|k: Seq<char>| #[trigger] m.contains_key(k) ==> m[k].wf()
}

/// What a choice on a level leads to.
#[derive(Debug)]
pub enum LevelEnd {
    Deeper,
    Leaf(String),
}

impl HierarchicalCapsuleState {
    pub open spec fn wf(self) -> bool {
        self.buckets.wf() && hiers_wf(self.buckets@)
    }

    pub open spec fn views(self) -> Map<Seq<char>, HierView> {
        hier_map(self.buckets@)
    }

    pub fn new(spec: HierarchicalSpec) -> (s: Self)
        ensures
            s.wf(),
            s.spec == spec,
            s.views() == Map::<Seq<char>, HierView>::empty(),
    {
        let s = HierarchicalCapsuleState { spec, buckets: Table::new() };
        assert(s.views() =~= Map::<Seq<char>, HierView>::empty());
        s
    }

    /// The buckets with one for a decision.
    pub open spec fn with_bucket(self, key: Seq<char>, options: nat) -> Map<Seq<char>, HierView> {
        if self.views().contains_key(key) {
            self.views()
        } else {
            self.views().insert(key, fresh_hier(options))
        }
    }

    fn ensure_bucket(&mut self, key: &str, options: usize)
        requires
            old(self).wf(),
            options <= 0x20_0000_0000_0000,
        ensures
            final(self).wf(),
            final(self).spec == old(self).spec,
            final(self).views() == old(self).with_bucket(key@, options as nat),
            final(self).views().contains_key(key@),
    {
        if self.buckets.get(key).is_none() {
            let b = HierBucket::new(options);
            let ghost before = self.buckets@;
            self.buckets.insert(String::from_str(key), b);
            assert(hier_map(before.insert(key@, b)) =~= hier_map(before).insert(key@, b.seen()));
        }
    }

    /// Opens the decision that a path leads to: makes sure that it has a bucket,
    /// and gives the number of its options. Nothing where the path leads to no
    /// decision, or to one without options.
    pub fn open_level(&mut self, path: &Vec<usize>) -> (r: Option<usize>)
        requires
            old(self).wf(),
            tree_at(tree(old(self).spec), path@, path@.len() as int) matches Some(t)
                ==> t.options.len() <= 0x20_0000_0000_0000,
        ensures
            final(self).wf(),
            final(self).spec == old(self).spec,
            match tree_at(tree(old(self).spec), path@, path@.len() as int) {
                Some(t) => if t.options.len() == 0 {
                    r is None && final(self).views() == old(self).views()
                } else {
                    r is Some && r->Some_0 == t.options.len() && final(self).views() == old(self).with_bucket(key_text(path@.len(), path@), t.options.len())
                },
                None => r is None && final(self).views() == old(self).views(),
            },
    {
        let n: usize = match resolve_sub_spec(&self.spec, path) {
            Some(s) => {
                assert(tree(*s).options.len() == s.options@.len());
                s.options.len()
            },
            None => {
                return None;
            },
        };
        if n == 0 {
            return None;
        }
        let key = HierStateKey::from_parts(path.len(), path);
        self.ensure_bucket(key.as_str(), n);
        Some(n)
    }

    /// What the last choice of a path leads to: a further decision, or a leaf.
    /// Nothing where it leads nowhere.
    pub fn end_of(&self, path: &Vec<usize>) -> (r: Option<LevelEnd>)
        requires
            path@.len() > 0,
        ensures
            ({
                let n = path@.len() as int;
                match tree_at(tree(self.spec), path@, n - 1) {
                    Some(t) => if path@[n - 1] < t.options.len() {
                        match t.options[path@[n - 1] as int] {
                            Twig::Branch(_, _) => r == Some(LevelEnd::Deeper),
                            Twig::Leaf(name) => r matches Some(LevelEnd::Leaf(s)) && s@ == name,
                        }
                    } else {
                        r is None
                    },
                    None => r is None,
                }
            }),
    {
        let mut prefix: Vec<usize> = Vec::new();
        let mut i: usize = 0;
        while i < path.len() - 1
            invariant
                i <= path.len() - 1,
                path@.len() > 0,
                prefix@ == path@.take(i as int),
            decreases path.len() - i,
        {
            prefix.push(path[i]);
            i = i + 1;
            assert(path@.take(i as int) =~= path@.take(i - 1).push(path@[i - 1]));
        }
        proof {
            tree_at_prefix(tree(self.spec), path@, prefix@, prefix@.len() as int);
        }
        let last: usize = path[path.len() - 1];
        match resolve_sub_spec(&self.spec, &prefix) {
            Some(s) => {
                if last >= s.options.len() {
                    return None;
                }
                assert(tree(*s).options[last as int] == twig(s.options@[last as int]));
                match s.options[last].sub_capsule() {
                    Some(_) => Some(LevelEnd::Deeper),
                    None => Some(LevelEnd::Leaf(String::from_str(s.options[last].name()))),
                }
            },
            None => None,
        }
    }

    /// The levels that feedback on a path goes to, with their rewards. None where
    /// the path leads to no leaf or the choices do not fit it.
    pub fn feedback_levels(&self, path: &DecisionPath, chosen_per_level: &Vec<usize>, reward: Real) -> (r:
        Vec<(HierState, LevelReward)>)
        ensures
            leaf_at(tree(self.spec), path@) is None || chosen_per_level@.len() != path@.len()
                ==> r@.len() == 0,
            leaf_at(tree(self.spec), path@) is Some && chosen_per_level@.len() == path@.len()
                ==> r@.len() == path@.len() && forall|k: int|
                0 <= k < r@.len() ==> state_matches(
                    (#[trigger] r@[k]).0,
                    tree(self.spec),
                    path@,
                    k,
                ) && r@[k].1 == level_reward(
                    self.spec.reward_propagation,
                    reward,
                    k,
                    path@.len() as int,
                ),
    {
        let r = propagate_reward(&self.spec, path, reward);
        if chosen_per_level.len() != r.len() {
            return Vec::new();
        }
        r
    }

    /// Gives one level its feedback, and says whether it had the option that was
    /// chosen. `numbers` are what the host computed from the bucket.
    pub fn apply_level(&mut self, state: &HierState, chosen: usize, numbers: LevelNumbers) -> (applied:
        bool)
        requires
            old(self).wf(),
            state.branching_factor <= 0x20_0000_0000_0000,
            ({
                let key = key_text(state.depth as nat, state.parent_option_path@);
                let b = old(self).with_bucket(key, state.branching_factor as nat)[key];
                &&& numbers.shares@.len() == b.weights.len()
                &&& numbers.records@.len() == b.meta_bandit.candidates.len()
                &&& b.meta_bandit.total_rounds < u64::MAX
            }),
        ensures
            final(self).wf(),
            final(self).spec == old(self).spec,
            ({
                let key = key_text(state.depth as nat, state.parent_option_path@);
                let before = old(self).with_bucket(key, state.branching_factor as nat);
                let b = before[key];
                if chosen < b.weights.len() {
                    applied && final(self).views() == before.insert(
                        key,
                        level_after(b, chosen as int, numbers),
                    )
                } else {
                    !applied && final(self).views() == before
                }
            }),
    {
        let key = HierStateKey::from_state(state);
        self.ensure_bucket(key.as_str(), state.branching_factor);
        let ghost before = self.buckets@;
        let ghost views = self.views();
        let ghost k = key.0@;
        let many: usize = match self.buckets.get(key.as_str()) {
            Some(b) => b.weights.len(),
            None => 0,
        };
        if chosen >= many {
            return false;
        }
        let mut b = match self.buckets.remove(key.as_str()) {
            Some(b) => b,
            None => {
                return false;
            },
        };
        let ghost stats_before = b.stats@;
        if chosen < b.stats.len() {
            let mut s = b.stats.remove(chosen);
            if s.tries < u64::MAX {
                s.tries = s.tries + 1;
            }
            s.reward_sum = numbers.sums.0;
            s.reward_sq_sum = numbers.sums.1;
            s.effective_tries = numbers.sums.2;
            s.last_reward = numbers.reward;
            b.stats.insert(chosen, s);
            proof {
                assert(b.stats@ =~= stats_before.update(chosen as int, s));
                assert(stats_views(b.stats@) =~= stats_views(stats_before).update(
                    chosen as int,
                    s.seen(),
                ));
            }
        }
        let moved = nudge_weights(&b.weights, chosen, numbers.moved);
        b.weights = scale_weights(moved, numbers.sum, numbers.shares);
        b.meta_bandit.record(numbers.candidate, &numbers.records, numbers.credit);
        let HierStateKey(text) = key;
        self.buckets.insert(text, b);
        proof {
            assert(self.buckets@ =~= before.insert(k, b));
            assert(self.views() =~= views.insert(k, b.seen()));
            assert(hiers_wf(self.buckets@)) by {
                assert forall|q: Seq<char>| #[trigger] self.buckets@.contains_key(q) implies
                    self.buckets@[q].wf() by {
                    if q != k {
                        assert(before.contains_key(q));
                    }
                }
            }
        }
        true
    }
}

/// What the host computes for the feedback of one level: the level's reward, all
/// weights after it, the chosen option's sums with it, and the portfolio's
/// records after fading with the credit of the candidate that chose.
#[derive(Debug)]
pub struct LevelNumbers {
    pub reward: Real,
    pub moved: Real,
    pub sum: Real,
    pub shares: Vec<Real>,
    pub sums: (Real, Real, Real),
    pub candidate: CandidateId,
    pub records: Vec<(Real, Real)>,
    pub credit: (Real, Real),
}

/// The statistics of the chosen option after a level's feedback.
pub open spec fn hier_stats(s: StatsView, n: LevelNumbers) -> StatsView {
    StatsView {
        tries: if s.tries < u64::MAX {
            (s.tries + 1) as u64
        } else {
            s.tries
        },
        reward_sum: n.sums.0,
        reward_sq_sum: n.sums.1,
        effective_tries: n.sums.2,
        last_reward: n.reward,
        ..s
    }
}

/// The weights with the chosen one moved, and none below the least that an option
/// may have.
pub open spec fn nudged(w: Seq<Real>, chosen: int, moved: Real) -> Seq<Real> {
    Seq::new(
        w.len(),
        |i: int|
            lifted(
                if i == chosen {
                    moved
                } else {
                    w[i]
                },
            ),
    )
}

/// A weight that is not below the least that an option may have.
pub open spec fn lifted(w: Real) -> Real {
    if w.below(Real { bits: R_1EM06 }) {
        Real { bits: R_1EM06 }
    } else {
        w
    }
}

/// The weights with the chosen one moved, and none below the least that an option
/// may have.
pub fn nudge_weights(w: &Vec<Real>, chosen: usize, moved: Real) -> (r: Vec<Real>)
    ensures
        r@ == nudged(w@, chosen as int, moved),
{
    let mut r: Vec<Real> = Vec::new();
    let mut i: usize = 0;
    while i < w.len()
        invariant
            i <= w.len(),
            r@.len() == i,
            forall|k: int| 0 <= k < i ==> r@[k] == nudged(w@, chosen as int, moved)[k],
        decreases w.len() - i,
    {
        let x = if i == chosen {
            moved
        } else {
            w[i]
        };
        if x.lt(Real { bits: R_1EM06 }) {
            r.push(Real { bits: R_1EM06 });
        } else {
            r.push(x);
        }
        i = i + 1;
    }
    assert(r@ =~= nudged(w@, chosen as int, moved));
    r
}

/// A bucket after its level's feedback: the weights, the chosen option's
/// statistics and one more round.
pub open spec fn level_after(b: HierView, chosen: int, n: LevelNumbers) -> HierView {
    HierView {
        weights: scaled_weights(nudged(b.weights, chosen, n.moved), n.sum, n.shares@),
        stats: if chosen < b.stats.len() {
            b.stats.update(chosen, hier_stats(b.stats[chosen], n))
        } else {
            b.stats
        },
        meta_bandit: BanditView {
            total_rounds: (b.meta_bandit.total_rounds + 1) as u64,
            candidates: credited(b.meta_bandit, n),
            ..b.meta_bandit
        },
    }
}

/// The records of a portfolio after a round.
pub open spec fn credited(m: BanditView, n: LevelNumbers) -> Seq<CandidateRecord> {
    let c = if m.forgetting_factor.below(Real { bits: ONE }) {
        faded(m.candidates, n.records@)
    } else {
        m.candidates
    };
    let at = record_of(m.candidates, n.candidate, 0);
    if at < c.len() {
        c.update(
            at,
            CandidateRecord { id: n.candidate, trials: n.credit.0, cumulative_reward: n.credit.1 },
        )
    } else {
        c
    }
}

proof fn tree_at_prefix(t: Tree, path: Seq<usize>, prefix: Seq<usize>, n: int)
    requires
        0 <= n <= prefix.len() <= path.len(),
        prefix == path.take(prefix.len() as int),
    ensures
        tree_at(t, path, n) == tree_at(t, prefix, n),
    decreases n,
{
    if n > 0 {
        tree_at_prefix(t, path, prefix, n - 1);
        assert(prefix[n - 1] == path[n - 1]);
    }
}

/// The decision that a path leads to.
pub fn resolve_sub_spec<'a>(spec: &'a HierarchicalSpec, prefix: &Vec<usize>) -> (r: Option<
    &'a HierarchicalSpec,
>)
    ensures
        match tree_at(tree(*spec), prefix@, prefix@.len() as int) {
            Some(t) => r is Some && tree(*r->Some_0) == t,
            None => r is None,
        },
{
    let mut cur = spec;
    let mut i: usize = 0;
    while i < prefix.len()
        invariant
            i <= prefix.len(),
            tree_at(tree(*spec), prefix@, i as int) == Some(tree(*cur)),
        decreases prefix.len() - i,
    {
        let at: usize = prefix[i];
        if at >= cur.options.len() {
            proof {
                lost_for_good(tree(*spec), prefix@, i + 1, prefix@.len() as int);
            }
            return None;
        }
        assert(tree(*cur).options[at as int] == twig(cur.options@[at as int]));
        match cur.options[at].sub_capsule() {
            Some(sub) => {
                cur = sub;
            },
            None => {
                proof {
                    lost_for_good(tree(*spec), prefix@, i + 1, prefix@.len() as int);
                }
                return None;
            },
        }
        i = i + 1;
    }
    Some(cur)
}

proof fn lost_for_good(t: Tree, path: Seq<usize>, i: int, n: int)
    requires
        0 <= i <= n,
        tree_at(t, path, i) is None,
    ensures
        tree_at(t, path, n) is None,
    decreases n,
{
    if i < n {
        lost_for_good(t, path, i, n - 1);
    }
}

} // verus!
