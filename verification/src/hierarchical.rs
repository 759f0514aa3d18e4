//! Decisions within decisions: trees of options.
use crate::json::{Js, Json, empty_object, js, jss, no_fields, put, real_js, reals_js};
use crate::json_text::reversed;
use crate::number::Real;
use crate::parse::{trim, trimmed};
use crate::strings::{cat3, cat4, cat5, char_count, ends};
use crate::text::{dec, same, u64_text};
use vstd::prelude::*;
use vstd::string::StringExecFns;

verus! {

/// The most levels that a tree may have.
pub const MAX_DEPTH: usize = 4;

/// The most leaves that a tree may have.
pub const MAX_LEAVES: usize = 256;

/// The least number of options on each level.
pub const MIN_OPTIONS_PER_LEVEL: usize = 2;

#[derive(Clone, Copy, Debug, PartialEq, Eq, Structural)]
pub enum RewardKind {
    Bernoulli,
    Continuous,
    SparseContinuous,
}

#[derive(Clone, Copy, Debug)]
pub struct RewardSpec {
    pub kind: RewardKind,
    pub range: Option<[Real; 2]>,
}

/// How the reward of a leaf reaches the levels above it.
#[derive(Clone, Copy, Debug, PartialEq, Eq, Structural)]
pub enum RewardPropagation {
    /// The same on every level.
    Full,
    /// Times the factor for each level up.
    Discounted { factor: Real },
}

impl Default for RewardPropagation {
    fn default() -> (p: Self)
        ensures
            p == RewardPropagation::Full,
    {
        RewardPropagation::Full
    }
}

/// An option: an action, or a decision of its own.
#[derive(Debug)]
pub enum HierarchicalOption {
    Branch { name: String, sub_capsule: Box<HierarchicalSpec> },
    Leaf { name: String },
    BareLeaf(String),
}

/// A tree of options.
#[derive(Debug)]
pub struct HierarchicalSpec {
    pub options: Vec<HierarchicalOption>,
    pub reward: RewardSpec,
    pub reward_propagation: Option<RewardPropagation>,
}

/// A path from the root, as the places of the options along it.
pub type DecisionPath = Vec<usize>;

/// One decision along a path: its depth, how it is reached, and how many options
/// it has.
#[derive(Debug)]
pub struct HierState {
    pub depth: usize,
    pub parent_option_path: Vec<usize>,
    pub branching_factor: usize,
}

/// A decision that was made, for later feedback.
#[derive(Debug)]
pub struct HierarchicalDecision {
    pub path: DecisionPath,
    pub leaf_name: String,
    pub per_level_candidate_ids: Vec<String>,
}

/// A tree with texts and lists as sequences. The two ways of writing a leaf are
/// the same leaf.
pub struct Tree {
    pub options: Seq<Twig>,
    pub reward: RewardSpec,
    pub reward_propagation: Option<RewardPropagation>,
}

pub enum Twig {
    Branch(Seq<char>, Box<Tree>),
    Leaf(Seq<char>),
}

pub open spec fn tree(s: HierarchicalSpec) -> Tree
    decreases s,
{
    Tree {
        options: twigs(s.options@),
        reward: s.reward,
        reward_propagation: s.reward_propagation,
    }
}

pub open spec fn twig(o: HierarchicalOption) -> Twig
    decreases o,
{
    match o {
        HierarchicalOption::Branch { name, sub_capsule } => Twig::Branch(
            name@,
            Box::new(tree(*sub_capsule)),
        ),
        HierarchicalOption::Leaf { name } => Twig::Leaf(name@),
        HierarchicalOption::BareLeaf(name) => Twig::Leaf(name@),
    }
}

pub open spec fn twigs(s: Seq<HierarchicalOption>) -> Seq<Twig>
    decreases s,
{
    Seq::new(
        s.len(),
        |i: int|
            if 0 <= i < s.len() {
                twig(s[i])
            } else {
                Twig::Leaf(Seq::empty())
            },
    )
}

impl Twig {
    pub open spec fn name(self) -> Seq<char> {
        match self {
            Twig::Branch(n, _) => n,
            Twig::Leaf(n) => n,
        }
    }

    pub open spec fn sub(self) -> Option<Tree> {
        match self {
            Twig::Branch(_, t) => Some(*t),
            Twig::Leaf(_) => None,
        }
    }
}

impl HierarchicalOption {
    pub fn name(&self) -> (s: &str)
        ensures
            s@ == twig(*self).name(),
    {
        match self {
            HierarchicalOption::BareLeaf(n) => n.as_str(),
            HierarchicalOption::Leaf { name } => name.as_str(),
            HierarchicalOption::Branch { name, .. } => name.as_str(),
        }
    }

    /// The decision that the option is, if it is one.
    pub fn sub_capsule(&self) -> (r: Option<&HierarchicalSpec>)
        ensures
            match twig(*self).sub() {
                Some(t) => r is Some && tree(*r->Some_0) == t,
                None => r is None,
            },
            r matches Some(s) ==> (self matches HierarchicalOption::Branch { sub_capsule, .. }
                && *s == *sub_capsule),
    {
        match self {
            HierarchicalOption::Branch { sub_capsule, .. } => Some(&**sub_capsule),
            _ => None,
        }
    }

    pub fn is_leaf(&self) -> (b: bool)
        ensures
            b == (twig(*self) is Leaf),
    {
        match self {
            HierarchicalOption::Branch { .. } => false,
            _ => true,
        }
    }
}

// Checking

/// What is wrong with the rewards of a level.
pub open spec fn reward_fault(r: RewardSpec, depth: int) -> Option<Seq<char>> {
    if r.kind == RewardKind::Bernoulli {
        None
    } else {
        match r.range {
            None => Some(
                "reward at depth "@ + dec(depth) + " requires range when type is continuous"@,
            ),
            Some(b) => if !(b@[0].spec_is_finite() && b@[1].spec_is_finite()) {
                Some("reward.range at depth "@ + dec(depth) + " is not finite"@)
            } else if b@[1].at_most(b@[0]) {
                Some("reward.range at depth "@ + dec(depth) + " must satisfy lo < hi"@)
            } else {
                None
            },
        }
    }
}

fn validate_reward(reward: &RewardSpec, depth: usize) -> (r: Result<(), String>)
    ensures
        match reward_fault(*reward, depth as int) {
            Some(e) => r is Err && r->Err_0@ == e,
            None => r is Ok,
        },
{
    let d = u64_text(depth as u64);
    match reward.kind {
        RewardKind::Bernoulli => Ok(()),
        _ => match reward.range {
            None => Err(
                cat3(
                    "reward at depth ",
                    d.as_str(),
                    " requires range when type is continuous",
                ),
            ),
            Some(b) => if !(b[0].is_finite() && b[1].is_finite()) {
                Err(cat3("reward.range at depth ", d.as_str(), " is not finite"))
            } else if b[1].le(b[0]) {
                Err(cat3("reward.range at depth ", d.as_str(), " must satisfy lo < hi"))
            } else {
                Ok(())
            },
        },
    }
}

/// One of the first `n` options has this name.
pub open spec fn name_taken(s: Seq<Twig>, n: int, name: Seq<char>) -> bool {
    exists|i: int| 0 <= i < n && (#[trigger] s[i]).name() == name
}

/// What is wrong with the first `n` options of a level.
pub open spec fn options_fault(s: Seq<Twig>, n: nat, depth: int) -> Option<Seq<char>>
    decreases s, n, 0int,
{
    if n == 0 || n > s.len() {
        None
    } else {
        match options_fault(s, (n - 1) as nat, depth) {
            Some(e) => Some(e),
            None => {
                let o = s[n - 1];
                if trimmed(o.name()).len() == 0 {
                    Some(
                        "option["@ + dec(n - 1) + "] at depth "@ + dec(depth) + " has empty name"@,
                    )
                } else if name_taken(s, n - 1, o.name()) {
                    Some("duplicate option name '"@ + o.name() + "' at depth "@ + dec(depth))
                } else {
                    match o {
                        Twig::Branch(_, sub) => level_fault(*sub, depth + 1),
                        Twig::Leaf(_) => None,
                    }
                }
            },
        }
    }
}

/// What is wrong with a level or below it; the root is at depth one.
pub open spec fn level_fault(t: Tree, depth: int) -> Option<Seq<char>>
    decreases t, 0nat, 1int,
{
    if depth > MAX_DEPTH {
        Some("hierarchical spec depth "@ + dec(depth) + " exceeds maximum 4"@)
    } else if t.options.len() < MIN_OPTIONS_PER_LEVEL {
        Some(
            "level at depth "@ + dec(depth) + " has "@ + dec(t.options.len() as int)
                + " option(s); minimum is 2"@,
        )
    } else {
        match options_fault(t.options, t.options.len(), depth) {
            Some(e) => Some(e),
            None => reward_fault(t.reward, depth),
        }
    }
}

/// The number of leaves of the first `n` options.
pub open spec fn leaves_of(s: Seq<Twig>, n: nat) -> nat
    decreases s, n, 0int,
{
    if n == 0 || n > s.len() {
        0
    } else {
        leaves_of(s, (n - 1) as nat) + (match s[n - 1] {
            Twig::Branch(_, sub) => leaves(*sub),
            Twig::Leaf(_) => 1,
        })
    }
}

/// The number of leaves of a tree.
pub open spec fn leaves(t: Tree) -> nat
    decreases t, 0nat, 1int,
{
    leaves_of(t.options, t.options.len())
}

/// What is wrong with a tree.
pub open spec fn tree_fault(t: Tree) -> Option<Seq<char>> {
    match level_fault(t, 1) {
        Some(e) => Some(e),
        None => if leaves(t) > MAX_LEAVES {
            Some("total leaf count "@ + dec(leaves(t) as int) + " exceeds maximum 256"@)
        } else {
            None
        },
    }
}

proof fn fault_stays(s: Seq<Twig>, i: nat, n: nat, depth: int)
    requires
        i <= n <= s.len(),
        options_fault(s, i, depth) is Some,
    ensures
        options_fault(s, n, depth) == options_fault(s, i, depth),
    decreases n,
{
    if i < n {
        fault_stays(s, i, (n - 1) as nat, depth);
    }
}

proof fn leaves_grow(s: Seq<Twig>, i: nat, n: nat)
    requires
        i <= n <= s.len(),
    ensures
        leaves_of(s, i) <= leaves_of(s, n),
    decreases n,
{
    if i < n {
        leaves_grow(s, i, (n - 1) as nat);
    }
}

/// The greater number.
pub open spec fn larger(a: nat, b: nat) -> nat {
    if a < b {
        b
    } else {
        a
    }
}

/// The greatest depth below the first `n` options.
pub open spec fn depth_of(s: Seq<Twig>, n: nat) -> nat
    decreases s, n, 0int,
{
    if n == 0 || n > s.len() {
        0
    } else {
        larger(
            depth_of(s, (n - 1) as nat),
            match s[n - 1] {
                Twig::Branch(_, sub) => depth(*sub),
                Twig::Leaf(_) => 0,
            },
        )
    }
}

/// The number of levels of a tree.
pub open spec fn depth(t: Tree) -> nat
    decreases t, 0nat, 1int,
{
    1 + depth_of(t.options, t.options.len())
}

impl HierarchicalSpec {
    /// Checks the depth, the number of options, their names, the rewards and the
    /// number of leaves.
    pub fn validate(&self) -> (r: Result<(), String>)
        requires
            leaves(tree(*self)) <= usize::MAX,
        ensures
            match tree_fault(tree(*self)) {
                Some(e) => r is Err && r->Err_0@ == e,
                None => r is Ok,
            },
    {
        match self.validate_at(1) {
            Err(e) => Err(e),
            Ok(_) => {
                let n: usize = self.count_leaves();
                if n > MAX_LEAVES {
                    Err(
                        cat3(
                            "total leaf count ",
                            u64_text(n as u64).as_str(),
                            " exceeds maximum 256",
                        ),
                    )
                } else {
                    Ok(())
                }
            },
        }
    }

    fn validate_at(&self, depth: usize) -> (r: Result<(), String>)
        requires
            depth <= MAX_DEPTH + 1,
        ensures
            match level_fault(tree(*self), depth as int) {
                Some(e) => r is Err && r->Err_0@ == e,
                None => r is Ok,
            },
        decreases self,
    {
        let ghost all = tree(*self).options;
        let d = u64_text(depth as u64);
        if depth > MAX_DEPTH {
            return Err(
                cat3("hierarchical spec depth ", d.as_str(), " exceeds maximum 4"),
            );
        }
        if self.options.len() < MIN_OPTIONS_PER_LEVEL {
            return Err(
                cat5(
                    "level at depth ",
                    d.as_str(),
                    " has ",
                    u64_text(self.options.len() as u64).as_str(),
                    " option(s); minimum is 2",
                ),
            );
        }
        let mut i: usize = 0;
        while i < self.options.len()
            invariant
                i <= self.options.len(),
                depth <= MAX_DEPTH,
                self.options.len() >= MIN_OPTIONS_PER_LEVEL,
                all == tree(*self).options,
                all.len() == self.options@.len(),
                d@ == dec(depth as int),
                options_fault(all, i as nat, depth as int) is None,
            decreases self.options.len() - i,
        {
            assert(decreases_to!(self => self.options@));
            assert(decreases_to!(self.options@ => self.options@[i as int]));
            assert(all[i as int] == twig(self.options@[i as int]));
            let ghost whole = level_fault(tree(*self), depth as int);
            let option = &self.options[i];
            let name = option.name();
            if char_count(trim(name).as_str()) == 0 {
                proof {
                    fault_stays(all, (i + 1) as nat, all.len(), depth as int);
                }
                return Err(
                    cat5(
                        "option[",
                        u64_text(i as u64).as_str(),
                        "] at depth ",
                        d.as_str(),
                        " has empty name",
                    ),
                );
            }
            let mut k: usize = 0;
            let mut taken = false;
            while k < i && !taken
                invariant
                    k <= i < self.options.len(),
                    all == tree(*self).options,
                    all.len() == self.options@.len(),
                    taken ==> name_taken(all, i as int, name@),
                    !taken ==> forall|m: int| 0 <= m < k ==> (#[trigger] all[m]).name() != name@,
                decreases i - k, if taken { 0int } else { 1int },
            {
                assert(all[k as int] == twig(self.options@[k as int]));
                if same(self.options[k].name(), name) {
                    taken = true;
                    assert(all[k as int].name() == name@);
                } else {
                    k = k + 1;
                }
            }
            if taken {
                proof {
                    fault_stays(all, (i + 1) as nat, all.len(), depth as int);
                }
                return Err(
                    cat4("duplicate option name '", name, "' at depth ", d.as_str()),
                );
            }
            if let Some(sub) = option.sub_capsule() {
                match sub.validate_at(depth + 1) {
                    Ok(_) => {},
                    Err(e) => {
                        proof {
                            fault_stays(all, (i + 1) as nat, all.len(), depth as int);
                        }
                        return Err(e);
                    },
                }
            }
            i = i + 1;
        }
        validate_reward(&self.reward, depth)
    }

    /// The number of leaves.
    pub fn count_leaves(&self) -> (n: usize)
        requires
            leaves(tree(*self)) <= usize::MAX,
        ensures
            n == leaves(tree(*self)),
        decreases self,
    {
        let ghost all = tree(*self).options;
        let mut n: usize = 0;
        let mut i: usize = 0;
        while i < self.options.len()
            invariant
                i <= self.options.len(),
                all == tree(*self).options,
                all.len() == self.options@.len(),
                leaves_of(all, all.len()) <= usize::MAX,
                n == leaves_of(all, i as nat),
            decreases self.options.len() - i,
        {
            assert(decreases_to!(self => self.options@));
            assert(decreases_to!(self.options@ => self.options@[i as int]));
            assert(all[i as int] == twig(self.options@[i as int]));
            proof {
                leaves_grow(all, (i + 1) as nat, all.len());
            }
            n = match self.options[i].sub_capsule() {
                Some(sub) => n + sub.count_leaves(),
                None => n + 1,
            };
            i = i + 1;
        }
        n
    }

    /// The option that a path leads to; nothing where it leads nowhere, ends on a
    /// decision or goes on behind a leaf.
    pub fn resolve_path(&self, path: &DecisionPath) -> (r: Option<&str>)
        ensures
            match leaf_at(tree(*self), path@) {
                Some(n) => r is Some && r->Some_0@ == n,
                None => r is None,
            },
    {
        let mut cur = self;
        let mut i: usize = 0;
        assert(path@.skip(0) =~= path@);
        while i < path.len()
            invariant
                i <= path.len(),
                leaf_at(tree(*self), path@) == leaf_at(tree(*cur), path@.skip(i as int)),
            decreases path.len() - i,
        {
            let ghost rest = path@.skip(i as int);
            assert(rest[0] == path@[i as int]);
            assert(rest.drop_first() =~= path@.skip(i + 1));
            let at: usize = path[i];
            if at >= cur.options.len() {
                return None;
            }
            assert(tree(*cur).options[at as int] == twig(cur.options@[at as int]));
            let option = &cur.options[at];
            match option.sub_capsule() {
                Some(sub) => {
                    cur = sub;
                    i = i + 1;
                },
                None => {
                    if i == path.len() - 1 {
                        return Some(option.name());
                    }
                    return None;
                },
            }
        }
        None
    }

    /// One state for each level along a path; none where the path leads to no
    /// leaf.
    pub fn state_keys_for_path(&self, path: &DecisionPath) -> (r: Vec<HierState>)
        ensures
            states_match(r@, tree(*self), path@),
    {
        let mut out: Vec<HierState> = Vec::new();
        if self.resolve_path(path).is_none() {
            return out;
        }
        let mut cur = self;
        let mut i: usize = 0;
        assert(path@.skip(0) =~= path@);
        while i < path.len()
            invariant
                i <= path.len(),
                leaf_at(tree(*self), path@) is Some,
                i < path.len() ==> tree_at(tree(*self), path@, i as int) == Some(tree(*cur)),
                i < path.len() ==> leaf_at(tree(*cur), path@.skip(i as int)) is Some,
                out@.len() == i,
                forall|k: int|
                    0 <= k < i ==> state_matches(#[trigger] out@[k], tree(*self), path@, k),
            decreases path.len() - i,
        {
            let ghost rest = path@.skip(i as int);
            assert(rest[0] == path@[i as int]);
            assert(rest.drop_first() =~= path@.skip(i + 1));
            let at: usize = path[i];
            assert(tree(*cur).options[at as int] == twig(cur.options@[at as int]));
            let mut parents: Vec<usize> = Vec::new();
            let mut k: usize = 0;
            while k < i
                invariant
                    k <= i <= path.len(),
                    parents@ == path@.take(k as int),
                decreases i - k,
            {
                parents.push(path[k]);
                k = k + 1;
                assert(path@.take(k as int) =~= path@.take(k - 1).push(path@[k - 1]));
            }
            out.push(
                HierState {
                    depth: i,
                    parent_option_path: parents,
                    branching_factor: cur.options.len(),
                },
            );
            if let Some(sub) = cur.options[at].sub_capsule() {
                cur = sub;
            }
            i = i + 1;
        }
        out
    }

    /// The tree as JSON.
    pub fn to_json(&self) -> (j: Json)
        ensures
            js(j) == tree_js(tree(*self)),
        decreases self,
    {
        let ghost all = tree(*self).options;
        let mut a: Vec<Json> = Vec::new();
        let mut i: usize = 0;
        while i < self.options.len()
            invariant
                i <= self.options.len(),
                all == tree(*self).options,
                all.len() == self.options@.len(),
                a@.len() == i,
                forall|k: int| 0 <= k < i ==> js(#[trigger] a@[k]) == twig_js(all[k]),
            decreases self.options.len() - i,
        {
            assert(decreases_to!(self => self.options@));
            assert(decreases_to!(self.options@ => self.options@[i as int]));
            assert(all[i as int] == twig(self.options@[i as int]));
            let mut o = empty_object();
            put(&mut o, "name", Json::text(self.options[i].name()));
            if let Some(sub) = self.options[i].sub_capsule() {
                put(&mut o, "subCapsule", sub.to_json());
            }
            a.push(Json::Obj(o));
            i = i + 1;
        }
        assert(jss(a@) =~= twigs_js(all));
        let mut r = empty_object();
        let kind = match self.reward.kind {
            RewardKind::Bernoulli => "bernoulli",
            RewardKind::Continuous => "continuous",
            RewardKind::SparseContinuous => "sparse_continuous",
        };
        put(&mut r, "type", Json::text(kind));
        if let Some(b) = self.reward.range {
            let mut ends: Vec<Real> = Vec::new();
            ends.push(b[0]);
            ends.push(b[1]);
            assert(ends@ =~= seq![b@[0], b@[1]]);
            put(&mut r, "range", Json::reals(&ends));
        }
        let mut o = empty_object();
        put(&mut o, "options", Json::Arr(a));
        put(&mut o, "reward", Json::Obj(r));
        match self.reward_propagation {
            None => {},
            Some(p) => {
                let mut q = empty_object();
                match p {
                    RewardPropagation::Full => {
                        put(&mut q, "mode", Json::text("full"));
                    },
                    RewardPropagation::Discounted { factor } => {
                        put(&mut q, "mode", Json::text("discounted"));
                        put(&mut q, "factor", Json::number(factor));
                    },
                }
                put(&mut o, "rewardPropagation", Json::Obj(q));
            },
        }
        Json::Obj(o)
    }

    /// The number of levels.
    pub fn max_depth(&self) -> (n: usize)
        requires
            depth(tree(*self)) <= usize::MAX,
        ensures
            n == depth(tree(*self)),
        decreases self,
    {
        let ghost all = tree(*self).options;
        let mut n: usize = 0;
        let mut i: usize = 0;
        while i < self.options.len()
            invariant
                i <= self.options.len(),
                all == tree(*self).options,
                all.len() == self.options@.len(),
                1 + depth_of(all, all.len()) <= usize::MAX,
                n == depth_of(all, i as nat),
            decreases self.options.len() - i,
        {
            assert(decreases_to!(self => self.options@));
            assert(decreases_to!(self.options@ => self.options@[i as int]));
            assert(all[i as int] == twig(self.options@[i as int]));
            proof {
                depth_grows(all, (i + 1) as nat, all.len());
            }
            if let Some(sub) = self.options[i].sub_capsule() {
                let d: usize = sub.max_depth();
                if n < d {
                    n = d;
                }
            }
            i = i + 1;
        }
        n + 1
    }

    /// All paths from the root to a leaf, in order.
    pub fn enumerate_paths(&self) -> (r: Vec<DecisionPath>)
        ensures
            path_views(r@) == paths(tree(*self)),
            forall|j: int, k: int|
                0 <= j < k < r@.len() ==> path_precedes(#[trigger] r@[j]@, #[trigger] r@[k]@),
    {
        let mut out: Vec<DecisionPath> = Vec::new();
        let mut prefix: Vec<usize> = Vec::new();
        self.enumerate_into(&mut prefix, &mut out);
        proof {
            let p = paths(tree(*self));
            assert(with_prefix(Seq::<usize>::empty(), p) =~= p) by {
                assert forall|i: int| 0 <= i < p.len() implies Seq::<usize>::empty() + #[trigger] p[i]
                    == p[i] by {
                    assert(Seq::<usize>::empty() + p[i] =~= p[i]);
                }
            }
            assert(path_views(out@) =~= p);
            trees_fit(*self);
            assert forall|j: int, k: int| 0 <= j < k < out@.len() implies path_precedes(
                #[trigger] out@[j]@,
                #[trigger] out@[k]@,
            ) by {
                listed_paths_grow(tree(*self), j, k);
                assert(path_views(out@)[j] == out@[j]@);
                assert(path_views(out@)[k] == out@[k]@);
            }
        }
        out
    }

    fn enumerate_into(&self, prefix: &mut Vec<usize>, out: &mut Vec<DecisionPath>)
        ensures
            final(prefix)@ == old(prefix)@,
            path_views(final(out)@) == path_views(old(out)@) + with_prefix(
                old(prefix)@,
                paths(tree(*self)),
            ),
        decreases self,
    {
        let ghost all = tree(*self).options;
        let ghost p = prefix@;
        let ghost before = path_views(out@);
        let many: usize = self.options.len();
        let mut i: usize = 0;
        assert(before + with_prefix(p, paths_of(all, 0)) =~= before);
        while i < many
            invariant
                i <= many,
                many == self.options@.len(),
                all == tree(*self).options,
                all.len() == many,
                prefix@ == p,
                path_views(out@) == before + with_prefix(p, paths_of(all, i as nat)),
            decreases many - i,
        {
            assert(decreases_to!(self => self.options@));
            assert(decreases_to!(self.options@ => self.options@[i as int]));
            assert(all[i as int] == twig(self.options@[i as int]));
            let ghost done = paths_of(all, i as nat);
            let ghost so_far = path_views(out@);
            prefix.push(i);
            match self.options[i].sub_capsule() {
                Some(sub) => {
                    sub.enumerate_into(prefix, out);
                    proof {
                        let q = paths(tree(*sub));
                        let more = q.map_values(|x: Seq<usize>| seq![i] + x);
                        prefixes_join(p, i, q);
                        prefixes_split(p, done, more);
                        assert(before + with_prefix(p, done) + with_prefix(p, more) =~= before
                            + with_prefix(p, done + more));
                    }
                },
                None => {
                    let mut c: Vec<usize> = Vec::new();
                    let mut k: usize = 0;
                    while k < prefix.len()
                        invariant
                            k <= prefix.len(),
                            c@ == prefix@.take(k as int),
                        decreases prefix.len() - k,
                    {
                        c.push(prefix[k]);
                        k = k + 1;
                        assert(prefix@.take(k as int) =~= prefix@.take(k - 1).push(prefix@[k - 1]));
                    }
                    assert(c@ =~= prefix@);
                    out.push(c);
                    proof {
                        let more = seq![seq![i]];
                        assert(p + seq![i] =~= p.push(i));
                        assert(path_views(out@) =~= so_far.push(p.push(i)));
                        assert(with_prefix(p, more) =~= seq![p.push(i)]);
                        prefixes_split(p, done, more);
                        assert(path_views(out@) =~= before + with_prefix(p, done + more));
                    }
                },
            }
            let _ = prefix.pop();
            assert(prefix@ =~= p);
            i = i + 1;
        }
    }
}

pub open spec fn path_views(s: Seq<Vec<usize>>) -> Seq<Seq<usize>> {
    s.map_values(|v: Vec<usize>| v@)
}

/// The paths, each behind a prefix.
pub open spec fn with_prefix(p: Seq<usize>, s: Seq<Seq<usize>>) -> Seq<Seq<usize>> {
    s.map_values(|x: Seq<usize>| p + x)
}

proof fn prefixes_split(p: Seq<usize>, a: Seq<Seq<usize>>, b: Seq<Seq<usize>>)
    ensures
        with_prefix(p, a + b) == with_prefix(p, a) + with_prefix(p, b),
{
    assert(with_prefix(p, a + b) =~= with_prefix(p, a) + with_prefix(p, b));
}

proof fn prefixes_join(p: Seq<usize>, i: usize, q: Seq<Seq<usize>>)
    ensures
        with_prefix(p.push(i), q) == with_prefix(p, q.map_values(|x: Seq<usize>| seq![i] + x)),
{
    let more = q.map_values(|x: Seq<usize>| seq![i] + x);
    assert forall|k: int| 0 <= k < q.len() implies p.push(i) + #[trigger] q[k] == p + more[k] by {
        assert(p.push(i) + q[k] =~= p + (seq![i] + q[k]));
    }
    assert(with_prefix(p.push(i), q) =~= with_prefix(p, more));
}

proof fn depth_grows(s: Seq<Twig>, i: nat, n: nat)
    requires
        i <= n <= s.len(),
    ensures
        depth_of(s, i) <= depth_of(s, n),
    decreases n,
{
    if i < n {
        depth_grows(s, i, (n - 1) as nat);
    }
}

/// The paths to the leaves below the first `n` options.
pub open spec fn paths_of(s: Seq<Twig>, n: nat) -> Seq<Seq<usize>>
    decreases s, n, 0int,
{
    if n == 0 || n > s.len() {
        Seq::empty()
    } else {
        let i = (n - 1) as usize;
        paths_of(s, (n - 1) as nat) + (match s[n - 1] {
            Twig::Branch(_, sub) => paths(*sub).map_values(|x: Seq<usize>| seq![i] + x),
            Twig::Leaf(_) => seq![seq![i]],
        })
    }
}

/// The paths from the root to the leaves, in order.
pub open spec fn paths(t: Tree) -> Seq<Seq<usize>>
    decreases t, 0nat, 1int,
{
    paths_of(t.options, t.options.len())
}

/// The leaf that a path leads to.
pub open spec fn leaf_at(t: Tree, path: Seq<usize>) -> Option<Seq<char>>
    decreases path.len(),
{
    if path.len() == 0 || path[0] >= t.options.len() {
        None
    } else {
        match t.options[path[0] as int] {
            Twig::Branch(_, sub) => leaf_at(*sub, path.drop_first()),
            Twig::Leaf(n) => if path.len() == 1 {
                Some(n)
            } else {
                None
            },
        }
    }
}

/// The decision that the first `n` steps of a path lead to.
pub open spec fn tree_at(t: Tree, path: Seq<usize>, n: int) -> Option<Tree>
    decreases n,
{
    if n <= 0 {
        Some(t)
    } else {
        match tree_at(t, path, n - 1) {
            Some(u) => if path[n - 1] < u.options.len() {
                u.options[path[n - 1] as int].sub()
            } else {
                None
            },
            None => None,
        }
    }
}

/// A state is that of the decision at a level of a path.
pub open spec fn state_matches(s: HierState, t: Tree, path: Seq<usize>, level: int) -> bool {
    &&& s.depth == level
    &&& s.parent_option_path@ == path.take(level)
    &&& tree_at(t, path, level) is Some
    &&& s.branching_factor == tree_at(t, path, level)->Some_0.options.len()
}

/// The states of all levels of a path that leads to a leaf; none for any other.
pub open spec fn states_match(s: Seq<HierState>, t: Tree, path: Seq<usize>) -> bool {
    if leaf_at(t, path) is Some {
        s.len() == path.len() && forall|k: int|
            0 <= k < s.len() ==> state_matches(#[trigger] s[k], t, path, k)
    } else {
        s.len() == 0
    }
}

/// The reward of a level: known, or a power of the factor times the reward.
#[derive(Clone, Copy, Debug, PartialEq, Eq, Structural)]
pub enum LevelReward {
    Known(Real),
    Discounted { reward: Real, factor: Real, power: usize },
}

/// The reward of level `i` of `n`.
pub open spec fn level_reward(p: Option<RewardPropagation>, reward: Real, i: int, n: int) -> LevelReward {
    match p {
        Some(RewardPropagation::Discounted { factor }) => LevelReward::Discounted {
            reward,
            factor,
            power: (n - 1 - i) as usize,
        },
        _ => LevelReward::Known(reward),
    }
}

/// What a reward comes to on each level along a path; nothing where the path
/// leads to no leaf.
pub fn propagate_reward(spec: &HierarchicalSpec, path: &DecisionPath, reward: Real) -> (r: Vec<
    (HierState, LevelReward),
>)
    ensures
        leaf_at(tree(*spec), path@) is None ==> r@.len() == 0,
        leaf_at(tree(*spec), path@) is Some ==> r@.len() == path@.len() && forall|k: int|
            0 <= k < r@.len() ==> state_matches((#[trigger] r@[k]).0, tree(*spec), path@, k)
                && r@[k].1 == level_reward(
                spec.reward_propagation,
                reward,
                k,
                path@.len() as int,
            ),
{
    let states = spec.state_keys_for_path(path);
    let n: usize = states.len();
    let ghost all = states@;
    let mut left = reversed(states);
    let mut r: Vec<(HierState, LevelReward)> = Vec::new();
    while left.len() > 0
        invariant
            left@.len() + r@.len() == n,
            n == all.len(),
            forall|k: int| 0 <= k < left@.len() ==> left@[k] == all[n - 1 - k],
            forall|k: int|
                0 <= k < r@.len() ==> (#[trigger] r@[k]).0 == all[k] && r@[k].1 == level_reward(
                    spec.reward_propagation,
                    reward,
                    k,
                    n as int,
                ),
        decreases left@.len(),
    {
        let i: usize = r.len();
        let share = match spec.reward_propagation {
            Some(RewardPropagation::Discounted { factor }) => LevelReward::Discounted {
                reward,
                factor,
                power: n - 1 - i,
            },
            _ => LevelReward::Known(reward),
        };
        if let Some(s) = left.pop() {
            r.push((s, share));
        }
    }
    r
}

// JSON

pub open spec fn kind_word(k: RewardKind) -> Seq<char> {
    match k {
        RewardKind::Bernoulli => "bernoulli"@,
        RewardKind::Continuous => "continuous"@,
        RewardKind::SparseContinuous => "sparse_continuous"@,
    }
}

pub open spec fn reward_js(r: RewardSpec) -> Js {
    let first = no_fields().push(("type"@, Js::Str(kind_word(r.kind))));
    Js::Obj(
        match r.range {
            Some(b) => first.push(("range"@, reals_js(seq![b@[0], b@[1]]))),
            None => first,
        },
    )
}

pub open spec fn propagation_js(p: RewardPropagation) -> Js {
    Js::Obj(
        match p {
            RewardPropagation::Full => no_fields().push(("mode"@, Js::Str("full"@))),
            RewardPropagation::Discounted { factor } => no_fields().push(
                ("mode"@, Js::Str("discounted"@)),
            ).push(("factor"@, real_js(factor))),
        },
    )
}

pub open spec fn twig_js(o: Twig) -> Js
    decreases o,
{
    Js::Obj(
        match o {
            Twig::Leaf(n) => no_fields().push(("name"@, Js::Str(n))),
            Twig::Branch(n, sub) => no_fields().push(("name"@, Js::Str(n))).push(
                ("subCapsule"@, tree_js(*sub)),
            ),
        },
    )
}

pub open spec fn twigs_js(s: Seq<Twig>) -> Seq<Js>
    decreases s,
{
    Seq::new(
        s.len(),
        |i: int|
            if 0 <= i < s.len() {
                twig_js(s[i])
            } else {
                Js::Null
            },
    )
}

pub open spec fn tree_js(t: Tree) -> Js
    decreases t,
{
    let first = no_fields().push(("options"@, Js::Arr(twigs_js(t.options)))).push(
        ("reward"@, reward_js(t.reward)),
    );
    Js::Obj(
        match t.reward_propagation {
            Some(p) => first.push(("rewardPropagation"@, propagation_js(p))),
            None => first,
        },
    )
}

/// Every listed path leads to a leaf.
pub proof fn listed_paths_lead_to_leaves(t: Tree, k: int)
    requires
        0 <= k < paths(t).len(),
        fits(t),
    ensures
        leaf_at(t, paths(t)[k]) is Some,
    decreases t, 1int, 0nat,
{
    listed_below(t, t.options, t.options.len(), k);
}

/// All lists of options are short enough to be counted.
pub open spec fn fits(t: Tree) -> bool
    decreases t, 0nat, 1int,
{
    t.options.len() <= usize::MAX && fits_below(t.options, t.options.len())
}

pub open spec fn fits_below(s: Seq<Twig>, n: nat) -> bool
    decreases s, n, 0int,
{
    if n == 0 || n > s.len() {
        true
    } else {
        fits_below(s, (n - 1) as nat) && (match s[n - 1] {
            Twig::Branch(_, sub) => fits(*sub),
            Twig::Leaf(_) => true,
        })
    }
}

/// The lists of options of every tree are short enough to be counted.
pub proof fn trees_fit(s: HierarchicalSpec)
    ensures
        fits(tree(s)),
    decreases s, s.options@.len() + 1,
{
    assert(s.options.len() <= usize::MAX);
    twigs_fit(s, s.options@.len());
}

proof fn twigs_fit(s: HierarchicalSpec, n: nat)
    requires
        n <= s.options@.len(),
    ensures
        fits_below(tree(s).options, n),
    decreases s, n,
{
    if n > 0 {
        twigs_fit(s, (n - 1) as nat);
        let o = s.options@[n - 1];
        assert(tree(s).options[n - 1] == twig(o));
        if let HierarchicalOption::Branch { name, sub_capsule } = o {
            assert(decreases_to!(s => *sub_capsule));
            trees_fit(*sub_capsule);
        }
    }
}

proof fn listed_below(t: Tree, s: Seq<Twig>, n: nat, k: int)
    requires
        s == t.options,
        n <= s.len() <= usize::MAX,
        fits_below(s, n),
        0 <= k < paths_of(s, n).len(),
    ensures
        leaf_at(t, paths_of(s, n)[k]) is Some,
    decreases t, 0int, n,
{
    if n > 0 {
        let front = paths_of(s, (n - 1) as nat);
        let i = (n - 1) as usize;
        if k < front.len() {
            listed_below(t, s, (n - 1) as nat, k);
            assert(paths_of(s, n)[k] == front[k]);
        } else {
            match s[n - 1] {
                Twig::Branch(_, sub) => {
                    let q = paths(*sub);
                    listed_paths_lead_to_leaves(*sub, k - front.len());
                    let p = paths_of(s, n)[k];
                    assert(p == seq![i] + q[k - front.len()]);
                    assert(p.drop_first() =~= q[k - front.len()]);
                },
                Twig::Leaf(_) => {
                    assert(paths_of(s, n)[k] == seq![i]);
                },
            }
        }
    }
}

/// A path comes before another in the order of their first different steps; a
/// path comes before those that go on from it.
pub open spec fn path_precedes(a: Seq<usize>, b: Seq<usize>) -> bool
    decreases a.len(),
{
    if b.len() == 0 {
        false
    } else if a.len() == 0 {
        true
    } else if a[0] != b[0] {
        a[0] < b[0]
    } else {
        path_precedes(a.drop_first(), b.drop_first())
    }
}

/// Listed paths come in strictly growing order, so none is listed twice.
pub proof fn listed_paths_grow(t: Tree, j: int, k: int)
    requires
        0 <= j < k < paths(t).len(),
        fits(t),
    ensures
        path_precedes(paths(t)[j], paths(t)[k]),
        paths(t)[j] != paths(t)[k],
    decreases t, 1int, 0nat,
{
    grow_below(t, t.options, t.options.len(), j, k);
    nothing_precedes_itself(paths(t)[j]);
}

proof fn nothing_precedes_itself(a: Seq<usize>)
    ensures
        !path_precedes(a, a),
    decreases a.len(),
{
    if a.len() > 0 {
        nothing_precedes_itself(a.drop_first());
    }
}

proof fn starts_below(s: Seq<Twig>, n: nat, k: int)
    requires
        n <= s.len() <= usize::MAX,
        0 <= k < paths_of(s, n).len(),
    ensures
        paths_of(s, n)[k].len() > 0,
        paths_of(s, n)[k][0] < n,
    decreases n,
{
    if n > 0 {
        let front = paths_of(s, (n - 1) as nat);
        if k < front.len() {
            starts_below(s, (n - 1) as nat, k);
            assert(paths_of(s, n)[k] == front[k]);
        } else {
            match s[n - 1] {
                Twig::Branch(_, sub) => {
                    let q = paths(*sub);
                    assert(paths_of(s, n)[k] == seq![(n - 1) as usize] + q[k - front.len()]);
                },
                Twig::Leaf(_) => {
                    assert(paths_of(s, n)[k] == seq![(n - 1) as usize]);
                },
            }
        }
    }
}

proof fn grow_below(t: Tree, s: Seq<Twig>, n: nat, j: int, k: int)
    requires
        s == t.options,
        n <= s.len() <= usize::MAX,
        fits_below(s, n),
        0 <= j < k < paths_of(s, n).len(),
    ensures
        path_precedes(paths_of(s, n)[j], paths_of(s, n)[k]),
    decreases t, 0int, n,
{
    if n > 0 {
        let front = paths_of(s, (n - 1) as nat);
        let i = (n - 1) as usize;
        if k < front.len() {
            grow_below(t, s, (n - 1) as nat, j, k);
            assert(paths_of(s, n)[j] == front[j]);
            assert(paths_of(s, n)[k] == front[k]);
        } else {
            match s[n - 1] {
                Twig::Branch(_, sub) => {
                    let q = paths(*sub);
                    let b = paths_of(s, n)[k];
                    assert(b == seq![i] + q[k - front.len()]);
                    if j < front.len() {
                        starts_below(s, (n - 1) as nat, j);
                        assert(paths_of(s, n)[j] == front[j]);
                    } else {
                        let a = paths_of(s, n)[j];
                        assert(a == seq![i] + q[j - front.len()]);
                        listed_paths_grow(*sub, j - front.len(), k - front.len());
                        assert(a.drop_first() =~= q[j - front.len()]);
                        assert(b.drop_first() =~= q[k - front.len()]);
                    }
                },
                Twig::Leaf(_) => {
                    assert(paths_of(s, n)[k] == seq![i]);
                    assert(j < front.len());
                    starts_below(s, (n - 1) as nat, j);
                    assert(paths_of(s, n)[j] == front[j]);
                },
            }
        }
    }
}

/// There are as many listed paths as leaves.
pub proof fn every_leaf_has_its_path(t: Tree)
    ensures
        paths(t).len() == leaves(t),
    decreases t, 0nat, 1int,
{
    as_many_below(t.options, t.options.len());
}

proof fn as_many_below(s: Seq<Twig>, n: nat)
    ensures
        paths_of(s, n).len() == leaves_of(s, n),
    decreases s, n, 0int,
{
    if 0 < n <= s.len() {
        as_many_below(s, (n - 1) as nat);
        if let Twig::Branch(_, sub) = s[n - 1] {
            every_leaf_has_its_path(*sub);
        }
    }
}

/// Every path that leads to a leaf is listed.
pub proof fn paths_to_leaves_are_listed(t: Tree, path: Seq<usize>)
    requires
        leaf_at(t, path) is Some,
    ensures
        paths(t).contains(path),
    decreases path.len(),
{
    let i = path[0];
    match t.options[i as int] {
        Twig::Branch(_, sub) => {
            paths_to_leaves_are_listed(*sub, path.drop_first());
            let q = paths(*sub);
            let k = choose|k: int| 0 <= k < q.len() && q[k] == path.drop_first();
            let here = q.map_values(|x: Seq<usize>| seq![i] + x);
            assert(here[k] =~= path);
            let front = paths_of(t.options, i as nat);
            let all = paths_of(t.options, (i + 1) as nat);
            assert(((i + 1) - 1) as usize == i);
            assert(all == front + here);
            assert(all[front.len() + k] == path);
        },
        Twig::Leaf(_) => {
            let front = paths_of(t.options, i as nat);
            let all = paths_of(t.options, (i + 1) as nat);
            assert(path =~= seq![i]);
            assert(all == front + seq![seq![i]]);
            assert(all[front.len() as int] == path);
        },
    }
    listed_stay_listed(t.options, (i + 1) as nat, t.options.len(), path);
}

proof fn listed_stay_listed(s: Seq<Twig>, a: nat, b: nat, path: Seq<usize>)
    requires
        a <= b <= s.len(),
        paths_of(s, a).contains(path),
    ensures
        paths_of(s, b).contains(path),
    decreases b,
{
    if a < b {
        listed_stay_listed(s, a, (b - 1) as nat, path);
        let front = paths_of(s, (b - 1) as nat);
        let k = choose|k: int| 0 <= k < front.len() && front[k] == path;
        assert(paths_of(s, b)[k] == path);
    }
}

} // verus!
