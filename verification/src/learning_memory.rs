//! The memory of a capsule: a bucket of statistics for each context, and its
//! JSON.
use crate::conformal::{ConformalCalibrator, finite_only};
use crate::feature_schema::{as_size, size_of_u64};
use crate::json::{Js, Json, empty_object, field_behind, js, jss, natural_js, no_fields, put, real_js, reals_in_list, reals_js, reals_of, reals_round_trip};
use crate::learning_stats::{OptionStats, Rounded, StatsView, default_stats, read_reals_at, reals_at, stats_js, stats_of_js, stats_round_trip, stats_valid};
use crate::linucb::{LinUcbState, LinView, finite_matrix, finite_row, fresh_model, matrix_js, matrix_json, matrix_of, matrix_round_trip, read_matrix, read_strict_reals, row_round_trip, rows, strict_reals};
use crate::meta_bandit::CandidateId;
use crate::number::{ONE, Real, nearest_share_bits};
use crate::real_constants::{R_0_5, R_1EM09};
use crate::text::same;
use vstd::prelude::*;
use vstd::string::StringExecFns;

verus! {

/// What an algorithm keeps of an option.
#[derive(Debug)]
pub enum OptionState {
    Weighted { weight: Real },
    BetaBernoulli { alpha: Real, beta: Real },
    Ucb { tries: Real, total_reward: Real },
    LinUcb { state: LinUcbState },
}

/// What is kept, with its lists as sequences.
pub enum StateView {
    Weighted { weight: Real },
    BetaBernoulli { alpha: Real, beta: Real },
    Ucb { tries: Real, total_reward: Real },
    LinUcb { state: LinView },
}

/// The weight to show of an option: known, or what the host computes it from.
#[derive(Clone, Copy, Debug, PartialEq, Eq, Structural)]
pub enum VisibleWeight {
    Known(Real),
    /// `alpha / max(alpha + beta, 1e-9)`.
    Beta(Real, Real),
    /// The quotient, held between zero and one.
    Held(Real, Real),
    /// The length of the model's parameters.
    Norm,
}

impl OptionState {
    pub open spec fn seen(self) -> StateView {
        match self {
            OptionState::Weighted { weight } => StateView::Weighted { weight },
            OptionState::BetaBernoulli { alpha, beta } => StateView::BetaBernoulli { alpha, beta },
            OptionState::Ucb { tries, total_reward } => StateView::Ucb { tries, total_reward },
            OptionState::LinUcb { state } => StateView::LinUcb { state: state.seen() },
        }
    }

    pub fn weighted(w: Real) -> (s: Self)
        ensures
            s.seen() == (StateView::Weighted { weight: w }),
    {
        OptionState::Weighted { weight: w }
    }

    pub fn beta(alpha: Real, beta: Real) -> (s: Self)
        ensures
            s.seen() == (StateView::BetaBernoulli { alpha, beta }),
    {
        OptionState::BetaBernoulli { alpha, beta }
    }

    pub fn ucb_initial() -> (s: Self)
        ensures
            s.seen() == (StateView::Ucb { tries: Real { bits: 0 }, total_reward: Real { bits: 0 } }),
    {
        OptionState::Ucb { tries: Real { bits: 0 }, total_reward: Real { bits: 0 } }
    }

    pub fn linucb_initial(d: usize, lambda: Real, inverse: Real) -> (s: Self)
        ensures
            s.seen() == (StateView::LinUcb { state: fresh_model(d, lambda, inverse) }),
    {
        OptionState::LinUcb { state: LinUcbState::new(d, lambda, inverse) }
    }

    /// The weight to show.
    pub fn as_visible_weight(&self) -> (w: VisibleWeight)
        ensures
            w == (match self.seen() {
                StateView::Weighted { weight } => VisibleWeight::Known(weight),
                StateView::BetaBernoulli { alpha, beta } => VisibleWeight::Beta(alpha, beta),
                StateView::Ucb { tries, total_reward } => if tries.below(Real { bits: R_1EM09 }) {
                    VisibleWeight::Known(Real { bits: R_0_5 })
                } else {
                    VisibleWeight::Held(total_reward, tries)
                },
                StateView::LinUcb { .. } => VisibleWeight::Norm,
            }),
    {
        match self {
            OptionState::Weighted { weight } => VisibleWeight::Known(*weight),
            OptionState::BetaBernoulli { alpha, beta } => VisibleWeight::Beta(*alpha, *beta),
            OptionState::Ucb { tries, total_reward } => if tries.lt(Real { bits: R_1EM09 }) {
                VisibleWeight::Known(Real { bits: R_0_5 })
            } else {
                VisibleWeight::Held(*total_reward, *tries)
            },
            OptionState::LinUcb { .. } => VisibleWeight::Norm,
        }
    }

    /// What is kept, as JSON.
    pub fn to_json(&self) -> (j: Json)
        ensures
            js(j) == state_js(self.seen()),
    {
        let mut o = empty_object();
        match self {
            OptionState::Weighted { weight } => {
                put(&mut o, "kind", Json::text("weighted"));
                put(&mut o, "weight", Json::number(*weight));
            },
            OptionState::BetaBernoulli { alpha, beta } => {
                put(&mut o, "kind", Json::text("betaBernoulli"));
                put(&mut o, "alpha", Json::number(*alpha));
                put(&mut o, "beta", Json::number(*beta));
            },
            OptionState::Ucb { tries, total_reward } => {
                put(&mut o, "kind", Json::text("ucb"));
                put(&mut o, "tries", Json::number(*tries));
                put(&mut o, "totalReward", Json::number(*total_reward));
            },
            OptionState::LinUcb { state } => {
                put(&mut o, "kind", Json::text("linucb"));
                put(&mut o, "d", Json::natural(state.d as u64));
                put(&mut o, "lambda", Json::number(state.lambda));
                put(&mut o, "aInv", matrix_json(&state.a_inv));
                put(&mut o, "a", matrix_json(&state.a));
                put(&mut o, "b", Json::reals(&state.b));
                put(&mut o, "sinceLastRebuild", Json::natural(state.since_last_rebuild));
            },
        }
        Json::Obj(o)
    }

    /// Reads what is kept from JSON.
    pub fn from_json(j: &Json) -> (r: Option<Self>)
        ensures
            match state_of(js(*j)) {
                Some(s) => r is Some && r->Some_0.seen() == s,
                None => r is None,
            },
    {
        let kind = match j.str_at("kind") {
            Some(k) => k,
            None => {
                return None;
            },
        };
        if same(kind, "weighted") {
            match j.real_at("weight") {
                Some(weight) => Some(OptionState::Weighted { weight }),
                None => None,
            }
        } else if same(kind, "betaBernoulli") {
            match (j.real_at("alpha"), j.real_at("beta")) {
                (Some(alpha), Some(beta)) => Some(OptionState::BetaBernoulli { alpha, beta }),
                _ => None,
            }
        } else if same(kind, "ucb") {
            match j.real_at("totalReward") {
                Some(total_reward) => Some(
                    OptionState::Ucb { tries: j.real_or("tries", Real { bits: 0 }), total_reward },
                ),
                None => None,
            }
        } else if same(kind, "linucb") {
            match read_model(j) {
                Some(state) => Some(OptionState::LinUcb { state }),
                None => None,
            }
        } else {
            None
        }
    }
}

/// The matrix under a key.
pub open spec fn matrix_at(j: Js, key: Seq<char>) -> Option<Seq<Seq<Real>>> {
    match j.array_at(key) {
        Some(a) => matrix_of(a),
        None => None,
    }
}

fn read_matrix_at(j: &Json, key: &str) -> (r: Option<Vec<Vec<Real>>>)
    ensures
        match matrix_at(js(*j), key@) {
            Some(m) => r is Some && rows(r->Some_0@) == m,
            None => r is None,
        },
{
    match j.array_at(key) {
        Some(a) => read_matrix(a),
        None => None,
    }
}

/// The model that JSON holds.
pub open spec fn model_of(j: Js) -> Option<LinView> {
    match (j.get("d"@), j.real_at("lambda"@)) {
        (Some(d), Some(lambda)) => match (d.as_u64(), matrix_at(j, "aInv"@)) {
            (Some(d), Some(a_inv)) => match (matrix_at(j, "a"@), j.array_at("b"@)) {
                (Some(a), Some(b)) => match strict_reals(b) {
                    Some(b) => Some(
                        LinView {
                            a_inv,
                            b,
                            d: size_of_u64(d),
                            lambda,
                            since_last_rebuild: j.u64_or("sinceLastRebuild"@, 0),
                            a,
                        },
                    ),
                    None => None,
                },
                _ => None,
            },
            _ => None,
        },
        _ => None,
    }
}

fn read_model(j: &Json) -> (r: Option<LinUcbState>)
    ensures
        match model_of(js(*j)) {
            Some(s) => r is Some && r->Some_0.seen() == s,
            None => r is None,
        },
{
    let d: u64 = match j.get("d") {
        Some(v) => match v.as_u64() {
            Some(d) => d,
            None => {
                return None;
            },
        },
        None => {
            return None;
        },
    };
    let lambda = match j.real_at("lambda") {
        Some(x) => x,
        None => {
            return None;
        },
    };
    let a_inv = match read_matrix_at(j, "aInv") {
        Some(m) => m,
        None => {
            return None;
        },
    };
    let a = match read_matrix_at(j, "a") {
        Some(m) => m,
        None => {
            return None;
        },
    };
    let b = match j.array_at("b") {
        Some(items) => match read_strict_reals(items) {
            Some(b) => b,
            None => {
                return None;
            },
        },
        None => {
            return None;
        },
    };
    Some(
        LinUcbState {
            a_inv,
            b,
            d: as_size(d),
            lambda,
            since_last_rebuild: j.u64_or("sinceLastRebuild", 0),
            a,
        },
    )
}

pub open spec fn state_js(s: StateView) -> Js {
    Js::Obj(
        match s {
            StateView::Weighted { weight } => no_fields().push(("kind"@, Js::Str("weighted"@))).push(
                ("weight"@, real_js(weight)),
            ),
            StateView::BetaBernoulli { alpha, beta } => no_fields().push(
                ("kind"@, Js::Str("betaBernoulli"@)),
            ).push(("alpha"@, real_js(alpha))).push(("beta"@, real_js(beta))),
            StateView::Ucb { tries, total_reward } => no_fields().push(
                ("kind"@, Js::Str("ucb"@)),
            ).push(("tries"@, real_js(tries))).push(("totalReward"@, real_js(total_reward))),
            StateView::LinUcb { state } => no_fields().push(("kind"@, Js::Str("linucb"@))).push(
                ("d"@, natural_js(state.d as u64)),
            ).push(("lambda"@, real_js(state.lambda))).push(
                ("aInv"@, Js::Arr(matrix_js(state.a_inv))),
            ).push(("a"@, Js::Arr(matrix_js(state.a)))).push(("b"@, reals_js(state.b))).push(
                ("sinceLastRebuild"@, natural_js(state.since_last_rebuild)),
            ),
        },
    )
}

/// What JSON holds of an option.
pub open spec fn state_of(j: Js) -> Option<StateView> {
    match j.str_at("kind"@) {
        None => None,
        Some(kind) => if kind == "weighted"@ {
            match j.real_at("weight"@) {
                Some(weight) => Some(StateView::Weighted { weight }),
                None => None,
            }
        } else if kind == "betaBernoulli"@ {
            match (j.real_at("alpha"@), j.real_at("beta"@)) {
                (Some(alpha), Some(beta)) => Some(StateView::BetaBernoulli { alpha, beta }),
                _ => None,
            }
        } else if kind == "ucb"@ {
            match j.real_at("totalReward"@) {
                Some(total_reward) => Some(
                    StateView::Ucb { tries: j.real_or("tries"@, Real { bits: 0 }), total_reward },
                ),
                None => None,
            }
        } else if kind == "linucb"@ {
            match model_of(j) {
                Some(state) => Some(StateView::LinUcb { state }),
                None => None,
            }
        } else {
            None
        },
    }
}

pub open spec fn state_valid(s: StateView) -> bool {
    match s {
        StateView::Weighted { weight } => weight.spec_is_finite(),
        StateView::BetaBernoulli { alpha, beta } => alpha.spec_is_finite() && beta.spec_is_finite(),
        StateView::Ucb { tries, total_reward } => tries.spec_is_finite()
            && total_reward.spec_is_finite(),
        StateView::LinUcb { state } => state.lambda.spec_is_finite() && finite_matrix(state.a_inv)
            && finite_matrix(state.a) && finite_row(state.b),
    }
}

/// What is kept of an option, if it is finite, is read back from its JSON
/// unchanged.
pub proof fn state_round_trip(s: StateView)
    requires
        state_valid(s),
    ensures
        state_of(state_js(s)) == Some(s),
{
    broadcast use field_behind;

    reveal_strlit("kind");
    reveal_strlit("weight");
    reveal_strlit("alpha");
    reveal_strlit("beta");
    reveal_strlit("tries");
    reveal_strlit("totalReward");
    reveal_strlit("d");
    reveal_strlit("lambda");
    reveal_strlit("aInv");
    reveal_strlit("a");
    reveal_strlit("b");
    reveal_strlit("sinceLastRebuild");
    assert("kind"@.len() == 4);
    assert("weight"@.len() == 6);
    assert("alpha"@.len() == 5);
    assert("beta"@.len() == 4);
    assert("tries"@.len() == 5);
    assert("totalReward"@.len() == 11);
    assert("d"@.len() == 1);
    assert("lambda"@.len() == 6);
    assert("aInv"@.len() == 4);
    assert("a"@.len() == 1);
    assert("b"@.len() == 1);
    assert("sinceLastRebuild"@.len() == 16);
    assert("kind"@[0] != "beta"@[0]);
    assert("kind"@[0] != "aInv"@[0]);
    assert("weight"@[0] != "lambda"@[0]);
    assert("alpha"@[0] != "tries"@[0]);
    assert("beta"@[0] != "aInv"@[0]);
    assert("d"@[0] != "a"@[0]);
    assert("d"@[0] != "b"@[0]);
    assert("a"@[0] != "b"@[0]);
    reveal_strlit("weighted");
    reveal_strlit("betaBernoulli");
    reveal_strlit("ucb");
    reveal_strlit("linucb");
    assert("weighted"@.len() == 8);
    assert("betaBernoulli"@.len() == 13);
    assert("ucb"@.len() == 3);
    assert("linucb"@.len() == 6);
    let j = state_js(s);
    assert(j.get("kind"@) is Some);
    match s {
        StateView::Weighted { weight } => {
            assert(j.get("weight"@) == Some(real_js(weight)));
        },
        StateView::BetaBernoulli { alpha, beta } => {
            assert(j.get("alpha"@) == Some(real_js(alpha)));
            assert(j.get("beta"@) == Some(real_js(beta)));
        },
        StateView::Ucb { tries, total_reward } => {
            assert(j.get("tries"@) == Some(real_js(tries)));
            assert(j.get("totalReward"@) == Some(real_js(total_reward)));
        },
        StateView::LinUcb { state } => {
            matrix_round_trip(state.a_inv);
            matrix_round_trip(state.a);
            row_round_trip(state.b);
            assert(j.get("d"@) == Some(natural_js(state.d as u64)));
            assert(size_of_u64(state.d as u64) == state.d);
            assert(j.get("lambda"@) == Some(real_js(state.lambda)));
            assert(j.get("aInv"@) == Some(Js::Arr(matrix_js(state.a_inv))));
            assert(j.get("a"@) == Some(Js::Arr(matrix_js(state.a))));
            assert(j.get("b"@) == Some(reals_js(state.b)));
            assert(j.get("sinceLastRebuild"@) == Some(natural_js(state.since_last_rebuild)));
        },
    }
}

// Buckets

/// What is kept for one context.
#[derive(Debug)]
pub struct ContextBucket {
    pub weights: Vec<Real>,
    pub stats: Vec<OptionStats>,
    pub updated_at: u64,
    pub option_states: Vec<OptionState>,
    pub conformity_calibrator: ConformalCalibrator,
}

/// A bucket with its lists as sequences.
pub struct BucketView {
    pub weights: Seq<Real>,
    pub stats: Seq<StatsView>,
    pub updated_at: u64,
    pub option_states: Seq<StateView>,
    pub residuals: Seq<Real>,
    pub max_size: usize,
    pub min_samples: usize,
}

pub open spec fn stats_views(s: Seq<OptionStats>) -> Seq<StatsView> {
    s.map_values(|x: OptionStats| x.seen())
}

pub open spec fn state_views(s: Seq<OptionState>) -> Seq<StateView> {
    s.map_values(|x: OptionState| x.seen())
}

impl ContextBucket {
    pub open spec fn seen(self) -> BucketView {
        BucketView {
            weights: self.weights@,
            stats: stats_views(self.stats@),
            updated_at: self.updated_at,
            option_states: state_views(self.option_states@),
            residuals: self.conformity_calibrator.residuals@,
            max_size: self.conformity_calibrator.max_size,
            min_samples: self.conformity_calibrator.min_samples,
        }
    }

    pub open spec fn wf(self) -> bool {
        forall|i: int| 0 <= i < self.stats@.len() ==> (#[trigger] self.stats@[i]).wf()
    }
}

/// The weighted states of weights.
pub open spec fn weighted_states(w: Seq<Real>) -> Seq<StateView> {
    w.map_values(|x: Real| StateView::Weighted { weight: x })
}

pub fn weighted_of(w: &Vec<Real>) -> (r: Vec<OptionState>)
    ensures
        state_views(r@) == weighted_states(w@),
{
    let mut r: Vec<OptionState> = Vec::new();
    let mut i: usize = 0;
    while i < w.len()
        invariant
            i <= w.len(),
            r@.len() == i,
            forall|k: int|
                0 <= k < i ==> (#[trigger] r@[k]).seen() == (StateView::Weighted { weight: w@[k] }),
        decreases w.len() - i,
    {
        r.push(OptionState::weighted(w[i]));
        i = i + 1;
    }
    assert(state_views(r@) =~= weighted_states(w@));
    r
}

/// The states that a candidate starts with.
pub open spec fn first_states(c: CandidateId, w: Seq<Real>) -> Seq<StateView> {
    match c {
        CandidateId::Thompson => w.map_values(
            |x: Real| StateView::BetaBernoulli { alpha: Real { bits: ONE }, beta: Real { bits: ONE } },
        ),
        CandidateId::Ucb => w.map_values(
            |x: Real| StateView::Ucb { tries: Real { bits: 0 }, total_reward: Real { bits: 0 } },
        ),
        _ => weighted_states(w),
    }
}

/// The states that a candidate starts with. Linear models are made later, once
/// their dimension is known.
pub fn make_option_states_for_candidate(candidate: CandidateId, weights: &Vec<Real>) -> (r: Vec<
    OptionState,
>)
    ensures
        state_views(r@) == first_states(candidate, weights@),
{
    match candidate {
        CandidateId::Thompson => {
            let mut r: Vec<OptionState> = Vec::new();
            let mut i: usize = 0;
            while i < weights.len()
                invariant
                    i <= weights.len(),
                    r@.len() == i,
                    forall|k: int|
                        0 <= k < i ==> (#[trigger] r@[k]).seen() == (StateView::BetaBernoulli {
                            alpha: Real { bits: ONE },
                            beta: Real { bits: ONE },
                        }),
                decreases weights.len() - i,
            {
                r.push(OptionState::beta(Real { bits: ONE }, Real { bits: ONE }));
                i = i + 1;
            }
            assert(state_views(r@) =~= first_states(candidate, weights@));
            r
        },
        CandidateId::Ucb => {
            let mut r: Vec<OptionState> = Vec::new();
            let mut i: usize = 0;
            while i < weights.len()
                invariant
                    i <= weights.len(),
                    r@.len() == i,
                    forall|k: int|
                        0 <= k < i ==> (#[trigger] r@[k]).seen() == (StateView::Ucb {
                            tries: Real { bits: 0 },
                            total_reward: Real { bits: 0 },
                        }),
                decreases weights.len() - i,
            {
                r.push(OptionState::ucb_initial());
                i = i + 1;
            }
            assert(state_views(r@) =~= first_states(candidate, weights@));
            r
        },
        _ => weighted_of(weights),
    }
}

/// The weights that a bucket starts with: those of the graph where it has
/// enough of them, else equal ones.
pub open spec fn first_weights(graph: Seq<Real>, n: nat) -> Seq<Real> {
    if graph.len() >= n {
        graph.take(n as int)
    } else {
        Seq::new(n, |i: int| share_of(n))
    }
}

/// One over `n`.
pub open spec fn share_of(n: nat) -> Real {
    Real { bits: nearest_share_bits(n) as u64 }
}

/// A bucket that has seen nothing.
pub open spec fn fresh_bucket(weights: Seq<Real>, n: nat, states: Seq<StateView>) -> BucketView {
    BucketView {
        weights,
        stats: Seq::new(n, |i: int| default_stats()),
        updated_at: 0,
        option_states: states,
        residuals: Seq::empty(),
        max_size: 500,
        min_samples: 30,
    }
}

pub fn default_stats_list(n: usize) -> (v: Vec<OptionStats>)
    ensures
        stats_views(v@) == Seq::new(n as nat, |i: int| default_stats()),
        forall|i: int| 0 <= i < v@.len() ==> (#[trigger] v@[i]).wf(),
{
    let mut v: Vec<OptionStats> = Vec::new();
    let mut i: usize = 0;
    while i < n
        invariant
            i <= n,
            v@.len() == i,
            forall|k: int|
                0 <= k < i ==> (#[trigger] v@[k]).seen() == default_stats() && v@[k].wf(),
        decreases n - i,
    {
        v.push(OptionStats::default());
        i = i + 1;
    }
    assert(stats_views(v@) =~= Seq::new(n as nat, |i: int| default_stats()));
    v
}

/// The first weights of a bucket of `n` options.
pub fn starting_weights(graph: &Vec<Real>, n: usize) -> (w: Vec<Real>)
    requires
        n <= 0x20_0000_0000_0000,
    ensures
        w@ == first_weights(graph@, n as nat),
        w@.len() == n,
{
    let mut w: Vec<Real> = Vec::new();
    let mut i: usize = 0;
    if graph.len() >= n {
        while i < n
            invariant
                i <= n <= graph.len(),
                w@ == graph@.take(i as int),
            decreases n - i,
        {
            w.push(graph[i]);
            i = i + 1;
            assert(graph@.take(i as int) =~= graph@.take(i - 1).push(graph@[i - 1]));
        }
    } else {
        let share = Real::share(n as u64);
        while i < n
            invariant
                i <= n,
                share == share_of(n as nat),
                w@.len() == i,
                forall|k: int| 0 <= k < i ==> w@[k] == share,
            decreases n - i,
        {
            w.push(share);
            i = i + 1;
        }
        assert(w@ =~= first_weights(graph@, n as nat));
    }
    w
}

pub fn new_bucket(weights: Vec<Real>, n: usize, states: Vec<OptionState>) -> (b: ContextBucket)
    ensures
        b.seen() == fresh_bucket(weights@, n as nat, state_views(states@)),
        b.wf(),
{
    let b = ContextBucket {
        weights,
        stats: default_stats_list(n),
        updated_at: 0,
        option_states: states,
        conformity_calibrator: ConformalCalibrator::default_config(),
    };
    assert(b.seen().residuals =~= Seq::<Real>::empty());
    b
}

/// Makes sure that all states are linear models of this dimension; those that
/// are not are replaced by fresh ones.
pub fn ensure_linucb_states(bucket: &mut ContextBucket, d: usize, lambda: Real, inverse: Real)
    ensures
        final(bucket).weights == old(bucket).weights,
        final(bucket).stats == old(bucket).stats,
        final(bucket).updated_at == old(bucket).updated_at,
        final(bucket).conformity_calibrator == old(bucket).conformity_calibrator,
        final(bucket).option_states@.len() == old(bucket).option_states@.len(),
        forall|i: int|
            0 <= i < old(bucket).option_states@.len() ==> (
            #[trigger] final(bucket).option_states@[i]).seen() == linear_at(
                old(bucket).option_states@[i].seen(),
                d,
                lambda,
                inverse,
            ),
{
    let ghost start = bucket.option_states@;
    let mut i: usize = 0;
    while i < bucket.option_states.len()
        invariant
            i <= bucket.option_states@.len(),
            start == old(bucket).option_states@,
            bucket.option_states@.len() == start.len(),
            bucket.weights == old(bucket).weights,
            bucket.stats == old(bucket).stats,
            bucket.updated_at == old(bucket).updated_at,
            bucket.conformity_calibrator == old(bucket).conformity_calibrator,
            forall|k: int|
                0 <= k < i ==> (#[trigger] bucket.option_states@[k]).seen() == linear_at(
                    start[k].seen(),
                    d,
                    lambda,
                    inverse,
                ),
            forall|k: int| i <= k < start.len() ==> bucket.option_states@[k] == start[k],
        decreases bucket.option_states@.len() - i,
    {
        let keep = match &bucket.option_states[i] {
            OptionState::LinUcb { state } => state.d == d,
            _ => false,
        };
        if !keep {
            bucket.option_states.set(i, OptionState::linucb_initial(d, lambda, inverse));
        }
        i = i + 1;
    }
}

/// A linear model of this dimension: the one that is there, or a fresh one.
pub open spec fn linear_at(s: StateView, d: usize, lambda: Real, inverse: Real) -> StateView {
    match s {
        StateView::LinUcb { state } => if state.d == d {
            s
        } else {
            StateView::LinUcb { state: fresh_model(d, lambda, inverse) }
        },
        _ => StateView::LinUcb { state: fresh_model(d, lambda, inverse) },
    }
}

// The JSON of buckets

/// The statistics of a list, as JSON, with effective tries as they are.
pub open spec fn stats_list_js(s: Seq<OptionStats>, r: Seq<Rounded>) -> Seq<Js> {
    Seq::new(
        s.len(),
        |i: int|
            stats_js(s[i], r[i], s[i].effective_tries, (r[i].posterior_mean, r[i].posterior_var)),
    )
}

pub open spec fn states_js(s: Seq<StateView>) -> Seq<Js> {
    s.map_values(|x: StateView| state_js(x))
}

pub open spec fn calibrator_js(b: BucketView) -> Js {
    Js::Obj(
        no_fields().push(("residuals"@, reals_js(b.residuals))).push(
            ("maxSize"@, natural_js(b.max_size as u64)),
        ).push(("minSamples"@, natural_js(b.min_samples as u64))),
    )
}

pub open spec fn bucket_js(b: ContextBucket, r: Seq<Rounded>) -> Js {
    Js::Obj(
        no_fields().push(("weights"@, reals_js(b.weights@))).push(
            ("stats"@, Js::Arr(stats_list_js(b.stats@, r))),
        ).push(("updatedAt"@, natural_js(b.updated_at))).push(
            ("conformityCalibrator"@, calibrator_js(b.seen())),
        ).push(("optionStates"@, Js::Arr(states_js(state_views(b.option_states@))))),
    )
}

/// A bucket as JSON. `rounded` holds numbers of each option's statistics for
/// display.
pub fn serialize_bucket(bucket: &ContextBucket, rounded: &Vec<Rounded>) -> (j: Json)
    requires
        rounded@.len() == bucket.stats@.len(),
    ensures
        js(j) == bucket_js(*bucket, rounded@),
{
    let mut stats: Vec<Json> = Vec::new();
    let mut i: usize = 0;
    while i < bucket.stats.len()
        invariant
            i <= bucket.stats.len(),
            rounded@.len() == bucket.stats@.len(),
            stats@.len() == i,
            forall|k: int|
                0 <= k < i ==> js(#[trigger] stats@[k]) == stats_list_js(
                    bucket.stats@,
                    rounded@,
                )[k],
        decreases bucket.stats.len() - i,
    {
        stats.push(bucket.stats[i].to_json(&rounded[i], true));
        i = i + 1;
    }
    assert(jss(stats@) =~= stats_list_js(bucket.stats@, rounded@));
    let mut states: Vec<Json> = Vec::new();
    let mut k: usize = 0;
    while k < bucket.option_states.len()
        invariant
            k <= bucket.option_states.len(),
            states@.len() == k,
            forall|m: int|
                0 <= m < k ==> js(#[trigger] states@[m]) == state_js(
                    bucket.option_states@[m].seen(),
                ),
        decreases bucket.option_states.len() - k,
    {
        states.push(bucket.option_states[k].to_json());
        k = k + 1;
    }
    assert(jss(states@) =~= states_js(state_views(bucket.option_states@)));
    let mut c = empty_object();
    put(&mut c, "residuals", Json::reals(&bucket.conformity_calibrator.residuals));
    put(&mut c, "maxSize", Json::natural(bucket.conformity_calibrator.max_size as u64));
    put(&mut c, "minSamples", Json::natural(bucket.conformity_calibrator.min_samples as u64));
    let mut o = empty_object();
    put(&mut o, "weights", Json::reals(&bucket.weights));
    put(&mut o, "stats", Json::Arr(stats));
    put(&mut o, "updatedAt", Json::natural(bucket.updated_at));
    put(&mut o, "conformityCalibrator", Json::Obj(c));
    put(&mut o, "optionStates", Json::Arr(states));
    Json::Obj(o)
}

/// The states among the items.
pub open spec fn states_of(s: Seq<Js>) -> Seq<StateView>
    decreases s.len(),
{
    if s.len() == 0 {
        Seq::empty()
    } else {
        match state_of(s.last()) {
            Some(x) => states_of(s.drop_last()).push(x),
            None => states_of(s.drop_last()),
        }
    }
}

fn read_states(a: &Vec<Json>) -> (r: Vec<OptionState>)
    ensures
        state_views(r@) == states_of(jss(a@)),
        r@.len() == states_of(jss(a@)).len(),
{
    let ghost all = jss(a@);
    let mut r: Vec<OptionState> = Vec::new();
    let mut i: usize = 0;
    proof {
        assert(all.take(0) == Seq::<Js>::empty());
        assert(state_views(r@) =~= Seq::<StateView>::empty());
    }
    while i < a.len()
        invariant
            i <= a.len(),
            all == jss(a@),
            state_views(r@) == states_of(all.take(i as int)),
        decreases a.len() - i,
    {
        let ghost before = r@;
        assert(all.take(i + 1).drop_last() == all.take(i as int));
        assert(all.take(i + 1).last() == js(a@[i as int]));
        if let Some(s) = OptionState::from_json(&a[i]) {
            r.push(s);
            assert(state_views(r@) =~= state_views(before).push(s.seen()));
        }
        i = i + 1;
    }
    assert(all.take(i as int) == all);
    r
}

/// The residuals that are kept of a list, with room for `max`.
pub open spec fn kept_residuals(s: Seq<Real>, max: usize) -> Seq<Real> {
    finite_only(
        s.take(
            if s.len() < max {
                s.len() as int
            } else {
                max as int
            },
        ),
    )
}

/// The calibrator that a bucket's JSON holds: residuals, room, least number.
pub open spec fn calibrator_of(j: Js) -> (Seq<Real>, usize, usize) {
    match j.get("conformityCalibrator"@) {
        Some(c) => match c.array_at("residuals"@) {
            Some(a) => {
                let max = size_of_u64(c.u64_or("maxSize"@, 500));
                (
                    kept_residuals(reals_of(a), max),
                    max,
                    size_of_u64(c.u64_or("minSamples"@, 30)),
                )
            },
            None => (Seq::empty(), 500, 30),
        },
        None => (kept_residuals(reals_at(j, "conformityScores"@), 500), 500, 30),
    }
}

fn read_calibrator(j: &Json) -> (c: ConformalCalibrator)
    ensures
        (c.residuals@, c.max_size, c.min_samples) == calibrator_of(js(*j)),
{
    match j.get("conformityCalibrator") {
        Some(c) => match c.array_at("residuals") {
            Some(a) => ConformalCalibrator::restore_state(
                &reals_in_list(a),
                as_size(c.u64_or("maxSize", 500)),
                as_size(c.u64_or("minSamples", 30)),
            ),
            None => {
                let c = ConformalCalibrator::default_config();
                assert(c.residuals@ =~= Seq::<Real>::empty());
                c
            },
        },
        None => ConformalCalibrator::restore_state(
            &read_reals_at(j, "conformityScores"),
            500,
            30,
        ),
    }
}

/// The bucket that JSON holds.
pub open spec fn bucket_of(j: Js) -> BucketView {
    let weights = reals_at(j, "weights"@);
    let c = calibrator_of(j);
    BucketView {
        weights,
        stats: match j.array_at("stats"@) {
            Some(a) => a.map_values(|x: Js| stats_of_js(x)),
            None => Seq::empty(),
        },
        updated_at: j.u64_or("updatedAt"@, 0),
        option_states: match j.array_at("optionStates"@) {
            Some(a) => if states_of(a).len() == weights.len() {
                states_of(a)
            } else {
                weighted_states(weights)
            },
            None => weighted_states(weights),
        },
        residuals: c.0,
        max_size: c.1,
        min_samples: c.2,
    }
}

/// Reads a bucket from JSON.
pub fn parse_bucket(j: &Json) -> (b: ContextBucket)
    ensures
        b.seen() == bucket_of(js(*j)),
        b.wf(),
{
    let weights = read_reals_at(j, "weights");
    let mut stats: Vec<OptionStats> = Vec::new();
    match j.array_at("stats") {
        Some(a) => {
            let ghost all = jss(a@);
            let mut i: usize = 0;
            while i < a.len()
                invariant
                    i <= a.len(),
                    all == jss(a@),
                    stats@.len() == i,
                    forall|k: int|
                        0 <= k < i ==> (#[trigger] stats@[k]).seen() == stats_of_js(all[k])
                            && stats@[k].wf(),
                decreases a.len() - i,
            {
                assert(all[i as int] == js(a@[i as int]));
                stats.push(OptionStats::from_json(&a[i]));
                i = i + 1;
            }
            assert(stats_views(stats@) =~= all.map_values(|x: Js| stats_of_js(x)));
        },
        None => {
            assert(stats_views(stats@) =~= Seq::<StatsView>::empty());
        },
    }
    let option_states = match j.array_at("optionStates") {
        Some(a) => {
            let s = read_states(a);
            if s.len() == weights.len() {
                s
            } else {
                weighted_of(&weights)
            }
        },
        None => weighted_of(&weights),
    };
    ContextBucket {
        weights,
        stats,
        updated_at: j.u64_or("updatedAt", 0),
        option_states,
        conformity_calibrator: read_calibrator(j),
    }
}

proof fn states_round_trip(s: Seq<StateView>)
    requires
        forall|i: int| 0 <= i < s.len() ==> state_valid(#[trigger] s[i]),
    ensures
        states_of(states_js(s)) == s,
    decreases s.len(),
{
    if s.len() > 0 {
        let front = s.drop_last();
        assert forall|i: int| 0 <= i < front.len() implies state_valid(#[trigger] front[i]) by {
            assert(front[i] == s[i]);
        }
        states_round_trip(front);
        assert(state_valid(s[s.len() - 1]));
        state_round_trip(s.last());
        assert(states_js(s).drop_last() =~= states_js(front));
        assert(front.push(s.last()) =~= s);
    } else {
        assert(s =~= Seq::<StateView>::empty());
    }
}

proof fn finite_kept(s: Seq<Real>)
    requires
        finite_row(s),
    ensures
        finite_only(s) == s,
    decreases s.len(),
{
    if s.len() > 0 {
        let front = s.drop_last();
        assert forall|i: int| 0 <= i < front.len() implies (
        #[trigger] front[i]).spec_is_finite() by {
            assert(front[i] == s[i]);
        }
        finite_kept(front);
        assert(s[s.len() - 1].spec_is_finite());
        assert(front.push(s.last()) =~= s);
    }
}

/// A bucket whose numbers are finite, with a state for each weight and no more
/// residuals than it has room for.
pub open spec fn bucket_valid(b: ContextBucket, r: Seq<Rounded>) -> bool {
    &&& finite_row(b.weights@)
    &&& r.len() == b.stats@.len()
    &&& forall|i: int|
        0 <= i < b.stats@.len() ==> stats_valid(#[trigger] b.stats@[i]) && r[i].posterior_mean
            == b.stats@[i].posterior_mean && r[i].posterior_var == b.stats@[i].posterior_var
            && r[i].posterior_mean.spec_is_finite() && r[i].posterior_var.spec_is_finite()
    &&& b.option_states@.len() == b.weights@.len()
    &&& forall|i: int|
        0 <= i < b.option_states@.len() ==> state_valid((#[trigger] b.option_states@[i]).seen())
    &&& finite_row(b.conformity_calibrator.residuals@)
    &&& b.conformity_calibrator.residuals@.len() <= b.conformity_calibrator.max_size
}

/// A valid bucket that is written as JSON is read back unchanged, if the
/// posteriors are written as they are.
pub proof fn bucket_round_trip(b: ContextBucket, r: Seq<Rounded>)
    requires
        bucket_valid(b, r),
    ensures
        bucket_of(bucket_js(b, r)) == b.seen(),
{
    broadcast use field_behind;

    reveal_strlit("weights");
    reveal_strlit("stats");
    reveal_strlit("updatedAt");
    reveal_strlit("conformityCalibrator");
    reveal_strlit("optionStates");
    assert("weights"@.len() == 7);
    assert("stats"@.len() == 5);
    assert("updatedAt"@.len() == 9);
    assert("conformityCalibrator"@.len() == 20);
    assert("optionStates"@.len() == 12);
    reveal_strlit("residuals");
    reveal_strlit("maxSize");
    reveal_strlit("minSamples");
    assert("residuals"@.len() == 9);
    assert("maxSize"@.len() == 7);
    assert("minSamples"@.len() == 10);
    let j = bucket_js(b, r);
    assert(j.get("weights"@) == Some(reals_js(b.weights@)));
    assert(j.get("stats"@) == Some(Js::Arr(stats_list_js(b.stats@, r))));
    assert(j.get("updatedAt"@) == Some(natural_js(b.updated_at)));
    assert(j.get("conformityCalibrator"@) == Some(calibrator_js(b.seen())));
    assert(j.get("optionStates"@) == Some(Js::Arr(states_js(state_views(b.option_states@)))));
    reals_round_trip(b.weights@);
    let sv = state_views(b.option_states@);
    assert forall|i: int| 0 <= i < sv.len() implies state_valid(#[trigger] sv[i]) by {
        assert(sv[i] == b.option_states@[i].seen());
    }
    states_round_trip(sv);
    let a = stats_list_js(b.stats@, r);
    assert(a.map_values(|x: Js| stats_of_js(x)) =~= stats_views(b.stats@)) by {
        assert forall|i: int| 0 <= i < a.len() implies stats_of_js(#[trigger] a[i])
            == b.stats@[i].seen() by {
            let s = b.stats@[i];
            assert(stats_valid(s));
            stats_round_trip(s, r[i], s.effective_tries, (r[i].posterior_mean, r[i].posterior_var));
        }
    }
    let c = calibrator_js(b.seen());
    let res = b.conformity_calibrator.residuals@;
    assert(c.get("residuals"@) == Some(reals_js(res)));
    assert(c.get("maxSize"@) == Some(natural_js(b.conformity_calibrator.max_size as u64)));
    assert(c.get("minSamples"@) == Some(natural_js(b.conformity_calibrator.min_samples as u64)));
    assert(size_of_u64(b.conformity_calibrator.max_size as u64)
        == b.conformity_calibrator.max_size);
    assert(size_of_u64(b.conformity_calibrator.min_samples as u64)
        == b.conformity_calibrator.min_samples);
    reals_round_trip(res);
    finite_kept(res);
    assert(res.take(res.len() as int) =~= res);
    let back = bucket_of(j);
    assert(back.stats == b.seen().stats);
    assert(back.option_states == b.seen().option_states);
    assert(back.residuals == b.seen().residuals);
}

} // verus!
