//! Runs graphs.
//!
//! `GraphExecutor` goes step by step: `step` takes the host's answer to the
//! last question and says what to do next. Weights and statistics change
//! during a run and stay in the graph.

use crate::cap_value::{CapValue, cap, cap_to_gval, caps, caps_of, copy_caps, gvals_to_caps};
use crate::context::{ExecutionContext, SelectionMode};
use crate::error::{LycanResult, runtime_error};
use crate::graph::{Contract, GraphView, ImmValue, JournalEntry, MutationKind, NeuralGraph, NodeView, OpCode, Operand, Parsed};
use crate::number::{Real, cut_to};
use crate::ops::{FloatOp, Outcome, apply_op, arity, finish_computed, out, split_val};
use crate::parse::trim_end;
use crate::run_model::{Ac, Ct, Ev, Flo, Fr, GAIN, LOSS, MAX_DEPTH, MINUS_ONE, Mach, NEG_INFINITY, Num, OptionStats, Qu, RunOptions, Wt, agreeing, all_tried, bind, choice_count, count_true, function_of, heaviest, joined, leader, least_tried, least_tries, loaded_over, lookup, no_moves, numeric_of, operand_plan, other_events_change_nothing, padded, param_count, read_stat, read_stats, ref_of, restore, reward_of, roll_of, saved_all, saved_one, shown_each, slot_of, spawned_op, stats_of, stats_place, strategy_count, sum128, sum64, tallied, total_tries, tried, untried, votes, with_stats, written};
use crate::slots::Slots;
use crate::text::same;
use crate::values::{GVal, Val, collect_reals, collect_reals_all, copy_slots, copy_val, reals_in, reals_in_all, reals_in_prefix, render, texts, val, vals, vals_push};
use crate::weighing::{average_bounds, fastest, fastest_of, held, hold, is_exploring, is_positive, median_of, scale_weights, slowest_of, split_commas, times_as_reals, weigh_reward, weigh_times, weigh_vote, within_each};
use vstd::prelude::*;
use vstd::string::StringExecFns;

verus! {

/// What a node hands to the one that evaluates it.
#[derive(Debug)]
pub enum Flow {
    Val(GVal),
    Return(GVal),
}

#[derive(Debug)]
enum Frame {
    Args { id: u32, op: OpCode, done: Vec<GVal> },
    Tail,
    Await,
    Items { id: u32, at: usize },
    While { id: u32, at: usize, last: GVal },
    Each { id: u32, slot: u32, items: Vec<GVal>, k: usize, at: usize, last: GVal },
    Times { id: u32, left: i64, at: usize },
    Body { body: Vec<u32>, at: usize, saved: Vec<(u32, Option<GVal>)> },
    Over { op: OpCode, func: GVal, items: Vec<GVal>, k: usize, acc: Vec<GVal> },
    Vote {
        id: u32,
        tolerant: bool,
        tol: Real,
        n: usize,
        results: Vec<GVal>,
        times: Vec<u128>,
        started: u128,
    },
    Timed { id: u32, chosen: usize, started: u128, flow: Option<Flow> },
}

#[derive(Debug)]
enum Wait {
    Computed(FloatOp, Real, Real),
    Shown(String, GVal, String),
    ParseReal(String),
    PrintTexts(Vec<GVal>),
    Printing(String),
    Line,
    Clock,
    Weighted(u32),
    Explore(u32),
    Exploring(u32),
    VoteTexts,
    VoteNumbers,
    Distances(Vec<Real>),
    VoteRange(Vec<bool>),
    VoteMoves(Vec<bool>, Real),
    VoteScale(Vec<bool>),
    Averages,
    TimeRange(Vec<Real>),
    TimeMoves(Vec<Real>, Real),
    TimeScale,
    Reward(u32, Real),
    RewardScale(u32),
    Capability(String, Vec<CapValue>),
    Delta { next: usize, id: u32, at: usize, weight: Real, by: Real },
    Normal { next: usize, id: u32 },
}

#[derive(Debug)]
enum Control {
    Enter(u32),
    Give(Flow),
    Resume,
    Wait(Wait),
    Settle(bool, usize),
    Failed(String),
    Stopped,
    Finished,
}

/// A number, or the parts of a text, some of which may be numbers.
#[derive(Debug)]
pub enum Numeric {
    Number(Real),
    Parts(Vec<String>),
}

/// What the host is asked for.
#[derive(Debug)]
pub enum Query {
    /// The result of a computation on one or two numbers.
    Compute(FloatOp, Real, Real),
    /// The shortest texts of the numbers.
    Texts(Vec<Real>),
    /// The number that a text stands for.
    ParseReal(String),
    /// To print a line.
    Print(String),
    /// A line of input.
    ReadLine,
    /// The time in nanoseconds.
    Now,
    /// The sum of the weights, their running sums, and a roll in `[0, 1)` times
    /// the sum.
    Draw(Vec<Real>),
    /// A roll in `[0, 1)`, and another times the bound.
    Roll(usize),
    /// For `(tries, roll)`: `roll / 100` and `0.3 / (1 + tries / 5)`.
    Odds(u64, u64),
    /// Each number as it is, and for the parts of a text the sum of those that
    /// are numbers.
    Numbers(Vec<Numeric>),
    /// How far each number lies from the last one.
    Distances(Vec<Real>, Real),
    /// For each option its time in nanoseconds divided by its tries.
    Averages(Vec<OptionStats>),
    /// For each time `t` of a weight `w` the weight raised,
    /// `w + (1 - 2 * (t - fastest) / range) * 0.08`, and for each weight the
    /// weight lowered, `w - 0.2`.
    Moves { weights: Vec<Real>, times: Vec<Real>, fastest: Real, range: Real },
    /// With `d` a twentieth of the reward, for each of the `n` weights `w` the
    /// weight raised, `w + d`, and the weight lowered, `w - d / (n - 1)`.
    Reward(Vec<Real>, Real),
    /// The sum of the weights, and each weight divided by the sum.
    Shares(Vec<Real>),
    /// The result of a capability.
    Capability(String, Vec<CapValue>),
}

/// What the host answers.
#[derive(Debug)]
pub enum Event {
    /// Nothing was asked, or the line is printed.
    Go,
    Number(Real),
    Texts(Vec<String>),
    Parsed(Option<Real>),
    Line(Result<String, String>),
    Time(u128),
    Drawn { sum: Real, running: Vec<Real>, roll: Real },
    Rolled { roll: Real, pick: Real },
    Odds { roll: Real, chance: Real },
    Numbers(Vec<Real>),
    Moved { raised: Vec<Real>, lowered: Vec<Real> },
    Shares { sum: Real, shares: Vec<Real> },
    Capability(Result<CapValue, String>),
}

/// What the host does next.
#[derive(Debug)]
pub enum Action {
    /// Take another step.
    Continue,
    /// Answer the query with the next step.
    Ask(Query),
    /// The run is over.
    Finished(LycanResult<GVal>),
    /// The program is stopped: panic.
    Panic,
}

pub open spec fn flo(f: Flow) -> Flo {
    match f {
        Flow::Val(g) => Flo::Val(val(g)),
        Flow::Return(g) => Flo::Ret(val(g)),
    }
}

spec fn saved_view(s: Seq<(u32, Option<GVal>)>) -> Seq<(u32, Option<Val>)> {
    s.map_values(
        |p: (u32, Option<GVal>)|
            (
                p.0,
                match p.1 {
                    Some(g) => Some(val(g)),
                    None => None,
                },
            ),
    )
}

spec fn frame_view(f: Frame) -> Fr {
    match f {
        Frame::Args { id, op, done } => Fr::Args { id, op, done: vals(done@) },
        Frame::Tail => Fr::Tail,
        Frame::Await => Fr::Await,
        Frame::Items { id, at } => Fr::Items { id, at: at as int },
        Frame::While { id, at, last } => Fr::While { id, at: at as int, last: val(last) },
        Frame::Each { id, slot, items, k, at, last } => Fr::Each {
            id,
            slot,
            items: vals(items@),
            k: k as int,
            at: at as int,
            last: val(last),
        },
        Frame::Times { id, left, at } => Fr::Times { id, left: left as int, at: at as int },
        Frame::Body { body, at, saved } => Fr::Body {
            body: body@,
            at: at as int,
            saved: saved_view(saved@),
        },
        Frame::Over { op, func, items, k, acc } => Fr::Over {
            op,
            func: val(func),
            items: vals(items@),
            k: k as int,
            acc: vals(acc@),
        },
        Frame::Vote { id, tolerant, tol, n, results, times, started } => Fr::Vote {
            id,
            tolerant,
            tol,
            n: n as int,
            results: vals(results@),
            times: times@,
            started,
        },
        Frame::Timed { id, chosen, started, flow } => Fr::Timed {
            id,
            chosen: chosen as int,
            started,
            flow: match flow {
                Some(f) => Some(flo(f)),
                None => None,
            },
        },
    }
}

spec fn frame_views(s: Seq<Frame>) -> Seq<Fr> {
    s.map_values(|f: Frame| frame_view(f))
}

spec fn wait_view(w: Wait) -> Wt {
    match w {
        Wait::Computed(op, a, b) => Wt::Computed(op, a, b),
        Wait::Shown(a, g, b) => Wt::Shown(a@, val(g), b@),
        Wait::ParseReal(s) => Wt::ParseReal(s@),
        Wait::PrintTexts(a) => Wt::PrintTexts(vals(a@)),
        Wait::Printing(s) => Wt::Printing(s@),
        Wait::Line => Wt::Line,
        Wait::Clock => Wt::Clock,
        Wait::Weighted(id) => Wt::Weighted(id),
        Wait::Explore(id) => Wt::Explore(id),
        Wait::Exploring(id) => Wt::Exploring(id),
        Wait::VoteTexts => Wt::VoteTexts,
        Wait::VoteNumbers => Wt::VoteNumbers,
        Wait::Distances(v) => Wt::Distances(v@),
        Wait::VoteRange(m) => Wt::VoteRange(m@),
        Wait::VoteMoves(m, r) => Wt::VoteMoves(m@, r),
        Wait::VoteScale(m) => Wt::VoteScale(m@),
        Wait::Averages => Wt::Averages,
        Wait::TimeRange(v) => Wt::TimeRange(v@),
        Wait::TimeMoves(v, r) => Wt::TimeMoves(v@, r),
        Wait::TimeScale => Wt::TimeScale,
        Wait::Reward(t, r) => Wt::Reward(t, r),
        Wait::RewardScale(t) => Wt::RewardScale(t),
        Wait::Capability(s, a) => Wt::Capability(s@, caps(a@)),
        Wait::Delta { next, id, at, weight, by } => Wt::Delta {
            next: next as int,
            id,
            at: at as int,
            weight,
            by,
        },
        Wait::Normal { next, id } => Wt::Normal { next: next as int, id },
    }
}

spec fn control_view(c: Control) -> Ct {
    match c {
        Control::Enter(id) => Ct::Enter(id),
        Control::Give(f) => Ct::Give(flo(f)),
        Control::Resume => Ct::Resume,
        Control::Wait(w) => Ct::Wait(wait_view(w)),
        Control::Settle(scaling, i) => Ct::Settle(scaling, i as int),
        Control::Failed(s) => Ct::Failed(s@),
        Control::Stopped => Ct::Stopped,
        Control::Finished => Ct::Finished,
    }
}

pub open spec fn delta_views(s: Seq<(u32, usize, Real)>) -> Seq<(u32, int, Real)> {
    s.map_values(|d: (u32, usize, Real)| (d.0, d.1 as int, d.2))
}

pub open spec fn stats_views(s: Seq<(u32, Vec<OptionStats>)>) -> Seq<(u32, Seq<OptionStats>)> {
    s.map_values(|p: (u32, Vec<OptionStats>)| (p.0, p.1@))
}

pub open spec fn numeric_view(n: Numeric) -> Num {
    match n {
        Numeric::Number(r) => Num::Number(r),
        Numeric::Parts(p) => Num::Parts(texts(p@)),
    }
}

pub open spec fn query_view(q: Query) -> Qu {
    match q {
        Query::Compute(op, a, b) => Qu::Compute(op, a, b),
        Query::Texts(r) => Qu::Texts(r@),
        Query::ParseReal(s) => Qu::ParseReal(s@),
        Query::Print(s) => Qu::Print(s@),
        Query::ReadLine => Qu::ReadLine,
        Query::Now => Qu::Now,
        Query::Draw(w) => Qu::Draw(w@),
        Query::Roll(n) => Qu::Roll(n as int),
        Query::Odds(t, r) => Qu::Odds(t, r),
        Query::Numbers(v) => Qu::Numbers(v@.map_values(|n: Numeric| numeric_view(n))),
        Query::Distances(v, m) => Qu::Distances(v@, m),
        Query::Averages(s) => Qu::Averages(s@),
        Query::Moves { weights, times, fastest, range } => Qu::Moves {
            weights: weights@,
            times: times@,
            fastest,
            range,
        },
        Query::Reward(w, r) => Qu::Reward(w@, r),
        Query::Shares(w) => Qu::Shares(w@),
        Query::Capability(s, a) => Qu::Capability(s@, caps(a@)),
    }
}

pub open spec fn event_view(e: Event) -> Ev {
    match e {
        Event::Go => Ev::Go,
        Event::Number(r) => Ev::Number(r),
        Event::Texts(t) => Ev::Texts(texts(t@)),
        Event::Parsed(p) => Ev::Parsed(p),
        Event::Line(r) => Ev::Line(
            match r {
                Ok(s) => Ok(s@),
                Err(s) => Err(s@),
            },
        ),
        Event::Time(t) => Ev::Time(t),
        Event::Drawn { sum, running, roll } => Ev::Drawn { sum, running: running@, roll },
        Event::Rolled { roll, pick } => Ev::Rolled { roll, pick },
        Event::Odds { roll, chance } => Ev::Odds { roll, chance },
        Event::Numbers(v) => Ev::Numbers(v@),
        Event::Moved { raised, lowered } => Ev::Moved { raised: raised@, lowered: lowered@ },
        Event::Shares { sum, shares } => Ev::Shares { sum, shares: shares@ },
        Event::Capability(r) => Ev::Capability(
            match r {
                Ok(c) => Ok(cap(c)),
                Err(s) => Err(s@),
            },
        ),
    }
}

pub open spec fn action_view(a: Action) -> Ac {
    match a {
        Action::Continue => Ac::Continue,
        Action::Ask(q) => Ac::Ask(query_view(q)),
        Action::Finished(r) => Ac::Finished(
            match r {
                Ok(g) => Ok(val(g)),
                Err(e) => Err(e.text()),
            },
        ),
        Action::Panic => Ac::Panic,
    }
}

/// A run of a graph.
#[derive(Debug)]
pub struct GraphExecutor {
    pub graph: NeuralGraph,
    vars: Slots,
    weight_deltas: Vec<(u32, usize, Real)>,
    depth: u32,
    /// What is known of the options of each strategy node.
    pub strategy_stats: Vec<(u32, Vec<OptionStats>)>,
    run_number: u64,
    options: RunOptions,
    /// The lines printed so far.
    pub stdout_buffer: Vec<String>,
    frames: Vec<Frame>,
    control: Control,
    result: GVal,
}

impl View for GraphExecutor {
    type V = Mach;

    closed spec fn view(&self) -> Mach {
        Mach {
            graph: self.graph@,
            vars: self.vars@,
            deltas: delta_views(self.weight_deltas@),
            depth: self.depth,
            stats: stats_views(self.strategy_stats@),
            run_number: self.run_number,
            options: self.options,
            printed: texts(self.stdout_buffer@),
            frames: frame_views(self.frames@),
            control: control_view(self.control),
            result: val(self.result),
        }
    }
}

/// The options of a run without a context.
pub open spec fn default_options() -> RunOptions {
    RunOptions {
        deny_stdout: false,
        deny_stdin: false,
        mode: SelectionMode::Greedy,
        epsilon: Real { bits: 0 },
    }
}

/// The options that a context asks for.
pub open spec fn context_options(c: ExecutionContext) -> RunOptions {
    RunOptions {
        deny_stdout: c.policy is Some && !c.policy->Some_0.allow_stdout,
        deny_stdin: c.policy is Some && !c.policy->Some_0.allow_stdin,
        mode: c.selection_mode,
        epsilon: c.selection_epsilon,
    }
}

/// A run that has not started.
pub open spec fn fresh(g: GraphView, options: RunOptions) -> Mach {
    Mach {
        graph: g,
        vars: Map::empty(),
        deltas: Seq::empty(),
        depth: 0,
        stats: Seq::empty(),
        run_number: if g.entry < g.nodes.len() {
            g.nodes[g.entry as int].activation_count
        } else {
            0
        },
        options,
        printed: Seq::empty(),
        frames: Seq::empty(),
        control: Ct::Finished,
        result: Val::Null,
    }
}

/// A run that starts now: the statistics are loaded and the entry comes first.
pub open spec fn started(m: Mach) -> Mach {
    Mach {
        stats: loaded_over(m.stats, m.graph, m.graph.nodes.len() as int),
        ..m
    }.go(Ct::Enter(m.graph.entry))
}

// ---- Helpers on plain values ----

fn copy_reals(v: &Vec<Real>, n: usize) -> (r: Vec<Real>)
    requires
        n <= v.len(),
    ensures
        r@ == v@.take(n as int),
{
    let mut r: Vec<Real> = Vec::new();
    let mut i: usize = 0;
    while i < n
        invariant
            i <= n <= v.len(),
            r@ == v@.take(i as int),
        decreases n - i,
    {
        r.push(v[i]);
        i = i + 1;
        assert(v@.take(i as int) == v@.take(i - 1).push(v@[i - 1]));
    }
    r
}

fn ref_in(op: &Operand) -> (id: u32)
    ensures
        id == ref_of(*op),
{
    match op {
        Operand::NodeRef(id) => *id,
        _ => 0,
    }
}

fn slot_in(op: &Operand) -> (s: u32)
    ensures
        s == slot_of(*op),
{
    match op {
        Operand::VarSlot(s) => *s,
        _ => 0,
    }
}

fn value_of(f: Flow) -> (g: GVal)
    ensures
        val(g) == flo(f).value(),
{
    match f {
        Flow::Val(g) => g,
        Flow::Return(g) => g,
    }
}

fn is_return(f: &Flow) -> (b: bool)
    ensures
        b == (flo(*f) is Ret),
{
    match f {
        Flow::Val(_) => false,
        Flow::Return(_) => true,
    }
}

proof fn param_count_bounds(ops: Seq<Operand>)
    ensures
        param_count(ops) <= ops.len(),
    decreases ops.len(),
{
    if ops.len() > 0 && ops[0] is VarSlot {
        param_count_bounds(ops.drop_first());
    }
}

fn count_params(ops: &Vec<Operand>) -> (n: usize)
    ensures
        n == param_count(ops@),
        n <= ops.len(),
{
    let mut i: usize = 0;
    assert(ops@.skip(0) == ops@);
    while i < ops.len()
        invariant
            i <= ops.len(),
            param_count(ops@) == i + param_count(ops@.skip(i as int)),
        decreases ops.len() - i,
    {
        match ops[i] {
            Operand::VarSlot(_) => {},
            _ => {
                return i;
            },
        }
        assert(ops@.skip(i as int).drop_first() == ops@.skip(i + 1));
        i = i + 1;
    }
    i
}

fn slots_before(ops: &Vec<Operand>, n: usize) -> (v: Vec<u32>)
    requires
        n <= ops.len(),
    ensures
        v@ == ops@.take(n as int).map_values(|op: Operand| slot_of(op)),
{
    let mut v: Vec<u32> = Vec::new();
    let mut i: usize = 0;
    while i < n
        invariant
            i <= n <= ops.len(),
            v@.len() == i,
            forall|k: int| 0 <= k < i ==> v@[k] == slot_of(ops@[k]),
        decreases n - i,
    {
        v.push(slot_in(&ops[i]));
        i = i + 1;
    }
    assert(v@ =~= ops@.take(n as int).map_values(|op: Operand| slot_of(op)));
    v
}

fn refs_from(ops: &Vec<Operand>, n: usize) -> (v: Vec<u32>)
    requires
        n <= ops.len(),
    ensures
        v@ == ops@.skip(n as int).map_values(|op: Operand| ref_of(op)),
{
    let mut v: Vec<u32> = Vec::new();
    let mut i: usize = n;
    while i < ops.len()
        invariant
            n <= i <= ops.len(),
            v@.len() == i - n,
            forall|k: int| 0 <= k < i - n ==> v@[k] == ref_of(ops@[n + k]),
        decreases ops.len() - i,
    {
        v.push(ref_in(&ops[i]));
        i = i + 1;
    }
    assert(v@ =~= ops@.skip(n as int).map_values(|op: Operand| ref_of(op)));
    v
}

fn function_from(ops: &Vec<Operand>) -> (g: GVal)
    ensures
        val(g) == function_of(ops@),
{
    let n: usize = count_params(ops);
    GVal::GraphFn { param_slots: slots_before(ops, n), body_nodes: refs_from(ops, n) }
}

fn has_arity(op: OpCode) -> (r: Option<usize>)
    ensures
        match arity(op) {
            Some(k) => r is Some && r->Some_0 == k,
            None => r is None,
        },
{
    match op {
        OpCode::Add | OpCode::Sub | OpCode::Mul | OpCode::Div | OpCode::Mod => Some(2),
        OpCode::Eq | OpCode::Neq | OpCode::Lt | OpCode::Gt | OpCode::Lte | OpCode::Gte => Some(2),
        OpCode::And | OpCode::Or | OpCode::Index | OpCode::Range | OpCode::Atan2 => Some(2),
        OpCode::Neg | OpCode::Abs | OpCode::Floor | OpCode::Sin | OpCode::Cos => Some(1),
        OpCode::Round | OpCode::Sqrt | OpCode::Ln | OpCode::Exp | OpCode::Not => Some(1),
        OpCode::Chars | OpCode::Length | OpCode::ParseNum | OpCode::ToString => Some(1),
        _ => None,
    }
}

fn plan(op: OpCode, len: usize) -> (r: (usize, usize))
    ensures
        (r.0 as int, r.1 as int) == operand_plan(op, len as int),
        r.0 <= 1,
{
    match has_arity(op) {
        Some(k) => (0, k),
        None => match op {
            OpCode::StoreVar | OpCode::Feedback => (1, 1),
            OpCode::Array | OpCode::Print => (0, len),
            OpCode::Call | OpCode::Capability => (
                0,
                if len < 1 {
                    1
                } else {
                    len
                },
            ),
            OpCode::Split => (
                0,
                if len > 1 {
                    2
                } else {
                    1
                },
            ),
            OpCode::Pipe | OpCode::Filter | OpCode::MapEach => (0, 2),
            OpCode::Reduce => (
                0,
                if len > 2 {
                    3
                } else {
                    2
                },
            ),
            _ => (0, 1),
        },
    }
}

fn opcode_from_u8(b: u8) -> (op: OpCode)
    ensures
        op == spawned_op(b),
{
    match b {
        0x10 => OpCode::Add,
        0x11 => OpCode::Sub,
        0x12 => OpCode::Mul,
        0x13 => OpCode::Div,
        0x75 => OpCode::Sin,
        0x76 => OpCode::Cos,
        0x77 => OpCode::Abs,
        0x78 => OpCode::Floor,
        0x79 => OpCode::Round,
        0x7A => OpCode::Sqrt,
        0x70 => OpCode::Print,
        _ => OpCode::Noop,
    }
}

fn reward_from(g: &GVal) -> (r: Real)
    ensures
        r == reward_of(val(*g)),
{
    match g {
        GVal::Float(f) => *f,
        GVal::Int(n) => Real::of_i64(*n),
        GVal::Bool(b) => if *b {
            Real::one()
        } else {
            Real { bits: MINUS_ONE }
        },
        _ => Real::zero(),
    }
}

fn heaviest_index(w: &Vec<Real>, n: usize, mask: Option<&Vec<bool>>) -> (i: usize)
    requires
        n <= w.len(),
    ensures
        i == heaviest(
            w@,
            n as int,
            match mask {
                Some(m) => Some(m@),
                None => None,
            },
        ).0,
        n > 0 ==> i < n,
{
    let ghost mv = match mask {
        Some(m) => Some(m@),
        None => None,
    };
    let mut best: usize = 0;
    let mut best_w = Real { bits: NEG_INFINITY };
    let mut k: usize = 0;
    while k < n
        invariant
            k <= n <= w.len(),
            mv == (match mask {
                Some(m) => Some(m@),
                None => None,
            }),
            (best as int, best_w) == heaviest(w@, k as int, mv),
            k > 0 ==> best < k,
            k == 0 ==> best == 0,
        decreases n - k,
    {
        let allowed = match mask {
            Some(m) => k < m.len() && m[k],
            None => true,
        };
        if best_w.lt(w[k]) && allowed {
            best_w = w[k];
            best = k;
        }
        k = k + 1;
    }
    best
}

impl GraphExecutor {
    /// A run of a graph without a context.
    pub fn new(graph: NeuralGraph) -> (e: Self)
        ensures
            e@ == fresh(graph@, default_options()),
    {
        GraphExecutor::with_options(
            graph,
            RunOptions {
                deny_stdout: false,
                deny_stdin: false,
                mode: SelectionMode::Greedy,
                epsilon: Real::zero(),
            },
        )
    }

    /// A run of a graph in a context.
    pub fn new_with_context(graph: NeuralGraph, ctx: &ExecutionContext) -> (e: Self)
        ensures
            e@ == fresh(graph@, context_options(*ctx)),
    {
        let (deny_stdout, deny_stdin) = match &ctx.policy {
            Some(p) => (!p.allow_stdout, !p.allow_stdin),
            None => (false, false),
        };
        GraphExecutor::with_options(
            graph,
            RunOptions {
                deny_stdout,
                deny_stdin,
                mode: ctx.selection_mode,
                epsilon: ctx.selection_epsilon,
            },
        )
    }

    fn with_options(graph: NeuralGraph, options: RunOptions) -> (e: Self)
        ensures
            e@ == fresh(graph@, options),
    {
        let at: usize = graph.entry as usize;
        let run_number: u64 = if at < graph.nodes.len() {
            graph.nodes[at].activation_count
        } else {
            0
        };
        let e = GraphExecutor {
            graph,
            vars: Slots::new(),
            weight_deltas: Vec::new(),
            depth: 0,
            strategy_stats: Vec::new(),
            run_number,
            options,
            stdout_buffer: Vec::new(),
            frames: Vec::new(),
            control: Control::Finished,
            result: GVal::Null,
        };
        assert(e@ =~= fresh(graph@, options));
        e
    }

    /// The graph with what the run changed in it.
    pub fn into_graph(self) -> (g: NeuralGraph)
        ensures
            g@ == self@.graph,
    {
        self.graph
    }

    fn go(&mut self, control: Control)
        ensures
            final(self)@ == old(self)@.go(control_view(control)),
    {
        self.control = control;
    }

    fn fail(&mut self, msg: &str)
        ensures
            final(self)@ == old(self)@.fail(msg@),
    {
        self.control = Control::Failed(String::from_str(msg));
    }

    fn fail_kind(&mut self, msg: &str, g: &GVal)
        ensures
            final(self)@ == old(self)@.fail(msg@ + val(*g).kind()),
    {
        let mut m = String::from_str(msg);
        m.append(g.kind_name());
        self.control = Control::Failed(m);
    }

    fn stop(&mut self)
        ensures
            final(self)@ == old(self)@.stop(),
    {
        self.control = Control::Stopped;
    }

    fn wait(&mut self, w: Wait)
        ensures
            final(self)@ == old(self)@.wait(wait_view(w)),
    {
        self.control = Control::Wait(w);
    }

    fn push(&mut self, f: Frame)
        ensures
            final(self)@ == old(self)@.push(frame_view(f)),
    {
        self.frames.push(f);
        assert(self@.frames =~= old(self)@.frames.push(frame_view(f)));
    }

    fn leave(&mut self, f: Flow)
        ensures
            final(self)@ == old(self)@.leave(flo(f)),
    {
        if self.depth > 0 {
            self.depth = self.depth - 1;
        }
        self.control = Control::Give(f);
    }

    fn value(&mut self, g: GVal)
        ensures
            final(self)@ == old(self)@.value(val(g)),
    {
        self.leave(Flow::Val(g));
    }

    fn run_operand(&mut self, op: &Operand)
        ensures
            final(self)@ == old(self)@.run(*op),
    {
        self.control = Control::Enter(ref_in(op));
    }

    /// A copy of operand `i` of a node.
    fn operand(&self, id: u32, i: usize) -> (r: Option<Operand>)
        ensures
            match r {
                Some(op) => i < self@.operands(id).len() && op == self@.operands(id)[i as int],
                None => i >= self@.operands(id).len(),
            },
    {
        let at: usize = id as usize;
        if at < self.graph.nodes.len() {
            if i < self.graph.nodes[at].operands.len() {
                return Some(self.graph.nodes[at].operands[i]);
            }
        }
        None
    }

    fn operand_count(&self, id: u32) -> (n: usize)
        ensures
            n == self@.operands(id).len(),
    {
        let at: usize = id as usize;
        if at < self.graph.nodes.len() {
            self.graph.nodes[at].operands.len()
        } else {
            0
        }
    }

    fn weight_count(&self, id: u32) -> (n: usize)
        ensures
            n == self@.node(id).weights.len(),
    {
        let at: usize = id as usize;
        if at < self.graph.nodes.len() {
            self.graph.nodes[at].weights.len()
        } else {
            0
        }
    }

    /// A copy of the first `n` weights of a node.
    fn some_weights(&self, id: u32, n: usize) -> (w: Vec<Real>)
        requires
            n <= self@.node(id).weights.len(),
        ensures
            w@ == self@.node(id).weights.take(n as int),
    {
        let at: usize = id as usize;
        if at < self.graph.nodes.len() {
            copy_reals(&self.graph.nodes[at].weights, n)
        } else {
            let w: Vec<Real> = Vec::new();
            assert(w@ =~= self@.node(id).weights.take(n as int));
            w
        }
    }

    fn all_weights(&self, id: u32) -> (w: Vec<Real>)
        ensures
            w@ == self@.node(id).weights,
    {
        let n: usize = self.weight_count(id);
        let w = self.some_weights(id, n);
        assert(self@.node(id).weights.take(n as int) == self@.node(id).weights);
        w
    }

    fn activations(&self, id: u32) -> (n: u64)
        ensures
            n == self@.node(id).activation_count,
    {
        let at: usize = id as usize;
        if at < self.graph.nodes.len() {
            self.graph.nodes[at].activation_count
        } else {
            0
        }
    }

    fn set_bias(&mut self, id: u32, i: usize)
        requires
            i <= u64::MAX,
        ensures
            final(self)@ == old(self)@.set_bias(id, i as int),
    {
        let at: usize = id as usize;
        if at < self.graph.nodes.len() {
            self.graph.nodes[at].bias = Real::of_u64(i as u64);
        }
        assert(self@ =~= old(self)@.set_bias(id, i as int));
    }

    fn set_weights(&mut self, id: u32, w: Vec<Real>)
        ensures
            final(self)@ == old(self)@.set_weights(id, w@),
    {
        let at: usize = id as usize;
        if at < self.graph.nodes.len() {
            self.graph.nodes[at].weights = w;
        }
        assert(self@ =~= old(self)@.set_weights(id, w@));
    }

    fn set_var(&mut self, slot: u32, g: GVal)
        ensures
            final(self)@ == old(self)@.set_var(slot, val(g)),
    {
        self.vars.set(slot, g);
    }

    fn var(&self, slot: u32) -> (g: GVal)
        ensures
            val(g) == self@.var(slot),
    {
        match self.vars.get(slot) {
            Some(g) => g,
            None => GVal::Null,
        }
    }

    fn journal(&mut self, id: u32)
        ensures
            final(self)@ == old(self)@.journaled(id),
    {
        self.graph.journal.push(
            JournalEntry {
                run_number: self.run_number,
                node_id: id,
                mutation: MutationKind::WeightUpdate,
                reason: u32::MAX,
            },
        );
    }

    fn take(&mut self, o: Outcome)
        ensures
            final(self)@ == old(self)@.take(out(o)),
    {
        match o {
            Outcome::Value(g) => self.value(g),
            Outcome::Fail(m) => self.go(Control::Failed(m)),
            Outcome::Panic => self.stop(),
            Outcome::Compute(op, a, b) => self.wait(Wait::Computed(op, a, b)),
            Outcome::Shown(a, g, b) => self.wait(Wait::Shown(a, g, b)),
            Outcome::ParseReal(t) => self.wait(Wait::ParseReal(t)),
        }
    }

    fn enter(&mut self, id: u32)
        ensures
            final(self)@ == old(self)@.enter(id),
    {
        reveal(Mach::enter);
        if self.depth >= MAX_DEPTH {
            self.fail("max recursion depth exceeded");
            return;
        }
        let at: usize = id as usize;
        if at >= self.graph.nodes.len() {
            self.go(Control::Give(Flow::Val(GVal::Null)));
            return;
        }
        let n: u64 = self.graph.nodes[at].activation_count;
        if n == u64::MAX {
            self.stop();
            return;
        }
        let op = self.graph.nodes[at].op;
        self.graph.nodes[at].activation_count = n + 1;
        self.depth = self.depth + 1;
        proof {
            let node = old(self)@.node(id);
            let counted = NodeView {
                activation_count: (node.activation_count + 1) as u64,
                ..node
            };
            assert(self@ =~= (Mach {
                depth: (old(self)@.depth + 1) as u32,
                ..old(self)@.set_node(id, counted)
            }));
        }
        self.dispatch(id, op);
    }

    fn constant(&self, id: u32, op: OpCode) -> (g: GVal)
        ensures
            val(g) == self@.constant(op, self@.operands(id)),
    {
        let first = self.operand(id, 0);
        match op {
            OpCode::ConstInt => match first {
                Some(Operand::Immediate(ImmValue::Int(n))) => GVal::Int(n),
                _ => GVal::Null,
            },
            OpCode::ConstFloat => match first {
                Some(Operand::Immediate(ImmValue::Float(f))) => GVal::Float(f),
                _ => GVal::Null,
            },
            OpCode::ConstStr => match first {
                Some(Operand::StringRef(i)) => GVal::Str(self.graph.get_string(i)),
                _ => GVal::Str(String::new()),
            },
            OpCode::ConstBool => match first {
                Some(Operand::Immediate(ImmValue::Bool(b))) => GVal::Bool(b),
                _ => GVal::Bool(false),
            },
            _ => GVal::Null,
        }
    }

    fn function(&self, id: u32) -> (g: GVal)
        ensures
            val(g) == function_of(self@.operands(id)),
    {
        let at: usize = id as usize;
        if at < self.graph.nodes.len() {
            function_from(&self.graph.nodes[at].operands)
        } else {
            let none: Vec<Operand> = Vec::new();
            assert(none@ =~= self@.operands(id));
            function_from(&none)
        }
    }

    fn dispatch(&mut self, id: u32, op: OpCode)
        ensures
            final(self)@ == old(self)@.dispatch(id, op),
    {
        reveal(Mach::dispatch);
        let n: usize = self.operand_count(id);
        match op {
            OpCode::ConstInt | OpCode::ConstFloat | OpCode::ConstStr | OpCode::ConstBool
            | OpCode::ConstNull => {
                let g = self.constant(id, op);
                self.value(g);
            },
            OpCode::Weight | OpCode::Predict | OpCode::Merge | OpCode::Noop
            | OpCode::Halt => self.value(GVal::Null),
            OpCode::LoadVar => match self.operand(id, 0) {
                None => self.stop(),
                Some(o) => {
                    let g = self.var(slot_in(&o));
                    self.value(g);
                },
            },
            OpCode::StoreVar => if n == 0 {
                self.stop();
            } else {
                self.first_arg(id, op);
            },
            OpCode::Define | OpCode::Lambda => {
                let g = self.function(id);
                self.value(g);
            },
            OpCode::AdaptiveChoice => self.pick_option(id),
            OpCode::Strategy => self.strategy(id),
            OpCode::Guard => if n < 3 {
                self.value(GVal::Null);
            } else {
                self.first_arg(id, op);
            },
            OpCode::Feedback => if n < 2 {
                self.value(GVal::Null);
            } else {
                self.first_arg(id, op);
            },
            OpCode::Sequence | OpCode::Loop | OpCode::ForEach => self.dispatch_body(id, op),
            OpCode::ReadLine => if self.options.deny_stdin {
                self.fail("capability=readline effect=stdin denied by policy");
            } else {
                self.wait(Wait::Line);
            },
            OpCode::Print => if self.options.deny_stdout {
                self.fail("capability=print effect=stdout denied by policy");
            } else {
                self.first_arg(id, op);
            },
            OpCode::Adapt => if n == 0 {
                self.stop();
            } else {
                self.adapt(id);
                self.value(GVal::Null);
            },
            OpCode::Capability => if n == 0 {
                self.fail("capability node expects a name");
            } else {
                self.first_arg(id, op);
            },
            _ => self.first_arg(id, op),
        }
    }

    fn dispatch_body(&mut self, id: u32, op: OpCode)
        requires
            op == OpCode::Sequence || op == OpCode::Loop || op == OpCode::ForEach,
        ensures
            final(self)@ == old(self)@.dispatch(id, op),
    {
        reveal(Mach::dispatch);
        let first = self.operand(id, 0);
        match op {
            OpCode::Sequence => match first {
                None => self.value(GVal::Null),
                Some(o) => {
                    self.push(Frame::Items { id, at: 0 });
                    self.run_operand(&o);
                },
            },
            OpCode::Loop => match first {
                None => self.stop(),
                Some(o) => {
                    self.push(Frame::While { id, at: 0, last: GVal::Null });
                    self.run_operand(&o);
                },
            },
            _ => match (first, self.operand(id, 1)) {
                (Some(o), Some(v)) => {
                    let items: Vec<GVal> = Vec::new();
                    assert(vals(items@) =~= Seq::<Val>::empty());
                    self.push(
                        Frame::Each {
                            id,
                            slot: slot_in(&v),
                            items,
                            k: 0,
                            at: 0,
                            last: GVal::Null,
                        },
                    );
                    self.run_operand(&o);
                },
                _ => self.stop(),
            },
        }
    }

    fn adapt(&mut self, id: u32)
        requires
            old(self)@.operands(id).len() > 0,
        ensures
            final(self)@ == old(self)@.adapt(old(self)@.operands(id)),
    {
        let at: usize = id as usize;
        let slot: u32 = slot_in(&self.graph.nodes[at].operands[0]);
        let body_nodes = refs_from(&self.graph.nodes[at].operands, 1);
        let param_slots: Vec<u32> = match self.vars.get(slot) {
            Some(GVal::GraphFn { param_slots, .. }) => param_slots,
            _ => Vec::new(),
        };
        self.set_var(slot, GVal::GraphFn { param_slots, body_nodes });
    }

    fn immediate(&self, op: &Operand) -> (g: GVal)
        ensures
            val(g) == self@.immediate(*op),
    {
        match op {
            Operand::NodeRef(_) => GVal::Null,
            Operand::Immediate(ImmValue::Int(n)) => GVal::Int(*n),
            Operand::Immediate(ImmValue::Float(f)) => GVal::Float(*f),
            Operand::Immediate(ImmValue::Bool(b)) => GVal::Bool(*b),
            Operand::Immediate(ImmValue::Null) => GVal::Null,
            Operand::StateRef(i) => {
                let at: usize = *i as usize;
                GVal::Float(
                    if at < self.graph.state.len() {
                        self.graph.state[at]
                    } else {
                        Real::zero()
                    },
                )
            },
            Operand::StringRef(i) => GVal::Str(self.graph.get_string(*i)),
            Operand::VarSlot(s) => self.var(*s),
        }
    }

    fn first_arg(&mut self, id: u32, op: OpCode)
        ensures
            final(self)@ == old(self)@.next_arg(id, op, Seq::empty()),
    {
        let none: Vec<GVal> = Vec::new();
        assert(vals(none@) =~= Seq::<Val>::empty());
        self.next_arg(id, op, none);
    }

    fn next_arg(&mut self, id: u32, op: OpCode, done: Vec<GVal>)
        ensures
            final(self)@ == old(self)@.next_arg(id, op, vals(done@)),
    {
        reveal(Mach::next_arg);
        let len: usize = self.operand_count(id);
        let (start, count) = plan(op, len);
        let have: usize = done.len();
        if have == count {
            self.act(id, op, done);
            return;
        }
        if have > count || have >= len || start + have >= len {
            self.stop();
            return;
        }
        match self.operand(id, start + have) {
            None => self.stop(),
            Some(Operand::NodeRef(r)) => {
                self.push(Frame::Args { id, op, done });
                self.go(Control::Enter(r));
            },
            Some(o) => {
                let g = self.immediate(&o);
                self.push(Frame::Args { id, op, done });
                self.go(Control::Give(Flow::Val(g)));
            },
        }
    }

    fn have_arg(&mut self, id: u32, op: OpCode, done: Vec<GVal>)
        ensures
            final(self)@ == old(self)@.have_arg(id, op, vals(done@)),
    {
        reveal(Mach::have_arg);
        if op == OpCode::Capability && done.len() == 1 {
            match &done[0] {
                GVal::Str(_) => {},
                other => {
                    self.fail_kind("capability name must be str, got ", other);
                    return;
                },
            }
        }
        self.next_arg(id, op, done);
    }

    fn follow(&mut self, id: u32, i: usize)
        ensures
            final(self)@ == old(self)@.follow(id, i as int),
    {
        match self.operand(id, i) {
            None => self.stop(),
            Some(o) => {
                self.push(Frame::Tail);
                self.run_operand(&o);
            },
        }
    }

    fn act(&mut self, id: u32, op: OpCode, args: Vec<GVal>)
        requires
            args@.len() == operand_plan(op, old(self)@.operands(id).len() as int).1,
        ensures
            final(self)@ == old(self)@.act(id, op, vals(args@)),
    {
        reveal(Mach::act);
        match has_arity(op) {
            Some(_) => {
                let o = apply_op(op, &args);
                self.take(o);
            },
            None => match op {
                OpCode::Array => self.value(GVal::Array(args)),
                OpCode::Print => self.wait(Wait::PrintTexts(args)),
                OpCode::StoreVar | OpCode::Return | OpCode::Branch | OpCode::Guard | OpCode::Repeat
                | OpCode::Spawn | OpCode::Prune | OpCode::Feedback => self.act_on_one(
                    id,
                    op,
                    args,
                ),
                OpCode::Call => self.act_call(args),
                OpCode::Split => {
                    let o = if args.len() > 1 {
                        split_val(&args[0], Some(&args[1]))
                    } else {
                        split_val(&args[0], None)
                    };
                    self.take(o);
                },
                OpCode::Pipe => {
                    let mut a = args;
                    proof {
                        assert(vals(a@).len() == 2);
                    }
                    let f = take_at(&mut a, 1);
                    proof {
                        assert(vals(a@) =~= seq![vals(args@)[0]]);
                    }
                    self.push(Frame::Await);
                    self.call(&f, &a);
                },
                OpCode::Filter | OpCode::MapEach | OpCode::Reduce => self.act_over(op, args),
                OpCode::Capability => self.act_capability(args),
                _ => self.value(GVal::Null),
            },
        }
    }

    fn act_on_one(&mut self, id: u32, op: OpCode, args: Vec<GVal>)
        requires
            args@.len() == 1,
            op == OpCode::StoreVar || op == OpCode::Return || op == OpCode::Branch || op
                == OpCode::Guard || op == OpCode::Repeat || op == OpCode::Spawn || op
                == OpCode::Prune || op == OpCode::Feedback,
        ensures
            final(self)@ == old(self)@.act(id, op, vals(args@)),
    {
        reveal(Mach::act);
        let mut a = args;
        let ghost first = vals(args@)[0];
        let g = take_at(&mut a, 0);
        assert(val(g) == first);
        match op {
            OpCode::StoreVar => match self.operand(id, 0) {
                None => self.stop(),
                Some(o) => {
                    self.set_var(slot_in(&o), g);
                    self.value(GVal::Null);
                },
            },
            OpCode::Return => self.leave(Flow::Return(g)),
            OpCode::Branch => self.branch(id, g.is_truthy()),
            OpCode::Guard => self.follow(
                id,
                if g.is_truthy() {
                    1
                } else {
                    2
                },
            ),
            OpCode::Repeat => match g {
                GVal::Int(n) => if n <= 0 {
                    self.value(GVal::Null);
                } else {
                    match self.operand(id, 1) {
                        None => self.value(GVal::Null),
                        Some(o) => {
                            self.push(Frame::Times { id, left: n, at: 1 });
                            self.run_operand(&o);
                        },
                    }
                },
                other => self.fail_kind("repeat count must be int, got ", &other),
            },
            OpCode::Spawn => {
                let new_op = match g {
                    GVal::Int(n) => opcode_from_u8(n as u8),
                    _ => OpCode::Noop,
                };
                let new_id: u32 = self.graph.add_node(new_op, Vec::new());
                self.value(GVal::Int(new_id as i64));
            },
            OpCode::Prune => {
                self.prune(&g);
                self.value(GVal::Null);
            },
            _ => match self.operand(id, 0) {
                None => self.stop(),
                Some(o) => self.feedback(ref_in(&o), reward_from(&g)),
            },
        }
    }

    fn act_call(&mut self, args: Vec<GVal>)
        requires
            args@.len() > 0,
        ensures
            final(self)@ == old(self)@.push(Fr::Await).call(vals(args@)[0], vals(args@).skip(1)),
    {
        let mut a = args;
        let f = take_at(&mut a, 0);
        assert(vals(a@) =~= vals(args@).skip(1));
        self.push(Frame::Await);
        self.call(&f, &a);
    }

    fn act_over(&mut self, op: OpCode, args: Vec<GVal>)
        requires
            op == OpCode::Filter || op == OpCode::MapEach || op == OpCode::Reduce,
            args@.len() >= 2,
            args@.len() <= 3,
        ensures
            final(self)@ == (match vals(args@)[0] {
                Val::Array(items) => old(self)@.over(
                    op,
                    vals(args@)[1],
                    items,
                    0,
                    if op == OpCode::Reduce {
                        seq![
                            if args@.len() > 2 {
                                vals(args@)[2]
                            } else {
                                Val::Null
                            },
                        ]
                    } else {
                        Seq::empty()
                    },
                ),
                _ => old(self)@.fail("expected array, got "@ + vals(args@)[0].kind()),
            }),
    {
        let mut a = args;
        let ghost all = vals(args@);
        let init = if a.len() > 2 {
            take_at(&mut a, 2)
        } else {
            GVal::Null
        };
        let func = take_at(&mut a, 1);
        let data = take_at(&mut a, 0);
        assert(val(data) == all[0] && val(func) == all[1]);
        match data {
            GVal::Array(items) => {
                let mut acc: Vec<GVal> = Vec::new();
                if op == OpCode::Reduce {
                    acc.push(init);
                    assert(vals(acc@) =~= seq![val(init)]);
                } else {
                    assert(vals(acc@) =~= Seq::<Val>::empty());
                }
                self.over(op, func, items, 0, acc);
            },
            other => self.fail_kind("expected array, got ", &other),
        }
    }

    fn act_capability(&mut self, args: Vec<GVal>)
        requires
            args@.len() > 0,
        ensures
            final(self)@ == (match caps_of(vals(args@).skip(1)) {
                Some(c) => match vals(args@)[0] {
                    Val::Str(name) => old(self)@.wait(Wt::Capability(name, c)),
                    _ => old(self)@.stop(),
                },
                None => old(self)@.fail("capability arguments cannot include functions"@),
            }),
    {
        let mut a = args;
        let name = take_at(&mut a, 0);
        assert(vals(a@) =~= vals(args@).skip(1));
        match gvals_to_caps(&a) {
            Some(c) => match name {
                GVal::Str(s) => self.wait(Wait::Capability(s, c)),
                _ => self.stop(),
            },
            None => self.fail("capability arguments cannot include functions"),
        }
    }

    fn branch(&mut self, id: u32, taken: bool)
        ensures
            final(self)@ == old(self)@.branch(id, taken),
    {
        reveal(Mach::branch);
        let i: usize = if taken {
            0
        } else {
            1
        };
        if self.weight_count(id) >= 2 {
            self.weight_deltas.push((id, i, Real { bits: GAIN }));
            self.weight_deltas.push((id, 1 - i, Real { bits: LOSS }));
            assert(self@.deltas =~= old(self)@.deltas.push((id, i as int, Real { bits: GAIN })).push(
                (id, 1 - i, Real { bits: LOSS }),
            ));
        }
        self.follow(id, 1 + i);
    }

    fn prune(&mut self, target: &GVal)
        ensures
            final(self)@ == old(self)@.prune(val(*target)),
    {
        match target {
            GVal::Int(n) => {
                let i: usize = *n as usize;
                if i < self.graph.nodes.len() {
                    self.graph.nodes[i].op = OpCode::Noop;
                }
                assert(self@ =~= old(self)@.prune(val(*target)));
            },
            _ => {},
        }
    }

    fn feedback(&mut self, target: u32, reward: Real)
        ensures
            final(self)@ == old(self)@.feedback(target, reward),
    {
        reveal(Mach::feedback);
        let at: usize = target as usize;
        if at < self.graph.nodes.len() {
            let op = self.graph.nodes[at].op;
            if (op == OpCode::Strategy || op == OpCode::AdaptiveChoice)
                && self.graph.nodes[at].weights.len() > 0 {
                self.wait(Wait::Reward(target, reward));
                return;
            }
        }
        self.value(GVal::Null);
    }

    fn bind(&mut self, slots: &Vec<u32>, args: &Vec<GVal>) -> (saved: Vec<(u32, Option<GVal>)>)
        ensures
            final(self)@ == (Mach {
                vars: bind(old(self)@.vars, slots@, vals(args@)).0,
                ..old(self)@
            }),
            saved_view(saved@) == bind(old(self)@.vars, slots@, vals(args@)).1,
    {
        let ghost start = self@;
        let ghost av = vals(args@);
        let mut saved: Vec<(u32, Option<GVal>)> = Vec::new();
        let mut i: usize = 0;
        proof {
            assert(slots@.take(0) =~= Seq::<u32>::empty());
            assert(saved_view(saved@) =~= Seq::<(u32, Option<Val>)>::empty());
        }
        while i < slots.len()
            invariant
                i <= slots.len(),
                av == vals(args@),
                self@ == (Mach { vars: bind(start.vars, slots@.take(i as int), av).0, ..start }),
                saved_view(saved@) == bind(start.vars, slots@.take(i as int), av).1,
            decreases slots.len() - i,
        {
            let slot: u32 = slots[i];
            let before = self.vars.get(slot);
            let g = if i < args.len() {
                copy_val(&args[i])
            } else {
                GVal::Null
            };
            let ghost held = saved@;
            proof {
                assert(slots@.take(i + 1).drop_last() =~= slots@.take(i as int));
            }
            saved.push((slot, before));
            assert(saved_view(saved@) =~= saved_view(held).push(
                (slot, lookup(self@.vars, slot)),
            ));
            self.set_var(slot, g);
            i = i + 1;
        }
        assert(slots@.take(i as int) =~= slots@);
        saved
    }

    fn restore(&mut self, saved: &Vec<(u32, Option<GVal>)>)
        ensures
            final(self)@ == (Mach {
                vars: restore(old(self)@.vars, saved_view(saved@)),
                ..old(self)@
            }),
    {
        let ghost start = self@;
        let ghost sv = saved_view(saved@);
        let mut i: usize = 0;
        assert(sv.take(0) =~= Seq::<(u32, Option<Val>)>::empty());
        while i < saved.len()
            invariant
                i <= saved.len(),
                sv == saved_view(saved@),
                self@ == (Mach { vars: restore(start.vars, sv.take(i as int)), ..start }),
            decreases saved.len() - i,
        {
            assert(sv.take(i + 1).drop_last() =~= sv.take(i as int));
            assert(sv[i as int].0 == saved@[i as int].0);
            match &saved[i].1 {
                Some(g) => self.vars.set(saved[i].0, copy_val(g)),
                None => self.vars.unset(saved[i].0),
            }
            i = i + 1;
        }
        assert(sv.take(i as int) =~= sv);
    }

    fn call(&mut self, f: &GVal, args: &Vec<GVal>)
        ensures
            final(self)@ == old(self)@.call(val(*f), vals(args@)),
    {
        reveal(Mach::call);
        match f {
            GVal::GraphFn { param_slots, body_nodes } => {
                let saved = self.bind(param_slots, args);
                if body_nodes.len() == 0 {
                    self.restore(&saved);
                    self.go(Control::Give(Flow::Val(GVal::Null)));
                } else {
                    let first: u32 = body_nodes[0];
                    self.push(Frame::Body { body: copy_slots(body_nodes), at: 0, saved });
                    self.go(Control::Enter(first));
                }
            },
            _ => self.fail_kind("cannot call ", f),
        }
    }

    fn over(&mut self, op: OpCode, func: GVal, items: Vec<GVal>, k: usize, acc: Vec<GVal>)
        ensures
            final(self)@ == old(self)@.over(op, val(func), vals(items@), k as int, vals(acc@)),
    {
        reveal(Mach::over);
        if op == OpCode::Reduce && acc.len() == 0 {
            self.stop();
        } else if k >= items.len() {
            if op == OpCode::Reduce {
                let mut a = acc;
                let g = take_at(&mut a, 0);
                self.value(g);
            } else {
                self.value(GVal::Array(acc));
            }
        } else {
            let mut args: Vec<GVal> = Vec::new();
            if op == OpCode::Reduce {
                args.push(copy_val(&acc[0]));
                args.push(copy_val(&items[k]));
                assert(vals(args@) =~= seq![vals(acc@)[0], vals(items@)[k as int]]);
            } else {
                args.push(copy_val(&items[k]));
                assert(vals(args@) =~= seq![vals(items@)[k as int]]);
            }
            let f = copy_val(&func);
            self.push(Frame::Over { op, func, items, k, acc });
            self.call(&f, &args);
        }
    }

    fn choices(&self, id: u32) -> (n: usize)
        ensures
            n == choice_count(self@.node(id)),
            n <= self@.node(id).weights.len(),
    {
        let at: usize = id as usize;
        if at >= self.graph.nodes.len() {
            return 0;
        }
        let w: usize = self.graph.nodes[at].weights.len();
        let n: usize = if self.graph.nodes[at].contract == Contract::WithinTolerance && w > 1 {
            w - 1
        } else {
            w
        };
        let ops: usize = self.graph.nodes[at].operands.len();
        if n < ops {
            n
        } else {
            ops
        }
    }

    fn strategies(&self, id: u32) -> (n: usize)
        ensures
            n == strategy_count(self@.node(id)),
            n <= self@.node(id).weights.len(),
    {
        let w: usize = self.weight_count(id);
        let ops: usize = self.operand_count(id);
        if w < ops {
            w
        } else {
            ops
        }
    }

    fn heaviest_of(&self, id: u32, n: usize, mask: Option<&Vec<bool>>) -> (i: usize)
        requires
            n <= self@.node(id).weights.len(),
        ensures
            i == heaviest(
                self@.node(id).weights,
                n as int,
                match mask {
                    Some(m) => Some(m@),
                    None => None,
                },
            ).0,
    {
        let at: usize = id as usize;
        if at < self.graph.nodes.len() {
            heaviest_index(&self.graph.nodes[at].weights, n, mask)
        } else {
            0
        }
    }

    fn pick_option(&mut self, id: u32)
        ensures
            final(self)@ == old(self)@.pick_option(id),
    {
        reveal(Mach::pick_option);
        let n: usize = self.choices(id);
        if n == 0 {
            self.value(GVal::Null);
            return;
        }
        match self.options.mode {
            SelectionMode::Greedy => {
                let i: usize = self.heaviest_of(id, n, None);
                self.chosen(id, i);
            },
            SelectionMode::Weighted => self.wait(Wait::Weighted(id)),
            SelectionMode::EpsilonGreedy => self.wait(Wait::Explore(id)),
        }
    }

    fn chosen(&mut self, id: u32, i: usize)
        ensures
            final(self)@ == old(self)@.chosen(id, i as int),
    {
        reveal(Mach::chosen);
        let n: usize = self.choices(id);
        if n == 0 {
            self.stop();
            return;
        }
        let k: usize = if i < n {
            i
        } else {
            n - 1
        };
        self.set_bias(id, k);
        self.follow(id, k);
    }

    fn find_stats(&self, id: u32) -> (r: Option<usize>)
        ensures
            match r {
                Some(i) => i == stats_place(self@.stats, id) && i < self.strategy_stats.len(),
                None => stats_place(self@.stats, id) < 0,
            },
    {
        let ghost all = self@.stats;
        let mut i: usize = self.strategy_stats.len();
        assert(all.take(i as int) =~= all);
        while i > 0
            invariant
                i <= self.strategy_stats.len(),
                all == stats_views(self.strategy_stats@),
                stats_place(all, id) == stats_place(all.take(i as int), id),
            decreases i,
        {
            assert(all.take(i as int).drop_last() =~= all.take(i - 1));
            assert(all.take(i as int).last() == all[i - 1]);
            if self.strategy_stats[i - 1].0 == id {
                return Some(i - 1);
            }
            i = i - 1;
        }
        None
    }

    /// A copy of what is known of a node's options.
    fn stats(&self, id: u32) -> (r: Option<Vec<OptionStats>>)
        ensures
            match r {
                Some(s) => stats_of(self@.stats, id) == Some(s@),
                None => stats_of(self@.stats, id) is None,
            },
    {
        match self.find_stats(id) {
            None => None,
            Some(i) => {
                let v = &self.strategy_stats[i].1;
                assert(self@.stats[i as int] == (self.strategy_stats@[i as int].0, v@));
                Some(copy_stats(v))
            },
        }
    }

    fn set_stats(&mut self, id: u32, s: Vec<OptionStats>)
        ensures
            final(self)@ == (Mach { stats: with_stats(old(self)@.stats, id, s@), ..old(self)@ }),
            final(self).graph == old(self).graph,
    {
        match self.find_stats(id) {
            None => {
                self.strategy_stats.push((id, s));
                assert(self@.stats =~= old(self)@.stats.push((id, s@)));
            },
            Some(i) => {
                self.strategy_stats.set(i, (id, s));
                assert(self@.stats =~= old(self)@.stats.update(i as int, (id, s@)));
            },
        }
    }

    fn strategy(&mut self, id: u32)
        ensures
            final(self)@ == old(self)@.strategy(id),
    {
        reveal(Mach::strategy);
        let n: usize = self.strategies(id);
        if n == 0 {
            self.value(GVal::Null);
            return;
        }
        match self.find_stats(id) {
            Some(_) => {},
            None => {
                let v = no_tries(n);
                self.set_stats(id, v);
            },
        }
        let at: usize = id as usize;
        let contract = self.graph.nodes[at].contract;
        if contract == Contract::SameOutput || contract == Contract::WithinTolerance {
            let last: usize = self.graph.nodes[at].weights.len() - 1;
            let tol = self.graph.nodes[at].weights[last];
            let results: Vec<GVal> = Vec::new();
            assert(vals(results@) =~= Seq::<Val>::empty());
            self.push(
                Frame::Vote {
                    id,
                    tolerant: contract == Contract::WithinTolerance,
                    tol,
                    n,
                    results,
                    times: Vec::new(),
                    started: 0,
                },
            );
            self.wait(Wait::Clock);
        } else {
            self.wait(Wait::Exploring(id));
        }
    }

    fn timed(&mut self, id: u32, i: usize)
        ensures
            final(self)@ == old(self)@.timed(id, i as int),
    {
        self.set_bias(id, i);
        self.push(Frame::Timed { id, chosen: i, started: 0, flow: None });
        self.wait(Wait::Clock);
    }

    fn explore(&mut self, id: u32, exploring: bool)
        ensures
            final(self)@ == old(self)@.explore(id, exploring),
    {
        reveal(Mach::explore);
        if exploring {
            match self.stats(id) {
                None => self.stop(),
                Some(s) => {
                    let c = candidates(&s);
                    if c.len() == 0 {
                        self.stop();
                    } else {
                        let pick: usize = (self.activations(id) as usize) % c.len();
                        let i: usize = c[pick];
                        assert(least_tried(s@, s@.len() as int)[pick as int] == i);
                        self.timed(id, i);
                    }
                },
            }
        } else {
            let n: usize = self.strategies(id);
            let i: usize = self.heaviest_of(id, n, None);
            self.timed(id, i);
        }
    }

    fn pop(&mut self) -> (f: Frame)
        requires
            old(self)@.frames.len() > 0,
        ensures
            frame_view(f) == old(self)@.frames.last(),
            final(self)@ == (Mach { frames: old(self)@.frames.drop_last(), ..old(self)@ }),
    {
        let f = self.frames.pop();
        assert(self@.frames =~= old(self)@.frames.drop_last());
        match f {
            Some(x) => x,
            None => Frame::Tail,
        }
    }

    fn clock(&mut self, t: u128)
        requires
            old(self)@.frames.len() > 0,
        ensures
            final(self)@ == old(self)@.clock(t),
    {
        reveal(Mach::clock);
        match self.pop() {
            Frame::Vote { id, tolerant, tol, n, results, times, started } => {
                if results.len() == times.len() {
                    match self.operand(id, times.len()) {
                        None => self.stop(),
                        Some(o) => {
                            self.push(
                                Frame::Vote { id, tolerant, tol, n, results, times, started: t },
                            );
                            self.run_operand(&o);
                        },
                    }
                } else {
                    let mut times = times;
                    times.push(since(t, started));
                    let more = times.len() < n;
                    self.push(Frame::Vote { id, tolerant, tol, n, results, times, started });
                    if more {
                        self.wait(Wait::Clock);
                    } else if tolerant {
                        self.wait(Wait::VoteNumbers);
                    } else {
                        self.wait(Wait::VoteTexts);
                    }
                }
            },
            Frame::Timed { id, chosen, started, flow } => match flow {
                None => {
                    let len: usize = self.operand_count(id);
                    let i: usize = if chosen < len {
                        chosen
                    } else {
                        0
                    };
                    match self.operand(id, i) {
                        None => self.stop(),
                        Some(o) => {
                            self.push(Frame::Timed { id, chosen, started: t, flow: None });
                            self.run_operand(&o);
                        },
                    }
                },
                Some(f) => match self.stats(id) {
                    None => self.leave(f),
                    Some(s) => {
                        let mut s = s;
                        if chosen < s.len() {
                            let more = tried_once(s[chosen], since(t, started), true);
                            s.set(chosen, more);
                        }
                        let all = every_tried(&s);
                        self.set_stats(id, s);
                        if all {
                            self.push(Frame::Timed { id, chosen, started, flow: Some(f) });
                            self.wait(Wait::Averages);
                        } else {
                            self.leave(f);
                        }
                    },
                },
            },
            _ => self.stop(),
        }
    }

    fn voted(&mut self, mask: Vec<bool>)
        requires
            old(self)@.frames.len() > 0,
        ensures
            final(self)@ == old(self)@.voted(mask@),
    {
        reveal(Mach::voted);
        let top: usize = self.frames.len() - 1;
        let ghost seen = self@.frames.last();
        assert(seen == frame_view(self.frames@[top as int]));
        let (id, n) = match &self.frames[top] {
            Frame::Vote { id, n, times, .. } => {
                if *n > times.len() || *n > mask.len() {
                    self.stop();
                    return;
                }
                (*id, *n)
            },
            _ => {
                self.stop();
                return;
            },
        };
        match self.stats(id) {
            Some(s) => {
                let updated = match &self.frames[top] {
                    Frame::Vote { times, .. } => tally(&s, n, times, &mask),
                    _ => s,
                };
                self.set_stats(id, updated);
            },
            None => {},
        }
        if trues(&mask) > n / 2 {
            self.wait(Wait::VoteRange(mask));
        } else {
            self.concluded(mask);
        }
    }

    fn votes_of(&self, id: u32, tolerant: bool, n: usize) -> (k: usize)
        ensures
            k == self@.voting_weights(id, tolerant, n as int),
            k <= self@.node(id).weights.len(),
    {
        let w: usize = self.weight_count(id);
        if !tolerant {
            w
        } else if w == 0 {
            0
        } else if n < w - 1 {
            n
        } else {
            w - 1
        }
    }

    fn concluded(&mut self, mask: Vec<bool>)
        requires
            old(self)@.frames.len() > 0,
        ensures
            final(self)@ == old(self)@.concluded(mask@),
    {
        reveal(Mach::concluded);
        match self.pop() {
            Frame::Vote { id, tolerant, tol, n, results, times, started } => {
                let k: usize = self.votes_of(id, tolerant, n);
                let best: usize = self.heaviest_of(id, k, Some(&mask));
                self.set_bias(id, best);
                if best >= results.len() {
                    self.stop();
                } else {
                    let mut results = results;
                    let g = take_at(&mut results, best);
                    self.value(g);
                }
            },
            _ => self.stop(),
        }
    }

    fn give(&mut self, f: Flow)
        ensures
            final(self)@ == old(self)@.give(flo(f)),
    {
        reveal(Mach::give);
        if self.frames.len() == 0 {
            self.result = value_of(f);
            self.go(Control::Settle(false, 0));
            return;
        }
        match self.pop() {
            Frame::Args { id, op, done } => {
                let mut done = done;
                let g = value_of(f);
                proof {
                    vals_push(done@, g);
                }
                done.push(g);
                self.have_arg(id, op, done);
            },
            Frame::Tail => self.leave(f),
            Frame::Await => self.value(value_of(f)),
            Frame::Items { id, at } => self.next_item(id, at, f),
            Frame::While { id, at, last } => self.next_in_loop(id, at, last, f),
            Frame::Each { id, slot, items, k, at, last } => self.next_in_each(
                id,
                slot,
                items,
                k,
                at,
                last,
                f,
            ),
            Frame::Times { id, left, at } => self.next_in_times(id, left, at, f),
            Frame::Body { body, at, saved } => self.next_in_body(body, at, saved, f),
            Frame::Over { op, func, items, k, acc } => {
                let g = value_of(f);
                self.next_over(op, func, items, k, acc, g);
            },
            Frame::Vote { id, tolerant, tol, n, results, times, started } => {
                let mut results = results;
                let g = value_of(f);
                proof {
                    vals_push(results@, g);
                }
                results.push(g);
                self.push(Frame::Vote { id, tolerant, tol, n, results, times, started });
                self.wait(Wait::Clock);
            },
            Frame::Timed { id, chosen, started, flow } => {
                self.push(Frame::Timed { id, chosen, started, flow: Some(f) });
                self.wait(Wait::Clock);
            },
        }
    }

    fn next_item(&mut self, id: u32, at: usize, f: Flow)
        ensures
            final(self)@ == old(self)@.next_item(id, at as int, flo(f)),
    {
        reveal(Mach::next_item);
        if is_return(&f) || at >= self.operand_count(id) {
            self.leave(f);
            return;
        }
        match self.operand(id, at + 1) {
            None => self.leave(f),
            Some(o) => {
                self.push(Frame::Items { id, at: at + 1 });
                self.run_operand(&o);
            },
        }
    }

    fn next_in_loop(&mut self, id: u32, at: usize, last: GVal, f: Flow)
        ensures
            final(self)@ == old(self)@.next_in_loop(id, at as int, val(last), flo(f)),
    {
        reveal(Mach::next_in_loop);
        let first = match self.operand(id, 0) {
            None => {
                self.stop();
                return;
            },
            Some(o) => o,
        };
        if at == 0 {
            let holds = value_of(f).is_truthy();
            if !holds {
                self.value(last);
                return;
            }
            match self.operand(id, 1) {
                Some(o) => {
                    self.push(Frame::While { id, at: 1, last });
                    self.run_operand(&o);
                },
                None => {
                    self.push(Frame::While { id, at: 0, last });
                    self.run_operand(&first);
                },
            }
            return;
        }
        if is_return(&f) {
            self.leave(f);
            return;
        }
        if at < self.operand_count(id) {
            match self.operand(id, at + 1) {
                Some(o) => {
                    self.push(Frame::While { id, at: at + 1, last: value_of(f) });
                    self.run_operand(&o);
                    return;
                },
                None => {},
            }
        }
        self.push(Frame::While { id, at: 0, last: value_of(f) });
        self.run_operand(&first);
    }

    fn next_in_each(
        &mut self,
        id: u32,
        slot: u32,
        items: Vec<GVal>,
        k: usize,
        at: usize,
        last: GVal,
        f: Flow,
    )
        ensures
            final(self)@ == old(self)@.next_in_each(
                id,
                slot,
                vals(items@),
                k as int,
                at as int,
                val(last),
                flo(f),
            ),
    {
        reveal(Mach::next_in_each);
        if at == 0 {
            match value_of(f) {
                GVal::Array(list) => self.each_item(id, slot, list, 0, GVal::Null),
                other => self.fail_kind("expected array, got ", &other),
            }
            return;
        }
        if is_return(&f) {
            self.leave(f);
            return;
        }
        if at < self.operand_count(id) {
            match self.operand(id, at + 1) {
                Some(o) => {
                    self.push(Frame::Each { id, slot, items, k, at: at + 1, last: value_of(f) });
                    self.run_operand(&o);
                    return;
                },
                None => {},
            }
        }
        let g = value_of(f);
        self.each_after(id, slot, items, k, g);
    }

    /// Goes on behind item `k`.
    fn each_after(&mut self, id: u32, slot: u32, items: Vec<GVal>, k: usize, last: GVal)
        ensures
            final(self)@ == old(self)@.each_item(id, slot, vals(items@), k + 1, val(last)),
    {
        reveal(Mach::each_item);
        if k >= items.len() {
            self.value(last);
        } else {
            self.each_item(id, slot, items, k + 1, last);
        }
    }

    fn each_item(&mut self, id: u32, slot: u32, items: Vec<GVal>, k: usize, last: GVal)
        ensures
            final(self)@ == old(self)@.each_item(id, slot, vals(items@), k as int, val(last)),
    {
        reveal(Mach::each_item);
        if k >= items.len() {
            self.value(last);
            return;
        }
        let g = copy_val(&items[k]);
        self.set_var(slot, g);
        match self.operand(id, 2) {
            Some(o) => {
                self.push(Frame::Each { id, slot, items, k, at: 2, last });
                self.run_operand(&o);
            },
            None => {
                self.push(Frame::Each { id, slot, items, k, at: 1, last });
                self.go(Control::Resume);
            },
        }
    }

    fn next_in_times(&mut self, id: u32, left: i64, at: usize, f: Flow)
        ensures
            final(self)@ == old(self)@.next_in_times(id, left as int, at as int, flo(f)),
    {
        reveal(Mach::next_in_times);
        if is_return(&f) {
            self.leave(f);
            return;
        }
        if at < self.operand_count(id) {
            match self.operand(id, at + 1) {
                Some(o) => {
                    self.push(Frame::Times { id, left, at: at + 1 });
                    self.run_operand(&o);
                    return;
                },
                None => {},
            }
        }
        if left > 1 {
            match self.operand(id, 1) {
                Some(o) => {
                    self.push(Frame::Times { id, left: left - 1, at: 1 });
                    self.run_operand(&o);
                    return;
                },
                None => {},
            }
        }
        self.leave(f);
    }

    fn next_in_body(
        &mut self,
        body: Vec<u32>,
        at: usize,
        saved: Vec<(u32, Option<GVal>)>,
        f: Flow,
    )
        ensures
            final(self)@ == old(self)@.next_in_body(
                body@,
                at as int,
                saved_view(saved@),
                flo(f),
            ),
    {
        reveal(Mach::next_in_body);
        if is_return(&f) || at >= body.len() || at + 1 >= body.len() {
            self.restore(&saved);
            self.go(Control::Give(Flow::Val(value_of(f))));
        } else {
            let next: u32 = body[at + 1];
            self.push(Frame::Body { body, at: at + 1, saved });
            self.go(Control::Enter(next));
        }
    }

    fn next_over(
        &mut self,
        op: OpCode,
        func: GVal,
        items: Vec<GVal>,
        k: usize,
        acc: Vec<GVal>,
        g: GVal,
    )
        ensures
            final(self)@ == old(self)@.next_over(
                op,
                val(func),
                vals(items@),
                k as int,
                vals(acc@),
                val(g),
            ),
    {
        reveal(Mach::next_over);
        if k >= items.len() {
            self.stop();
            return;
        }
        let mut acc = acc;
        match op {
            OpCode::Filter => if g.is_truthy() {
                let x = copy_val(&items[k]);
                proof {
                    vals_push(acc@, x);
                }
                acc.push(x);
            },
            OpCode::MapEach => {
                proof {
                    vals_push(acc@, g);
                }
                acc.push(g);
            },
            _ => {
                acc = Vec::new();
                acc.push(g);
                assert(vals(acc@) =~= seq![val(g)]);
            },
        }
        self.over(op, func, items, k + 1, acc);
    }

    fn resume(&mut self)
        ensures
            final(self)@ == old(self)@.resume(),
    {
        reveal(Mach::resume);
        if self.frames.len() == 0 {
            self.stop();
            return;
        }
        match self.pop() {
            Frame::Each { id, slot, items, k, at, last } => self.each_after(
                id,
                slot,
                items,
                k,
                last,
            ),
            _ => self.stop(),
        }
    }

    /// Starts the run: loads the statistics and goes to the entry.
    pub fn start(&mut self)
        ensures
            final(self)@ == started(old(self)@),
    {
        let ghost before = self@;
        let mut i: usize = 0;
        while i < self.graph.nodes.len()
            invariant
                i <= self.graph.nodes.len(),
                before.graph == self@.graph,
                self@ == (Mach { stats: loaded_over(before.stats, before.graph, i as int), ..before }),
            decreases self.graph.nodes.len() - i,
        {
            let op = self.graph.nodes[i].op;
            let id: u32 = self.graph.nodes[i].id;
            let slot = self.graph.nodes[i].state_slot;
            let n: usize = self.graph.nodes[i].weights.len();
            assert(self@.graph.nodes[i as int] == self.graph.nodes@[i as int]@);
            if op == OpCode::Strategy || op == OpCode::AdaptiveChoice {
                match slot {
                    Some(at) => {
                        let v = stats_from(&self.graph.state, at, n);
                        self.set_stats(id, v);
                    },
                    None => {},
                }
            }
            i = i + 1;
        }
        let entry: u32 = self.graph.entry;
        self.go(Control::Enter(entry));
    }

    fn save_one(&mut self, k: usize) -> (ok: bool)
        requires
            k < old(self).strategy_stats.len(),
        ensures
            match saved_one(
                old(self)@.graph,
                old(self)@.stats[k as int].0,
                old(self)@.stats[k as int].1,
            ) {
                Some(g) => ok && final(self)@ == (Mach { graph: g, ..old(self)@ }),
                None => !ok && final(self)@ == old(self)@,
            },
            final(self).strategy_stats == old(self).strategy_stats,
    {
        let id: u32 = self.strategy_stats[k].0;
        let s = copy_stats(&self.strategy_stats[k].1);
        assert(self@.stats[k as int] == (id, s@));
        let at: usize = id as usize;
        if at >= self.graph.nodes.len() {
            return false;
        }
        let n: usize = s.len();
        if n > usize::MAX / 3 {
            return false;
        }
        let need: usize = n * 3;
        let base: usize = self.graph.state.len();
        let slot: u32 = match self.graph.nodes[at].state_slot {
            Some(x) => x,
            None => {
                if base > usize::MAX - need {
                    return false;
                }
                base as u32
            },
        };
        if slot as usize > usize::MAX - need {
            return false;
        }
        let ghost g0 = self@.graph;
        if self.graph.nodes[at].state_slot.is_none() {
            pad(&mut self.graph.state, base + need);
            self.graph.nodes[at].state_slot = Some(slot);
        }
        let end: usize = slot as usize + need;
        pad(&mut self.graph.state, end);
        write_stats(&mut self.graph.state, slot, &s);
        proof {
            let g = saved_one(g0, id, s@)->Some_0;
            assert(self@.graph.nodes =~= g.nodes);
            assert(self@ =~= (Mach { graph: g, ..old(self)@ }));
        }
        true
    }

    fn save_strategy_stats(&mut self) -> (ok: bool)
        ensures
            (final(self)@.graph, ok) == saved_all(old(self)@.graph, old(self)@.stats),
            final(self)@ == (Mach { graph: final(self)@.graph, ..old(self)@ }),
    {
        let ghost before = self@;
        let ghost all = self@.stats;
        let mut k: usize = 0;
        assert(all.take(0) =~= Seq::<(u32, Seq<OptionStats>)>::empty());
        while k < self.strategy_stats.len()
            invariant
                k <= self.strategy_stats.len(),
                before == old(self)@,
                all == before.stats,
                all == stats_views(self.strategy_stats@),
                saved_all(before.graph, all.take(k as int)) == (self@.graph, true),
                self@ == (Mach { graph: self@.graph, ..before }),
            decreases self.strategy_stats.len() - k,
        {
            assert(all.take(k + 1).drop_last() =~= all.take(k as int));
            assert(all.take(k + 1).last() == all[k as int]);
            let done = self.save_one(k);
            if !done {
                proof {
                    saved_all_fails(before.graph, all, k + 1);
                }
                return false;
            }
            k = k + 1;
        }
        assert(all.take(k as int) =~= all);
        true
    }

    fn settle(&mut self, scaling: bool, i: usize)
        ensures
            final(self)@ == old(self)@.settle(scaling, i as int),
    {
        if i < self.weight_deltas.len() {
            let (id, w, by) = self.weight_deltas[i];
            assert(self@.deltas[i as int] == (id, w as int, by));
            let at: usize = id as usize;
            if at < self.graph.nodes.len() {
                if scaling {
                    self.wait(Wait::Normal { next: i + 1, id });
                    return;
                }
                if w < self.graph.nodes[at].weights.len() {
                    let weight = self.graph.nodes[at].weights[w];
                    self.wait(Wait::Delta { next: i + 1, id, at: w, weight, by });
                    return;
                }
            }
            self.go(Control::Settle(scaling, i + 1));
        } else if !scaling {
            self.go(Control::Settle(true, 0));
        } else {
            let ok = self.save_strategy_stats();
            self.weight_deltas = Vec::new();
            assert(self@.deltas =~= Seq::<(u32, int, Real)>::empty());
            if ok {
                self.go(Control::Finished);
            } else {
                self.stop();
            }
        }
    }

    fn hear(&mut self, w: Wait, e: Event)
        ensures
            final(self)@ == old(self)@.hear(wait_view(w), event_view(e)),
    {
        match (w, e) {
            (Wait::Computed(op, a, b), Event::Number(r)) => self.hear_computed(op, a, b, r),
            (Wait::Shown(a, g, b), Event::Texts(t)) => self.hear_shown(a, g, b, t),
            (Wait::ParseReal(t), Event::Parsed(p)) => self.hear_parsed(t, p),
            (Wait::PrintTexts(args), Event::Texts(t)) => self.hear_print(args, t),
            (Wait::Printing(line), Event::Go) => self.hear_printed(line),
            (Wait::Line, Event::Line(r)) => self.hear_line(r),
            (Wait::Clock, Event::Time(t)) => self.hear_clock(t),
            (Wait::Weighted(id), Event::Drawn { sum, running, roll }) => self.hear_drawn(
                id,
                sum,
                running,
                roll,
            ),
            (Wait::Explore(id), Event::Rolled { roll, pick }) => self.hear_rolled(id, roll, pick),
            (Wait::Exploring(id), Event::Odds { roll, chance }) => self.hear_odds(
                id,
                roll,
                chance,
            ),
            (Wait::VoteTexts, Event::Texts(t)) => self.hear_votes(t),
            (Wait::VoteNumbers, Event::Numbers(v)) => {
                reveal(Mach::hear);
                self.hear_vote_numbers(v);
            },
            (Wait::Distances(v), Event::Numbers(d)) => {
                reveal(Mach::hear);
                self.hear_distances(v, d);
            },
            (Wait::VoteRange(mask), Event::Number(r)) => {
                reveal(Mach::hear);
                self.hear_vote_range(mask, r);
            },
            (Wait::VoteMoves(mask, range), Event::Moved { raised, lowered }) => {
                reveal(Mach::hear);
                self.hear_vote_moves(mask, range, raised, lowered);
            },
            (Wait::VoteScale(mask), Event::Shares { sum, shares }) => {
                reveal(Mach::hear);
                self.hear_vote_scale(mask, sum, shares);
            },
            (Wait::Averages, Event::Numbers(v)) => {
                reveal(Mach::hear);
                self.hear_averages(v);
            },
            (Wait::TimeRange(v), Event::Number(r)) => {
                reveal(Mach::hear);
                self.hear_time_range(v, r);
            },
            (Wait::TimeMoves(v, range), Event::Moved { raised, lowered }) => {
                reveal(Mach::hear);
                self.hear_time_moves(v, range, raised, lowered);
            },
            (Wait::TimeScale, Event::Shares { sum, shares }) => {
                reveal(Mach::hear);
                self.hear_time_scale(sum, shares);
            },
            (Wait::Reward(target, reward), Event::Moved { raised, lowered }) => self.hear_reward(
                target,
                reward,
                raised,
                lowered,
            ),
            (Wait::RewardScale(target), Event::Shares { sum, shares }) => self.hear_reward_scale(
                target,
                sum,
                shares,
            ),
            (Wait::Capability(name, args), Event::Capability(r)) => self.hear_capability(
                name,
                args,
                r,
            ),
            (Wait::Delta { next, id, at, weight, by }, Event::Number(r)) => self.hear_delta(
                next,
                id,
                at,
                weight,
                by,
                r,
            ),
            (Wait::Normal { next, id }, Event::Shares { sum, shares }) => self.hear_normal(
                next,
                id,
                sum,
                shares,
            ),
            (w, e) => {
                proof {
                    other_events_change_nothing(self@, wait_view(w), event_view(e));
                }
                self.wait(w);
            },
        }
    }

    fn hear_computed(&mut self, op: FloatOp, a: Real, b: Real, r: Real)
        ensures
            final(self)@ == old(self)@.hear(Wt::Computed(op, a, b), Ev::Number(r)),
    {
        reveal(Mach::hear);
        self.take(finish_computed(op, r));
    }

    fn hear_parsed(&mut self, t: String, p: Option<Real>)
        ensures
            final(self)@ == old(self)@.hear(Wt::ParseReal(t@), Ev::Parsed(p)),
    {
        reveal(Mach::hear);
        match p {
            Some(r) => self.value(GVal::Float(r)),
            None => {
                let mut m = String::from_str("cannot parse '");
                m.append(t.as_str());
                m.append("' as number");
                self.go(Control::Failed(m));
            },
        }
    }

    fn hear_printed(&mut self, line: String)
        ensures
            final(self)@ == old(self)@.hear(Wt::Printing(line@), Ev::Go),
    {
        reveal(Mach::hear);
        self.stdout_buffer.push(line);
        assert(self@.printed =~= old(self)@.printed.push(line@));
        self.value(GVal::Null);
    }

    fn hear_line(&mut self, r: Result<String, String>)
        ensures
            final(self)@ == old(self)@.hear(Wt::Line, event_view(Event::Line(r))),
    {
        reveal(Mach::hear);
        match r {
            Ok(s) => self.value(GVal::Str(trim_end(s.as_str()))),
            Err(e) => {
                let mut m = String::from_str("read error: ");
                m.append(e.as_str());
                self.go(Control::Failed(m));
            },
        }
    }

    fn hear_clock(&mut self, t: u128)
        ensures
            final(self)@ == old(self)@.hear(Wt::Clock, Ev::Time(t)),
    {
        reveal(Mach::hear);
        if self.frames.len() == 0 {
            self.stop();
        } else {
            self.clock(t);
        }
    }

    fn hear_drawn(&mut self, id: u32, sum: Real, running: Vec<Real>, roll: Real)
        ensures
            final(self)@ == old(self)@.hear(
                Wt::Weighted(id),
                Ev::Drawn { sum, running: running@, roll },
            ),
    {
        reveal(Mach::hear);
        if running.len() > 0 && running.len() == self.choices(id) {
            let i: usize = crate::learning::select_weighted(sum, &running, roll).0;
            self.chosen(id, i);
        } else {
            self.wait(Wait::Weighted(id));
        }
    }

    fn hear_rolled(&mut self, id: u32, roll: Real, pick: Real)
        ensures
            final(self)@ == old(self)@.hear(Wt::Explore(id), Ev::Rolled { roll, pick }),
    {
        reveal(Mach::hear);
        if roll.lt(self.options.epsilon) {
            let i: usize = pick.to_usize();
            self.chosen(id, i);
        } else {
            let n: usize = self.choices(id);
            let i: usize = self.heaviest_of(id, n, None);
            self.chosen(id, i);
        }
    }

    fn hear_odds(&mut self, id: u32, roll: Real, chance: Real)
        ensures
            final(self)@ == old(self)@.hear(Wt::Exploring(id), Ev::Odds { roll, chance }),
    {
        reveal(Mach::hear);
        self.explore(id, is_exploring(roll, chance));
    }

    fn hear_reward(&mut self, target: u32, reward: Real, raised: Vec<Real>, lowered: Vec<Real>)
        ensures
            final(self)@ == old(self)@.hear(
                Wt::Reward(target, reward),
                Ev::Moved { raised: raised@, lowered: lowered@ },
            ),
    {
        reveal(Mach::hear);
        let all = self.all_weights(target);
        if raised.len() == all.len() && lowered.len() == all.len() {
            let at: usize = self.bias_index(target);
            self.set_weights(target, weigh_reward(&all, at, &raised, &lowered));
            self.wait(Wait::RewardScale(target));
        } else {
            self.wait(Wait::Reward(target, reward));
        }
    }

    fn hear_reward_scale(&mut self, target: u32, sum: Real, shares: Vec<Real>)
        ensures
            final(self)@ == old(self)@.hear(
                Wt::RewardScale(target),
                Ev::Shares { sum, shares: shares@ },
            ),
    {
        reveal(Mach::hear);
        let all = self.all_weights(target);
        if shares.len() == all.len() {
            self.set_weights(target, scale_weights(all, sum, shares));
            self.journal(target);
            self.value(GVal::Null);
        } else {
            self.wait(Wait::RewardScale(target));
        }
    }

    fn hear_capability(
        &mut self,
        name: String,
        args: Vec<CapValue>,
        r: Result<CapValue, String>,
    )
        ensures
            final(self)@ == old(self)@.hear(
                Wt::Capability(name@, caps(args@)),
                event_view(Event::Capability(r)),
            ),
    {
        reveal(Mach::hear);
        match r {
            Ok(c) => self.value(cap_to_gval(&c)),
            Err(m) => self.go(Control::Failed(m)),
        }
    }

    fn hear_normal(&mut self, next: usize, id: u32, sum: Real, shares: Vec<Real>)
        ensures
            final(self)@ == old(self)@.hear(
                Wt::Normal { next: next as int, id },
                Ev::Shares { sum, shares: shares@ },
            ),
    {
        reveal(Mach::hear);
        let all = self.all_weights(id);
        if shares.len() == all.len() {
            self.set_weights(id, scale_weights(all, sum, shares));
            self.go(Control::Settle(true, next));
        } else {
            self.wait(Wait::Normal { next, id });
        }
    }

    fn hear_shown(&mut self, a: String, g: GVal, b: String, t: Vec<String>)
        ensures
            final(self)@ == old(self)@.hear(
                Wt::Shown(a@, val(g), b@),
                Ev::Texts(texts(t@)),
            ),
    {
        reveal(Mach::hear);
        let mut reals: Vec<Real> = Vec::new();
        collect_reals(&g, &mut reals);
        assert(reals@ =~= reals_in(val(g)));
        if t.len() != reals.len() {
            self.wait(Wait::Shown(a, g, b));
            return;
        }
        let ghost front = a@;
        let mut s = a;
        let end: usize = render(&g, &t, 0, &mut s);
        assert(texts(t@).subrange(0, t@.len() as int) =~= texts(t@));
        s.append(b.as_str());
        self.value(GVal::Str(s));
    }

    fn hear_print(&mut self, args: Vec<GVal>, t: Vec<String>)
        ensures
            final(self)@ == old(self)@.hear(Wt::PrintTexts(vals(args@)), Ev::Texts(texts(t@))),
    {
        reveal(Mach::hear);
        let mut reals: Vec<Real> = Vec::new();
        collect_reals_all(&args, &mut reals);
        assert(reals@ =~= reals_in_all(vals(args@)));
        if t.len() != reals.len() {
            self.wait(Wait::PrintTexts(args));
            return;
        }
        let parts = show_each(&args, &t);
        let line = join(&parts);
        self.wait(Wait::Printing(line));
    }

    fn hear_votes(&mut self, t: Vec<String>)
        ensures
            final(self)@ == old(self)@.hear(Wt::VoteTexts, Ev::Texts(texts(t@))),
    {
        reveal(Mach::hear);
        if self.frames.len() == 0 {
            self.stop();
            return;
        }
        let top: usize = self.frames.len() - 1;
        assert(self@.frames.last() == frame_view(self.frames@[top as int]));
        let shown: Vec<String>;
        match &self.frames[top] {
            Frame::Vote { results, .. } => {
                let mut reals: Vec<Real> = Vec::new();
                collect_reals_all(results, &mut reals);
                assert(reals@ =~= reals_in_all(vals(results@)));
                if t.len() != reals.len() {
                    self.wait(Wait::VoteTexts);
                    return;
                }
                shown = show_each(results, &t);
            },
            _ => {
                self.stop();
                return;
            },
        }
        let mask = agreement(&shown);
        self.voted(mask);
    }

    /// The vote on top: its node, how many of the node's weights take part, and how
    /// many results there are.
    fn top_vote(&self) -> (r: Option<(u32, usize, usize)>)
        ensures
            match self@.top() {
                Fr::Vote { id, tolerant, n, results, .. } => r matches Some((i, k, m)) && i == id && k
                    == self@.voting_weights(id, tolerant, n) && k <= self@.node(id).weights.len()
                    && m == results.len(),
                _ => r is None,
            },
    {
        if self.frames.len() == 0 {
            return None;
        }
        let top: usize = self.frames.len() - 1;
        assert(self@.frames.last() == frame_view(self.frames@[top as int]));
        match &self.frames[top] {
            Frame::Vote { id, tolerant, n, results, .. } => {
                let k: usize = self.votes_of(*id, *tolerant, *n);
                let m: usize = results.len();
                assert(vals(results@).len() == results@.len());
                Some((*id, k, m))
            },
            _ => None,
        }
    }

    fn hear_vote_numbers(&mut self, v: Vec<Real>)
        ensures
            final(self)@ == old(self)@.hear_vote_numbers(v@),
    {
        reveal(Mach::hear_vote_numbers);
        match self.top_vote() {
            Some((_, _, m)) => {
                if v.len() != m {
                    self.wait(Wait::VoteNumbers);
                } else if v.len() == 0 {
                    self.stop();
                } else {
                    self.wait(Wait::Distances(v));
                }
            },
            None => self.stop(),
        }
    }

    fn hear_distances(&mut self, v: Vec<Real>, d: Vec<Real>)
        ensures
            final(self)@ == old(self)@.hear_distances(v@, d@),
    {
        reveal(Mach::hear_distances);
        if self.frames.len() == 0 {
            self.stop();
            return;
        }
        let top: usize = self.frames.len() - 1;
        assert(self@.frames.last() == frame_view(self.frames@[top as int]));
        let mask = match &self.frames[top] {
            Frame::Vote { tol, results, .. } => {
                assert(vals(results@).len() == results@.len());
                if d.len() != results.len() {
                    self.wait(Wait::Distances(v));
                    return;
                }
                within_each(&d, *tol)
            },
            _ => {
                self.stop();
                return;
            },
        };
        self.voted(mask);
    }

    fn hear_vote_range(&mut self, mask: Vec<bool>, range: Real)
        ensures
            final(self)@ == old(self)@.hear_vote_range(mask@, range),
    {
        reveal(Mach::hear_vote_range);
        if self.frames.len() == 0 {
            self.stop();
            return;
        }
        let top: usize = self.frames.len() - 1;
        assert(self@.frames.last() == frame_view(self.frames@[top as int]));
        match &self.frames[top] {
            Frame::Vote { id, tolerant, n, times, .. } => {
                let k: usize = self.votes_of(*id, *tolerant, *n);
                if is_positive(range) && k > times.len() {
                    self.stop();
                } else {
                    self.wait(Wait::VoteMoves(mask, range));
                }
            },
            _ => self.stop(),
        }
    }

    fn hear_vote_moves(
        &mut self,
        mask: Vec<bool>,
        range: Real,
        raised: Vec<Real>,
        lowered: Vec<Real>,
    )
        ensures
            final(self)@ == old(self)@.hear_vote_moves(mask@, range, raised@, lowered@),
    {
        reveal(Mach::hear_vote_moves);
        match self.top_vote() {
            Some((id, k, _)) => {
                if lowered.len() == k && (!is_positive(range) || raised.len() == k) {
                    let all = self.all_weights(id);
                    let w = weigh_vote(&all, k, &mask, range, &raised, &lowered);
                    self.set_weights(id, w);
                    self.wait(Wait::VoteScale(mask));
                } else {
                    self.wait(Wait::VoteMoves(mask, range));
                }
            },
            None => self.stop(),
        }
    }

    fn hear_vote_scale(&mut self, mask: Vec<bool>, sum: Real, shares: Vec<Real>)
        ensures
            final(self)@ == old(self)@.hear_vote_scale(mask@, sum, shares@),
    {
        reveal(Mach::hear_vote_scale);
        match self.top_vote() {
            Some((id, k, _)) => {
                if shares.len() == k {
                    let all = self.all_weights(id);
                    self.set_weights(id, scale_weights(all, sum, shares));
                    self.journal(id);
                    self.concluded(mask);
                } else {
                    self.wait(Wait::VoteScale(mask));
                }
            },
            None => self.stop(),
        }
    }

    /// The strategy on top whose option is timed.
    fn top_timed(&self) -> (r: Option<u32>)
        ensures
            match self@.top() {
                Fr::Timed { id, .. } => r == Some(id),
                _ => r is None,
            },
    {
        if self.frames.len() == 0 {
            return None;
        }
        let top: usize = self.frames.len() - 1;
        assert(self@.frames.last() == frame_view(self.frames@[top as int]));
        match &self.frames[top] {
            Frame::Timed { id, .. } => Some(*id),
            _ => None,
        }
    }

    fn known(&self, id: u32) -> (s: Vec<OptionStats>)
        ensures
            s@ == self@.known(id),
    {
        match self.stats(id) {
            Some(s) => s,
            None => Vec::new(),
        }
    }

    fn hear_averages(&mut self, v: Vec<Real>)
        ensures
            final(self)@ == old(self)@.hear_averages(v@),
    {
        reveal(Mach::hear_averages);
        match self.top_timed() {
            Some(id) => {
                if v.len() == self.known(id).len() {
                    self.wait(Wait::TimeRange(v));
                } else {
                    self.wait(Wait::Averages);
                }
            },
            None => self.stop(),
        }
    }

    fn hear_time_range(&mut self, v: Vec<Real>, range: Real)
        ensures
            final(self)@ == old(self)@.hear_time_range(v@, range),
    {
        reveal(Mach::hear_time_range);
        if !self.top_flow() {
            self.stop();
            return;
        }
        if is_positive(range) {
            self.wait(Wait::TimeMoves(v, range));
            return;
        }
        match self.pop() {
            Frame::Timed { flow: Some(f), .. } => self.leave(f),
            _ => self.stop(),
        }
    }

    /// Whether a timed option of the strategy on top has its result.
    fn top_flow(&self) -> (b: bool)
        ensures
            b == match self@.top() {
                Fr::Timed { flow: Some(f), .. } => true,
                _ => false,
            },
    {
        if self.frames.len() == 0 {
            return false;
        }
        let top: usize = self.frames.len() - 1;
        assert(self@.frames.last() == frame_view(self.frames@[top as int]));
        match &self.frames[top] {
            Frame::Timed { flow: Some(_), .. } => true,
            _ => false,
        }
    }

    fn timed_count(&self, id: u32, v: &Vec<Real>) -> (k: usize)
        ensures
            k == self@.timed_count(id, v@),
            k <= v@.len(),
            k <= self@.node(id).weights.len(),
    {
        let n: usize = self.weight_count(id);
        if v.len() < n {
            v.len()
        } else {
            n
        }
    }

    fn hear_time_moves(&mut self, v: Vec<Real>, range: Real, raised: Vec<Real>, lowered: Vec<Real>)
        ensures
            final(self)@ == old(self)@.hear_time_moves(v@, range, raised@, lowered@),
    {
        reveal(Mach::hear_time_moves);
        match self.top_timed() {
            Some(id) => {
                if raised.len() == self.timed_count(id, &v) {
                    let all = self.all_weights(id);
                    self.set_weights(id, weigh_times(&all, &raised));
                    self.wait(Wait::TimeScale);
                } else {
                    self.wait(Wait::TimeMoves(v, range));
                }
            },
            None => self.stop(),
        }
    }

    fn hear_time_scale(&mut self, sum: Real, shares: Vec<Real>)
        ensures
            final(self)@ == old(self)@.hear_time_scale(sum, shares@),
    {
        reveal(Mach::hear_time_scale);
        if !self.top_flow() {
            self.stop();
            return;
        }
        let ghost all_frames = self@.frames;
        match self.pop() {
            Frame::Timed { id, chosen, started, flow: Some(f) } => {
                let all = self.all_weights(id);
                if shares.len() == all.len() {
                    self.set_weights(id, scale_weights(all, sum, shares));
                    self.journal(id);
                    self.leave(f);
                } else {
                    self.push(Frame::Timed { id, chosen, started, flow: Some(f) });
                    assert(self@.frames =~= all_frames);
                    self.wait(Wait::TimeScale);
                }
            },
            _ => self.stop(),
        }
    }

    fn hear_delta(&mut self, next: usize, id: u32, at: usize, weight: Real, by: Real, r: Real)
        ensures
            final(self)@ == old(self)@.hear(
                Wt::Delta { next: next as int, id, at: at as int, weight, by },
                Ev::Number(r),
            ),
    {
        reveal(Mach::hear);
        let mut all = self.all_weights(id);
        if at < all.len() {
            all.set(at, hold(r));
            self.set_weights(id, all);
        }
        self.go(Control::Settle(false, next));
    }

    fn question(&self, w: &Wait) -> (q: Query)
        ensures
            query_view(q) == self@.question(wait_view(*w)),
    {
        match w {
            Wait::Computed(op, a, b) => Query::Compute(*op, *a, *b),
            Wait::Shown(_, g, _) => {
                let mut reals: Vec<Real> = Vec::new();
                collect_reals(g, &mut reals);
                assert(reals@ =~= reals_in(val(*g)));
                Query::Texts(reals)
            },
            Wait::ParseReal(t) => Query::ParseReal(t.clone()),
            Wait::PrintTexts(args) => {
                let mut reals: Vec<Real> = Vec::new();
                collect_reals_all(args, &mut reals);
                assert(reals@ =~= reals_in_all(vals(args@)));
                Query::Texts(reals)
            },
            Wait::Printing(line) => Query::Print(line.clone()),
            Wait::Line => Query::ReadLine,
            Wait::Clock => Query::Now,
            Wait::Weighted(id) => {
                let n: usize = self.choices(*id);
                Query::Draw(self.some_weights(*id, n))
            },
            Wait::Explore(id) => Query::Roll(self.choices(*id)),
            Wait::Exploring(id) => Query::Odds(
                tries_in(&self.known(*id)),
                roll(self.activations(*id)),
            ),
            Wait::VoteTexts
            | Wait::VoteNumbers
            | Wait::VoteRange(_)
            | Wait::VoteMoves(_, _)
            | Wait::VoteScale(_) => self.vote_question(w),
            Wait::Averages | Wait::TimeMoves(_, _) | Wait::TimeScale => self.time_question(w),
            Wait::Distances(v) => Query::Distances(copy_list(v), median_of(v)),
            Wait::TimeRange(v) => {
                let b = average_bounds(v);
                Query::Compute(FloatOp::Sub, b.1, b.0)
            },
            Wait::Reward(target, reward) => Query::Reward(self.all_weights(*target), *reward),
            Wait::RewardScale(target) => Query::Shares(self.all_weights(*target)),
            Wait::Capability(name, args) => Query::Capability(name.clone(), copy_caps(args)),
            Wait::Delta { weight, by, .. } => Query::Compute(FloatOp::Add, *weight, *by),
            Wait::Normal { id, .. } => Query::Shares(self.all_weights(*id)),
        }
    }

    fn bias_index(&self, id: u32) -> (i: usize)
        ensures
            i == cut_to(self@.node(id).bias, usize::MAX as nat),
    {
        let at: usize = id as usize;
        if at < self.graph.nodes.len() {
            self.graph.nodes[at].bias.to_usize()
        } else {
            Real::zero().to_usize()
        }
    }

    /// What the vote on top needs to hear.
    fn vote_question(&self, w: &Wait) -> (q: Query)
        requires
            *w is VoteTexts || *w is VoteNumbers || *w is VoteRange || *w is VoteMoves
                || *w is VoteScale,
        ensures
            query_view(q) == self@.question(wait_view(*w)),
    {
        if self.frames.len() == 0 {
            return empty_question(w);
        }
        let top: usize = self.frames.len() - 1;
        assert(self@.frames.last() == frame_view(self.frames@[top as int]));
        match (w, &self.frames[top]) {
            (Wait::VoteTexts, Frame::Vote { results, .. }) => {
                let mut reals: Vec<Real> = Vec::new();
                collect_reals_all(results, &mut reals);
                assert(reals@ =~= reals_in_all(vals(results@)));
                Query::Texts(reals)
            },
            (Wait::VoteNumbers, Frame::Vote { results, .. }) => Query::Numbers(numerics(results)),
            (Wait::VoteRange(mask), Frame::Vote { times, .. }) => Query::Compute(
                FloatOp::Sub,
                slowest_of(times),
                fastest_of(times, mask),
            ),
            (Wait::VoteMoves(mask, range), Frame::Vote { id, tolerant, n, times, .. }) => {
                let k: usize = self.votes_of(*id, *tolerant, *n);
                let spent = if is_positive(*range) && k <= times.len() {
                    times_as_reals(times, k)
                } else {
                    Vec::new()
                };
                Query::Moves {
                    weights: self.some_weights(*id, k),
                    times: spent,
                    fastest: fastest_of(times, mask),
                    range: *range,
                }
            },
            (Wait::VoteScale(_), Frame::Vote { id, tolerant, n, .. }) => {
                let k: usize = self.votes_of(*id, *tolerant, *n);
                Query::Shares(self.some_weights(*id, k))
            },
            _ => empty_question(w),
        }
    }

    /// What the timed strategy on top needs to hear.
    fn time_question(&self, w: &Wait) -> (q: Query)
        requires
            *w is Averages || *w is TimeMoves || *w is TimeScale,
        ensures
            query_view(q) == self@.question(wait_view(*w)),
    {
        match (w, self.top_timed()) {
            (Wait::Averages, Some(id)) => Query::Averages(self.known(id)),
            (Wait::TimeMoves(v, range), Some(id)) => {
                let k: usize = self.timed_count(id, v);
                Query::Moves {
                    weights: self.some_weights(id, k),
                    times: copy_reals(v, k),
                    fastest: average_bounds(v).0,
                    range: *range,
                }
            },
            (Wait::TimeScale, Some(id)) => Query::Shares(self.all_weights(id)),
            _ => empty_question(w),
        }
    }

    /// What the host does next in this state.
    pub fn action(&self) -> (a: Action)
        ensures
            action_view(a) == self@.action(),
    {
        match &self.control {
            Control::Wait(w) => Action::Ask(self.question(w)),
            Control::Failed(m) => Action::Finished(Err(runtime_error(m.clone()))),
            Control::Stopped => Action::Panic,
            Control::Finished => Action::Finished(Ok(copy_val(&self.result))),
            _ => Action::Continue,
        }
    }

    /// Takes one step: `event` answers the last query.
    pub fn step(&mut self, event: Event) -> (a: Action)
        ensures
            final(self)@ == old(self)@.step(event_view(event)),
            action_view(a) == final(self)@.action(),
    {
        let mut control = Control::Resume;
        core::mem::swap(&mut self.control, &mut control);
        match control {
            Control::Enter(id) => {
                self.control = Control::Enter(id);
                self.enter(id);
            },
            Control::Give(f) => self.give(f),
            Control::Resume => self.resume(),
            Control::Settle(scaling, i) => {
                self.control = Control::Settle(scaling, i);
                self.settle(scaling, i);
            },
            Control::Wait(w) => self.hear(w, event),
            other => {
                self.control = other;
            },
        }
        self.action()
    }
}

fn empty_question(w: &Wait) -> (q: Query)
    ensures
        match *w {
            Wait::VoteTexts => query_view(q) == Qu::Texts(Seq::empty()),
            Wait::VoteNumbers => query_view(q) == Qu::Numbers(Seq::empty()),
            Wait::VoteRange(_) => query_view(q) == Qu::Compute(
                FloatOp::Sub,
                Real { bits: 0 },
                Real { bits: 0 },
            ),
            Wait::VoteMoves(_, range) => query_view(q) == no_moves(range),
            Wait::TimeMoves(_, range) => query_view(q) == no_moves(range),
            Wait::Averages => query_view(q) == Qu::Averages(Seq::empty()),
            _ => query_view(q) == Qu::Shares(Seq::empty()),
        },
{
    match w {
        Wait::VoteTexts => Query::Texts(Vec::new()),
        Wait::VoteNumbers => {
            let v: Vec<Numeric> = Vec::new();
            assert(v@.map_values(|n: Numeric| numeric_view(n)) =~= Seq::<Num>::empty());
            Query::Numbers(v)
        },
        Wait::VoteRange(_) => Query::Compute(FloatOp::Sub, Real::zero(), Real::zero()),
        Wait::VoteMoves(_, range) | Wait::TimeMoves(_, range) => Query::Moves {
            weights: Vec::new(),
            times: Vec::new(),
            fastest: Real::zero(),
            range: *range,
        },
        Wait::Averages => Query::Averages(Vec::new()),
        _ => Query::Shares(Vec::new()),
    }
}

fn copy_list(v: &Vec<Real>) -> (r: Vec<Real>)
    ensures
        r@ == v@,
{
    let r = copy_reals(v, v.len());
    assert(v@.take(v@.len() as int) == v@);
    r
}

fn numerics(results: &Vec<GVal>) -> (v: Vec<Numeric>)
    ensures
        v@.map_values(|n: Numeric| numeric_view(n)) == vals(results@).map_values(
            |x: Val| numeric_of(x),
        ),
{
    let mut v: Vec<Numeric> = Vec::new();
    let mut i: usize = 0;
    while i < results.len()
        invariant
            i <= results.len(),
            v@.len() == i,
            forall|k: int|
                0 <= k < i ==> numeric_view(#[trigger] v@[k]) == numeric_of(val(results@[k])),
        decreases results.len() - i,
    {
        let n = match &results[i] {
            GVal::Float(f) => Numeric::Number(*f),
            GVal::Int(n) => Numeric::Number(Real::of_i64(*n)),
            GVal::Str(s) => Numeric::Parts(split_commas(s.as_str())),
            _ => Numeric::Number(Real::zero()),
        };
        v.push(n);
        i = i + 1;
    }
    assert(v@.map_values(|n: Numeric| numeric_view(n)) =~= vals(results@).map_values(
        |x: Val| numeric_of(x),
    ));
    v
}

fn tries_in(s: &Vec<OptionStats>) -> (n: u64)
    ensures
        n == total_tries(s@),
{
    let mut n: u64 = 0;
    let mut i: usize = 0;
    assert(s@.take(0) =~= Seq::<OptionStats>::empty());
    while i < s.len()
        invariant
            i <= s.len(),
            n == total_tries(s@.take(i as int)),
        decreases s.len() - i,
    {
        assert(s@.take(i + 1).drop_last() =~= s@.take(i as int));
        n = wrapping64(n, s[i].tries);
        i = i + 1;
    }
    assert(s@.take(i as int) =~= s@);
    n
}

fn roll(activations: u64) -> (r: u64)
    ensures
        r == roll_of(activations),
{
    let x: u128 = activations as u128 * 7 + 13;
    ((x % 0x1_0000_0000_0000_0000) % 100) as u64
}

fn show_each(s: &Vec<GVal>, t: &Vec<String>) -> (r: Vec<String>)
    requires
        t.len() == reals_in_all(vals(s@)).len(),
    ensures
        texts(r@) == shown_each(vals(s@), texts(t@)),
        r@.len() == s@.len(),
{
    let ghost all = vals(s@);
    let ghost tv = texts(t@);
    let mut r: Vec<String> = Vec::new();
    let mut i: usize = 0;
    let mut pos: usize = 0;
    proof {
        assert(all.take(0) =~= Seq::<Val>::empty());
        assert(texts(r@) =~= Seq::<Seq<char>>::empty());
        assert(tv.take(0) =~= Seq::<Seq<char>>::empty());
    }
    while i < s.len()
        invariant
            i <= s.len(),
            all == vals(s@),
            tv == texts(t@),
            r@.len() == i,
            t.len() == reals_in_all(all).len(),
            pos == reals_in_all(all.take(i as int)).len(),
            pos <= t.len(),
            texts(r@) == shown_each(all.take(i as int), tv.take(pos as int)),
        decreases s.len() - i,
    {
        proof {
            assert(all.take(i + 1).drop_last() =~= all.take(i as int));
            assert(all.take(i + 1).last() == val(s@[i as int]));
            reals_in_prefix(all, i + 1);
        }
        let ghost before = r@;
        let mut text = String::new();
        let next: usize = render(&s[i], t, pos, &mut text);
        proof {
            let whole = tv.take(next as int);
            assert(whole.take(pos as int) =~= tv.take(pos as int));
            assert(whole.skip(pos as int) =~= tv.subrange(pos as int, next as int));
            assert(Seq::<char>::empty() + text@ =~= text@);
        }
        r.push(text);
        assert(texts(r@) =~= texts(before).push(text@));
        pos = next;
        i = i + 1;
    }
    proof {
        assert(all.take(i as int) =~= all);
        assert(tv.take(pos as int) =~= tv);
    }
    r
}

fn join(parts: &Vec<String>) -> (s: String)
    ensures
        s@ == joined(texts(parts@)),
{
    let ghost all = texts(parts@);
    let mut s = String::new();
    let mut i: usize = 0;
    assert(all.take(0) =~= Seq::<Seq<char>>::empty());
    while i < parts.len()
        invariant
            i <= parts.len(),
            all == texts(parts@),
            s@ == joined(all.take(i as int)),
        decreases parts.len() - i,
    {
        proof {
            assert(all.take(i + 1).drop_last() =~= all.take(i as int));
            assert(all.take(i + 1).last() == parts@[i as int]@);
            if i == 0 {
                assert(all.take(1)[0] == parts@[0]@);
                assert(Seq::<char>::empty() + parts@[0]@ =~= parts@[0]@);
            }
        }
        if i > 0 {
            s.append(" ");
        }
        s.append(parts[i].as_str());
        i = i + 1;
    }
    assert(all.take(i as int) =~= all);
    s
}

fn count_votes(all: &Vec<String>, t: &String) -> (n: usize)
    ensures
        n == votes(texts(all@), t@),
{
    let ghost tv = texts(all@);
    let mut n: usize = 0;
    let mut i: usize = 0;
    assert(tv.take(0) =~= Seq::<Seq<char>>::empty());
    while i < all.len()
        invariant
            i <= all.len(),
            n <= i,
            tv == texts(all@),
            n == votes(tv.take(i as int), t@),
        decreases all.len() - i,
    {
        assert(tv.take(i + 1).drop_last() =~= tv.take(i as int));
        assert(tv.take(i + 1).last() == all@[i as int]@);
        if same(all[i].as_str(), t.as_str()) {
            n = n + 1;
        }
        i = i + 1;
    }
    assert(tv.take(i as int) =~= tv);
    n
}

fn agreement(all: &Vec<String>) -> (mask: Vec<bool>)
    ensures
        mask@ == agreeing(texts(all@)),
{
    let ghost tv = texts(all@);
    let mut best: usize = 0;
    let mut i: usize = 1;
    while i < all.len()
        invariant
            1 <= i,
            all.len() > 0 ==> i <= all.len() && best < all.len(),
            all.len() == 0 ==> best == 0,
            tv == texts(all@),
            best == leader(
                tv,
                if all.len() == 0 {
                    0
                } else {
                    i as int
                },
            ),
        decreases all.len() - i,
    {
        assert(tv[i as int] == all@[i as int]@ && tv[best as int] == all@[best as int]@);
        if count_votes(all, &all[i]) > count_votes(all, &all[best]) {
            best = i;
        }
        i = i + 1;
    }
    let mut mask: Vec<bool> = Vec::new();
    let mut k: usize = 0;
    while k < all.len()
        invariant
            k <= all.len(),
            all.len() > 0 ==> best < all.len(),
            tv == texts(all@),
            mask@.len() == k,
            forall|j: int|
                0 <= j < k ==> mask@[j] == (tv[j] == tv[best as int]),
        decreases all.len() - k,
    {
        assert(tv[k as int] == all@[k as int]@ && tv[best as int] == all@[best as int]@);
        mask.push(same(all[k].as_str(), all[best].as_str()));
        k = k + 1;
    }
    assert(mask@ =~= agreeing(tv));
    mask
}

pub fn stats_from(state: &Vec<Real>, slot: u32, n: usize) -> (v: Vec<OptionStats>)
    ensures
        v@ == read_stats(state@, slot, n as nat),
{
    let mut v: Vec<OptionStats> = Vec::new();
    let mut i: usize = 0;
    while i < n
        invariant
            i <= n,
            v@.len() == i,
            forall|k: int| 0 <= k < i ==> v@[k] == read_stat(state@, slot, k),
        decreases n - i,
    {
        let base: u128 = slot as u128 + i as u128 * 3;
        if base + 2 < state.len() as u128 {
            let at: usize = base as usize;
            v.push(
                OptionStats {
                    tries: state[at].to_u64(),
                    total_ns: state[at + 1].to_u128(),
                    correct: state[at + 2].to_u64(),
                },
            );
        } else {
            v.push(OptionStats { tries: 0, total_ns: 0, correct: 0 });
        }
        i = i + 1;
    }
    assert(v@ =~= read_stats(state@, slot, n as nat));
    v
}

fn pad(state: &mut Vec<Real>, len: usize)
    ensures
        final(state)@ == padded(old(state)@, len as int),
{
    let ghost before = state@;
    while state.len() < len
        invariant
            state@.len() >= before.len(),
            before.len() <= len ==> state@.len() <= len,
            before.len() > len ==> state@ == before,
            forall|k: int|
                0 <= k < state@.len() ==> state@[k] == (if k < before.len() {
                    before[k]
                } else {
                    Real { bits: 0 }
                }),
        decreases len - state.len(),
    {
        state.push(Real::zero());
    }
    assert(state@ =~= padded(before, len as int));
}

proof fn written_len(state: Seq<Real>, slot: u32, s: Seq<OptionStats>, k: int)
    requires
        slot + k * 3 <= state.len(),
    ensures
        written(state, slot, s, k).len() == state.len(),
    decreases k,
{
    if k > 0 {
        written_len(state, slot, s, k - 1);
    }
}

fn write_stats(state: &mut Vec<Real>, slot: u32, s: &Vec<OptionStats>)
    requires
        slot + s.len() * 3 <= old(state).len(),
    ensures
        final(state)@ == written(old(state)@, slot, s@, s@.len() as int),
{
    let ghost before = state@;
    let len: usize = state.len();
    let mut i: usize = 0;
    while i < s.len()
        invariant
            i <= s.len(),
            slot + s.len() * 3 <= before.len() <= usize::MAX,
            state@.len() == before.len(),
            state@ == written(before, slot, s@, i as int),
        decreases s.len() - i,
    {
        let base: usize = slot as usize + i * 3;
        let a = Real::of_u64(s[i].tries);
        let b = Real::of_u128(s[i].total_ns);
        let c = Real::of_u64(s[i].correct);
        proof {
            written_len(before, slot, s@, i + 1);
        }
        state.set(base, a);
        state.set(base + 1, b);
        state.set(base + 2, c);
        i = i + 1;
    }
}

proof fn saved_all_fails(g: GraphView, stats: Seq<(u32, Seq<OptionStats>)>, k: int)
    requires
        0 <= k <= stats.len(),
        !saved_all(g, stats.take(k)).1,
    ensures
        saved_all(g, stats) == saved_all(g, stats.take(k)),
    decreases stats.len() - k,
{
    if k < stats.len() {
        assert(stats.take(k + 1).drop_last() =~= stats.take(k));
        saved_all_fails(g, stats, k + 1);
    } else {
        assert(stats.take(k) =~= stats);
    }
}

/// Takes the value at an index out of a list.
fn take_at(v: &mut Vec<GVal>, i: usize) -> (g: GVal)
    requires
        i < old(v).len(),
    ensures
        final(v)@ == old(v)@.remove(i as int),
        g == old(v)@[i as int],
{
    v.remove(i)
}

fn since(t: u128, started: u128) -> (d: u128)
    ensures
        d == (if t >= started {
            (t - started) as u128
        } else {
            0
        }),
{
    if t >= started {
        t - started
    } else {
        0
    }
}

fn copy_stats(v: &Vec<OptionStats>) -> (r: Vec<OptionStats>)
    ensures
        r@ == v@,
{
    let mut r: Vec<OptionStats> = Vec::new();
    let mut i: usize = 0;
    while i < v.len()
        invariant
            i <= v.len(),
            r@ == v@.take(i as int),
        decreases v.len() - i,
    {
        r.push(v[i]);
        i = i + 1;
        assert(v@.take(i as int) == v@.take(i - 1).push(v@[i - 1]));
    }
    assert(v@.take(i as int) == v@);
    r
}

fn no_tries(n: usize) -> (v: Vec<OptionStats>)
    ensures
        v@ == Seq::new(n as nat, |i: int| untried()),
{
    let mut v: Vec<OptionStats> = Vec::new();
    let mut i: usize = 0;
    while i < n
        invariant
            i <= n,
            v@.len() == i,
            forall|k: int| 0 <= k < i ==> v@[k] == untried(),
        decreases n - i,
    {
        v.push(OptionStats { tries: 0, total_ns: 0, correct: 0 });
        i = i + 1;
    }
    assert(v@ =~= Seq::new(n as nat, |i: int| untried()));
    v
}

fn wrapping64(a: u64, b: u64) -> (c: u64)
    ensures
        c == sum64(a, b),
{
    if a > u64::MAX - b {
        a - (u64::MAX - b) - 1
    } else {
        a + b
    }
}

fn wrapping128(a: u128, b: u128) -> (c: u128)
    ensures
        c == sum128(a, b),
{
    if a > u128::MAX - b {
        a - (u128::MAX - b) - 1
    } else {
        a + b
    }
}

fn tried_once(s: OptionStats, ns: u128, correct: bool) -> (r: OptionStats)
    ensures
        r == tried(s, ns, correct),
{
    OptionStats {
        tries: wrapping64(s.tries, 1),
        total_ns: wrapping128(s.total_ns, ns),
        correct: if correct {
            wrapping64(s.correct, 1)
        } else {
            s.correct
        },
    }
}

fn tally(s: &Vec<OptionStats>, n: usize, times: &Vec<u128>, mask: &Vec<bool>) -> (r: Vec<
    OptionStats,
>)
    requires
        n <= times.len(),
        n <= mask.len(),
    ensures
        r@ == tallied(s@, n as int, times@, mask@),
{
    let mut r: Vec<OptionStats> = Vec::new();
    let mut i: usize = 0;
    while i < s.len()
        invariant
            i <= s.len(),
            n <= times.len(),
            n <= mask.len(),
            r@.len() == i,
            forall|k: int|
                0 <= k < i ==> r@[k] == (if k < n {
                    tried(s@[k], times@[k], mask@[k])
                } else {
                    s@[k]
                }),
        decreases s.len() - i,
    {
        if i < n {
            r.push(tried_once(s[i], times[i], mask[i]));
        } else {
            r.push(s[i]);
        }
        i = i + 1;
    }
    assert(r@ =~= tallied(s@, n as int, times@, mask@));
    r
}

fn trues(mask: &Vec<bool>) -> (n: usize)
    ensures
        n == count_true(mask@),
        n <= mask.len(),
{
    let mut n: usize = 0;
    let mut i: usize = 0;
    assert(mask@.take(0) =~= Seq::<bool>::empty());
    while i < mask.len()
        invariant
            i <= mask.len(),
            n <= i,
            n == count_true(mask@.take(i as int)),
        decreases mask.len() - i,
    {
        assert(mask@.take(i + 1).drop_last() =~= mask@.take(i as int));
        if mask[i] {
            n = n + 1;
        }
        i = i + 1;
    }
    assert(mask@.take(i as int) =~= mask@);
    n
}

fn every_tried(s: &Vec<OptionStats>) -> (b: bool)
    ensures
        b == all_tried(s@),
{
    let mut i: usize = 0;
    while i < s.len()
        invariant
            i <= s.len(),
            forall|k: int| 0 <= k < i ==> (#[trigger] s@[k]).tries > 0,
        decreases s.len() - i,
    {
        if s[i].tries == 0 {
            return false;
        }
        i = i + 1;
    }
    true
}

fn fewest(s: &Vec<OptionStats>) -> (m: u64)
    ensures
        m == least_tries(s@),
{
    let mut m: u64 = u64::MAX;
    let mut i: usize = 0;
    assert(s@.take(0) =~= Seq::<OptionStats>::empty());
    while i < s.len()
        invariant
            i <= s.len(),
            m == least_tries(s@.take(i as int)),
        decreases s.len() - i,
    {
        assert(s@.take(i + 1).drop_last() =~= s@.take(i as int));
        if s[i].tries < m {
            m = s[i].tries;
        }
        i = i + 1;
    }
    assert(s@.take(i as int) =~= s@);
    m
}

fn candidates(s: &Vec<OptionStats>) -> (c: Vec<usize>)
    ensures
        c@.map_values(|i: usize| i as int) == least_tried(s@, s@.len() as int),
        c@.len() == least_tried(s@, s@.len() as int).len(),
        forall|k: int|
            0 <= k < c@.len() ==> #[trigger] c@[k] == least_tried(s@, s@.len() as int)[k],
{
    let m: u64 = fewest(s);
    let mut c: Vec<usize> = Vec::new();
    let mut i: usize = 0;
    let ghost wide = |i: usize| i as int;
    assert(c@.map_values(wide) =~= Seq::<int>::empty());
    while i < s.len()
        invariant
            i <= s.len(),
            m == least_tries(s@),
            wide == (|i: usize| i as int),
            c@.map_values(wide) == least_tried(s@, i as int),
        decreases s.len() - i,
    {
        let ghost before = c@;
        if s[i].tries == m {
            c.push(i);
            assert(c@.map_values(wide) =~= before.map_values(wide).push(i as int));
        }
        i = i + 1;
    }
    assert forall|k: int| 0 <= k < c@.len() implies #[trigger] c@[k] == least_tried(
        s@,
        s@.len() as int,
    )[k] by {
        assert(c@.map_values(wide)[k] == c@[k] as int);
    }
    c
}

} // verus!
