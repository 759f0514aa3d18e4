//! The run of a graph as a machine that goes step by step.
//!
//! The machine keeps a stack of frames, one or more for each node that is
//! being evaluated. What only the host can do (number arithmetic, printing,
//! reading, the clock, chance, capabilities) it asks for, and goes on with the
//! answer.

use crate::cap_value::{Cap, caps_of, val_of_cap};
use crate::context::SelectionMode;
use crate::graph::{Contract, GraphView, ImmValue, JournalEntry, MutationKind, NodeView, OpCode, Operand, Parsed, plain_node};
use crate::number::{ONE, Real, cut_to, nearest_bits, real_of_int};
use crate::ops::{FloatOp, Out, arity, computed_out, op_out, split_out};
use crate::parse::trim_back;
use crate::values::{Val, reals_in, reals_in_all, show, texts};
use crate::weighing::{comma_parts, explores, fastest, greatest_average, held, least_average, median, positive, rewarded_weights, scaled_weights, slowest, time_reals, timed_weights, voted_weights, within};
use vstd::prelude::*;

verus! {

/// How deep nodes may nest.
pub const MAX_DEPTH: u32 = 65536;

/// The bits of 0.01, the least weight of a path.
pub const WEIGHT_FLOOR: u64 = 0x3F84_7AE1_47AE_147B;

/// The bits of 0.99, the greatest weight of a path.
pub const WEIGHT_CEILING: u64 = 0x3FEF_AE14_7AE1_47AE;

/// The bits of 0.01, by which a taken path gains.
pub const GAIN: u64 = 0x3F84_7AE1_47AE_147B;

/// The bits of -0.01, by which the other path loses.
pub const LOSS: u64 = 0xBF84_7AE1_47AE_147B;

/// The bits of minus infinity.
pub const NEG_INFINITY: u64 = 0xFFF0_0000_0000_0000;

/// The bits of -1.0.
pub const MINUS_ONE: u64 = 0xBFF0_0000_0000_0000;

/// What is known of one option of a strategy.
#[derive(Clone, Copy, Debug, PartialEq, Eq, Structural)]
pub struct OptionStats {
    pub tries: u64,
    pub total_ns: u128,
    pub correct: u64,
}

/// What a node hands to the one that evaluates it.
pub enum Flo {
    Val(Val),
    /// The value with which the enclosing function returns.
    Ret(Val),
}

impl Flo {
    pub open spec fn value(self) -> Val {
        match self {
            Flo::Val(v) => v,
            Flo::Ret(v) => v,
        }
    }
}

/// What a suspended evaluation waits to do.
#[allow(inconsistent_fields)]
pub enum Fr {
    /// Collecting operands.
    Args { id: u32, op: OpCode, done: Seq<Val> },
    /// The result of the chosen path is the node's.
    Tail,
    /// The result of the call is the node's.
    Await,
    /// Running operand `at` of a sequence.
    Items { id: u32, at: int },
    /// Running operand `at` of a loop; operand 0 is the condition.
    While { id: u32, at: int, last: Val },
    /// Running operand `at` for item `k`; operand 0 is the list.
    Each { id: u32, slot: u32, items: Seq<Val>, k: int, at: int, last: Val },
    /// Running operand `at` of a repetition with `left` rounds to go.
    Times { id: u32, left: int, at: int },
    /// Running node `at` of a function body.
    Body { body: Seq<u32>, at: int, saved: Seq<(u32, Option<Val>)> },
    /// Calling a function on item `k` of a list.
    Over { op: OpCode, func: Val, items: Seq<Val>, k: int, acc: Seq<Val> },
    /// Running all options of a strategy.
    Vote {
        id: u32,
        tolerant: bool,
        tol: Real,
        n: int,
        results: Seq<Val>,
        times: Seq<u128>,
        started: u128,
    },
    /// Running the chosen option of a strategy.
    Timed { id: u32, chosen: int, started: u128, flow: Option<Flo> },
}

/// What the machine waits to hear.
pub enum Wt {
    Computed(FloatOp, Real, Real),
    Shown(Seq<char>, Val, Seq<char>),
    ParseReal(Seq<char>),
    PrintTexts(Seq<Val>),
    Printing(Seq<char>),
    Line,
    Clock,
    Weighted(u32),
    Explore(u32),
    Exploring(u32),
    VoteTexts,
    /// The results of a vote as numbers.
    VoteNumbers,
    /// How far these numbers lie from their median.
    Distances(Seq<Real>),
    /// The vote's slowest time less its fastest.
    VoteRange(Seq<bool>),
    VoteMoves(Seq<bool>, Real),
    VoteScale(Seq<bool>),
    /// The average times of a strategy's options.
    Averages,
    /// The greatest of the averages less the least.
    TimeRange(Seq<Real>),
    TimeMoves(Seq<Real>, Real),
    TimeScale,
    Reward(u32, Real),
    RewardScale(u32),
    Capability(Seq<char>, Seq<Cap>),
    Delta { next: int, id: u32, at: int, weight: Real, by: Real },
    Normal { next: int, id: u32 },
}

/// What the machine does next.
pub enum Ct {
    Enter(u32),
    Give(Flo),
    Resume,
    Wait(Wt),
    /// Applying what the run learned: the changes one by one, and then the
    /// scaling of each changed node's weights.
    Settle(bool, int),
    Failed(Seq<char>),
    Stopped,
    Finished,
}

/// Why an operation may be refused, and how choices are made.
#[derive(Clone, Copy, Debug, PartialEq, Eq, Structural)]
pub struct RunOptions {
    pub deny_stdout: bool,
    pub deny_stdin: bool,
    pub mode: SelectionMode,
    pub epsilon: Real,
}

/// The state of a run.
#[verifier::ext_equal]
pub struct Mach {
    pub graph: GraphView,
    pub vars: Map<u32, Val>,
    /// Weight changes to apply at the end: node, weight, by how much.
    pub deltas: Seq<(u32, int, Real)>,
    pub depth: u32,
    pub stats: Seq<(u32, Seq<OptionStats>)>,
    pub run_number: u64,
    pub options: RunOptions,
    pub printed: Seq<Seq<char>>,
    pub frames: Seq<Fr>,
    pub control: Ct,
    pub result: Val,
}

/// A number, or the parts of a text, some of which may be numbers.
pub enum Num {
    Number(Real),
    Parts(Seq<Seq<char>>),
}

/// What the host is asked for.
pub enum Qu {
    Compute(FloatOp, Real, Real),
    Texts(Seq<Real>),
    ParseReal(Seq<char>),
    Print(Seq<char>),
    ReadLine,
    Now,
    Draw(Seq<Real>),
    Roll(int),
    Odds(u64, u64),
    Numbers(Seq<Num>),
    Distances(Seq<Real>, Real),
    Averages(Seq<OptionStats>),
    Moves { weights: Seq<Real>, times: Seq<Real>, fastest: Real, range: Real },
    Reward(Seq<Real>, Real),
    Shares(Seq<Real>),
    Capability(Seq<char>, Seq<Cap>),
}

/// What the host answers.
pub enum Ev {
    Go,
    Number(Real),
    Texts(Seq<Seq<char>>),
    Parsed(Option<Real>),
    Line(Result<Seq<char>, Seq<char>>),
    Time(u128),
    Drawn { sum: Real, running: Seq<Real>, roll: Real },
    Rolled { roll: Real, pick: Real },
    Odds { roll: Real, chance: Real },
    Numbers(Seq<Real>),
    Moved { raised: Seq<Real>, lowered: Seq<Real> },
    Shares { sum: Real, shares: Seq<Real> },
    Capability(Result<Cap, Seq<char>>),
}

/// What the host is told.
pub enum Ac {
    Continue,
    Ask(Qu),
    Finished(Result<Val, Seq<char>>),
    Panic,
}

// ---- Operands ----

pub open spec fn ref_of(op: Operand) -> u32 {
    match op {
        Operand::NodeRef(id) => id,
        _ => 0,
    }
}

pub open spec fn slot_of(op: Operand) -> u32 {
    match op {
        Operand::VarSlot(s) => s,
        _ => 0,
    }
}

/// How many leading operands are variable slots.
pub open spec fn param_count(ops: Seq<Operand>) -> nat
    decreases ops.len(),
{
    if ops.len() > 0 && ops[0] is VarSlot {
        1 + param_count(ops.drop_first())
    } else {
        0
    }
}

/// A function node's parameters and body.
pub open spec fn function_of(ops: Seq<Operand>) -> Val {
    let n = param_count(ops) as int;
    Val::GraphFn {
        param_slots: ops.take(n).map_values(|op: Operand| slot_of(op)),
        body_nodes: ops.skip(n).map_values(|op: Operand| ref_of(op)),
    }
}

/// Which operands a node evaluates before it acts: from where, and how many.
pub open spec fn operand_plan(op: OpCode, len: int) -> (int, int) {
    match arity(op) {
        Some(k) => (0int, k as int),
        None => match op {
            OpCode::StoreVar | OpCode::Feedback => (1int, 1int),
            OpCode::Array | OpCode::Print => (0int, len),
            OpCode::Call | OpCode::Capability => (
                0int,
                if len < 1 {
                    1int
                } else {
                    len
                },
            ),
            OpCode::Split => (
                0int,
                if len > 1 {
                    2int
                } else {
                    1int
                },
            ),
            OpCode::Pipe | OpCode::Filter | OpCode::MapEach => (0int, 2int),
            OpCode::Reduce => (
                0int,
                if len > 2 {
                    3int
                } else {
                    2int
                },
            ),
            _ => (0int, 1int),
        },
    }
}

// ---- Variables around calls ----

/// Binds parameters to arguments one by one; missing arguments are null. Also
/// gives what each slot held just before.
pub open spec fn bind(vars: Map<u32, Val>, slots: Seq<u32>, args: Seq<Val>) -> (
    Map<u32, Val>,
    Seq<(u32, Option<Val>)>,
)
    decreases slots.len(),
{
    if slots.len() == 0 {
        (vars, Seq::empty())
    } else {
        let (v, saved) = bind(vars, slots.drop_last(), args);
        let i = slots.len() - 1;
        let slot = slots.last();
        (
            v.insert(
                slot,
                if i < args.len() {
                    args[i]
                } else {
                    Val::Null
                },
            ),
            saved.push((slot, lookup(v, slot))),
        )
    }
}

pub open spec fn lookup(vars: Map<u32, Val>, slot: u32) -> Option<Val> {
    if vars.contains_key(slot) {
        Some(vars[slot])
    } else {
        None
    }
}

/// Puts back what the slots held, in the same order.
pub open spec fn restore(vars: Map<u32, Val>, saved: Seq<(u32, Option<Val>)>) -> Map<u32, Val>
    decreases saved.len(),
{
    if saved.len() == 0 {
        vars
    } else {
        let v = restore(vars, saved.drop_last());
        match saved.last().1 {
            Some(x) => v.insert(saved.last().0, x),
            None => v.remove(saved.last().0),
        }
    }
}

// ---- Choosing among weights ----

/// Whether option `i` may win; without a mask every option may.
pub open spec fn may_win(mask: Option<Seq<bool>>, i: int) -> bool {
    match mask {
        Some(m) => i < m.len() && m[i],
        None => true,
    }
}

/// The first index below `n` with the greatest weight among those that may
/// win; 0 where none is above minus infinity.
pub open spec fn heaviest(w: Seq<Real>, n: int, mask: Option<Seq<bool>>) -> (int, Real)
    decreases n,
{
    if n <= 0 {
        (0int, Real { bits: NEG_INFINITY })
    } else {
        let (i, best) = heaviest(w, n - 1, mask);
        if best.below(w[n - 1]) && may_win(mask, n - 1) {
            (n - 1, w[n - 1])
        } else {
            (i, best)
        }
    }
}

/// How many options an adaptive choice has.
pub open spec fn choice_count(node: NodeView) -> int {
    let w = node.weights.len() as int;
    let n = if node.contract == Contract::WithinTolerance && w > 1 {
        w - 1
    } else {
        w
    };
    if n < node.operands.len() {
        n
    } else {
        node.operands.len() as int
    }
}

/// How many options a strategy runs.
pub open spec fn strategy_count(node: NodeView) -> int {
    if node.weights.len() < node.operands.len() {
        node.weights.len() as int
    } else {
        node.operands.len() as int
    }
}

/// The opcodes that a running program can make nodes of.
pub open spec fn spawned_op(b: u8) -> OpCode {
    if b == 0x10 {
        OpCode::Add
    } else if b == 0x11 {
        OpCode::Sub
    } else if b == 0x12 {
        OpCode::Mul
    } else if b == 0x13 {
        OpCode::Div
    } else if b == 0x75 {
        OpCode::Sin
    } else if b == 0x76 {
        OpCode::Cos
    } else if b == 0x77 {
        OpCode::Abs
    } else if b == 0x78 {
        OpCode::Floor
    } else if b == 0x79 {
        OpCode::Round
    } else if b == 0x7A {
        OpCode::Sqrt
    } else if b == 0x70 {
        OpCode::Print
    } else {
        OpCode::Noop
    }
}

pub open spec fn reward_of(v: Val) -> Real {
    match v {
        Val::Float(f) => f,
        Val::Int(n) => real_of_int(n as int),
        Val::Bool(b) => if b {
            Real { bits: ONE }
        } else {
            Real { bits: MINUS_ONE }
        },
        _ => Real { bits: 0 },
    }
}

pub open spec fn numeric_of(v: Val) -> Num {
    match v {
        Val::Float(f) => Num::Number(f),
        Val::Int(n) => Num::Number(real_of_int(n as int)),
        Val::Str(s) => Num::Parts(comma_parts(s)),
        _ => Num::Number(Real { bits: 0 }),
    }
}

// ---- Votes ----

/// How often `t` occurs.
pub open spec fn votes(texts: Seq<Seq<char>>, t: Seq<char>) -> nat
    decreases texts.len(),
{
    if texts.len() == 0 {
        0
    } else {
        votes(texts.drop_last(), t) + (if texts.last() == t {
            1nat
        } else {
            0nat
        })
    }
}

/// The index of the earliest text with the most votes among the first `n`.
pub open spec fn leader(texts: Seq<Seq<char>>, n: int) -> int
    decreases n,
{
    if n <= 1 {
        0
    } else {
        let best = leader(texts, n - 1);
        if votes(texts, texts[n - 1]) > votes(texts, texts[best]) {
            n - 1
        } else {
            best
        }
    }
}

/// Which texts agree with the leader.
pub open spec fn agreeing(texts: Seq<Seq<char>>) -> Seq<bool> {
    Seq::new(texts.len(), |i: int| texts[i] == texts[leader(texts, texts.len() as int)])
}

pub open spec fn count_true(mask: Seq<bool>) -> nat
    decreases mask.len(),
{
    if mask.len() == 0 {
        0
    } else {
        count_true(mask.drop_last()) + (if mask.last() {
            1nat
        } else {
            0nat
        })
    }
}

/// The texts of a list of values, given the texts of all their numbers.
pub open spec fn shown_each(s: Seq<Val>, t: Seq<Seq<char>>) -> Seq<Seq<char>>
    decreases s.len(),
{
    if s.len() == 0 {
        Seq::empty()
    } else {
        let n = reals_in_all(s.drop_last()).len() as int;
        shown_each(s.drop_last(), t.take(n)).push(show(s.last(), t.skip(n)))
    }
}

/// Texts with blanks between them.
pub open spec fn joined(s: Seq<Seq<char>>) -> Seq<char>
    decreases s.len(),
{
    if s.len() == 0 {
        Seq::empty()
    } else if s.len() == 1 {
        s[0]
    } else {
        joined(s.drop_last()) + " "@ + s.last()
    }
}

// ---- Statistics ----

pub open spec fn stats_place(stats: Seq<(u32, Seq<OptionStats>)>, id: u32) -> int
    decreases stats.len(),
{
    if stats.len() == 0 {
        -1
    } else if stats.last().0 == id {
        stats.len() - 1
    } else {
        stats_place(stats.drop_last(), id)
    }
}

pub open spec fn stats_of(stats: Seq<(u32, Seq<OptionStats>)>, id: u32) -> Option<Seq<OptionStats>> {
    let p = stats_place(stats, id);
    if p < 0 {
        None
    } else {
        Some(stats[p].1)
    }
}

pub open spec fn with_stats(
    stats: Seq<(u32, Seq<OptionStats>)>,
    id: u32,
    s: Seq<OptionStats>,
) -> Seq<(u32, Seq<OptionStats>)> {
    let p = stats_place(stats, id);
    if p < 0 {
        stats.push((id, s))
    } else {
        stats.update(p, (id, s))
    }
}

pub open spec fn untried() -> OptionStats {
    OptionStats { tries: 0, total_ns: 0, correct: 0 }
}

/// A sum that wraps around at sixty-four bits.
pub open spec fn sum64(a: u64, b: u64) -> u64 {
    if a + b > u64::MAX {
        (a + b - u64::MAX - 1) as u64
    } else {
        (a + b) as u64
    }
}

/// A sum that wraps around at a hundred and twenty-eight bits.
pub open spec fn sum128(a: u128, b: u128) -> u128 {
    if a + b > u128::MAX {
        (a + b - u128::MAX - 1) as u128
    } else {
        (a + b) as u128
    }
}

/// One more try; the counters wrap around.
pub open spec fn tried(s: OptionStats, ns: u128, correct: bool) -> OptionStats {
    OptionStats {
        tries: sum64(s.tries, 1),
        total_ns: sum128(s.total_ns, ns),
        correct: if correct {
            sum64(s.correct, 1)
        } else {
            s.correct
        },
    }
}

/// The statistics after a vote: each of the first `n` options tried once.
pub open spec fn tallied(
    s: Seq<OptionStats>,
    n: int,
    times: Seq<u128>,
    mask: Seq<bool>,
) -> Seq<OptionStats> {
    Seq::new(
        s.len(),
        |i: int|
            if i < n {
                tried(s[i], times[i], mask[i])
            } else {
                s[i]
            },
    )
}

pub open spec fn total_tries(s: Seq<OptionStats>) -> u64
    decreases s.len(),
{
    if s.len() == 0 {
        0
    } else {
        sum64(total_tries(s.drop_last()), s.last().tries)
    }
}

pub open spec fn least_tries(s: Seq<OptionStats>) -> u64
    decreases s.len(),
{
    if s.len() == 0 {
        u64::MAX
    } else {
        let m = least_tries(s.drop_last());
        if s.last().tries < m {
            s.last().tries
        } else {
            m
        }
    }
}

/// The indices of the options with the least tries.
pub open spec fn least_tried(s: Seq<OptionStats>, n: int) -> Seq<int>
    decreases n,
{
    if n <= 0 {
        Seq::empty()
    } else {
        let front = least_tried(s, n - 1);
        if s[n - 1].tries == least_tries(s) {
            front.push(n - 1)
        } else {
            front
        }
    }
}

pub open spec fn all_tried(s: Seq<OptionStats>) -> bool {
    forall|i: int| 0 <= i < s.len() ==> (#[trigger] s[i]).tries > 0
}

/// A roll from 0 to 99 that goes with the number of activations.
pub open spec fn roll_of(activations: u64) -> u64 {
    (((activations * 7 + 13) % 0x1_0000_0000_0000_0000) % 100) as u64
}

// ---- Persisting the statistics ----

pub open spec fn is_decision(op: OpCode) -> bool {
    op == OpCode::Strategy || op == OpCode::AdaptiveChoice
}

pub open spec fn read_stat(state: Seq<Real>, slot: u32, i: int) -> OptionStats {
    let base = slot + i * 3;
    if base + 2 < state.len() {
        OptionStats {
            tries: cut_to(state[base], u64::MAX as nat) as u64,
            total_ns: cut_to(state[base + 1], u128::MAX as nat) as u128,
            correct: cut_to(state[base + 2], u64::MAX as nat) as u64,
        }
    } else {
        untried()
    }
}

pub open spec fn read_stats(state: Seq<Real>, slot: u32, n: nat) -> Seq<OptionStats> {
    Seq::new(n, |i: int| read_stat(state, slot, i))
}

/// The statistics with those that the state of a graph holds for its first
/// `n` nodes put over them.
pub open spec fn loaded_over(
    stats: Seq<(u32, Seq<OptionStats>)>,
    g: GraphView,
    n: int,
) -> Seq<(u32, Seq<OptionStats>)>
    decreases n,
{
    if n <= 0 {
        stats
    } else {
        let front = loaded_over(stats, g, n - 1);
        let node = g.nodes[n - 1];
        if is_decision(node.op) && node.state_slot is Some {
            with_stats(
                front,
                node.id,
                read_stats(g.state, node.state_slot->Some_0, node.weights.len()),
            )
        } else {
            front
        }
    }
}

pub open spec fn padded(state: Seq<Real>, len: int) -> Seq<Real> {
    if len > state.len() {
        Seq::new(
            len as nat,
            |i: int|
                if i < state.len() {
                    state[i]
                } else {
                    Real { bits: 0 }
                },
        )
    } else {
        state
    }
}

/// The state with the statistics of the first `k` options written at `slot`.
pub open spec fn written(state: Seq<Real>, slot: u32, s: Seq<OptionStats>, k: int) -> Seq<Real>
    decreases k,
{
    if k <= 0 {
        state
    } else {
        let before = written(state, slot, s, k - 1);
        let base = slot + (k - 1) * 3;
        before.update(base, real_of_int(s[k - 1].tries as int)).update(
            base + 1,
            Real { bits: nearest_bits(s[k - 1].total_ns as nat) as u64 },
        ).update(base + 2, real_of_int(s[k - 1].correct as int))
    }
}

/// The graph with one node's statistics saved; `None` where the node is
/// missing or the state would grow beyond an index.
pub open spec fn saved_one(g: GraphView, id: u32, s: Seq<OptionStats>) -> Option<GraphView> {
    if id >= g.nodes.len() {
        None
    } else {
        let need = s.len() * 3;
        let node = g.nodes[id as int];
        let base = g.state.len() as int;
        if node.state_slot is None && base + need > usize::MAX {
            None
        } else {
            let grown = match node.state_slot {
                Some(_) => g.state,
                None => padded(g.state, base + need),
            };
            let slot = match node.state_slot {
                Some(x) => x,
                None => base as u32,
            };
            if slot + need > usize::MAX {
                None
            } else {
                let state = written(padded(grown, slot + need), slot, s, s.len() as int);
                Some(
                    GraphView {
                        nodes: g.nodes.update(
                            id as int,
                            NodeView { state_slot: Some(slot), ..node },
                        ),
                        state,
                        ..g
                    },
                )
            }
        }
    }
}

/// A graph with the statistics up to the first that cannot be saved, and whether
/// all were.
pub open spec fn saved_all(g: GraphView, stats: Seq<(u32, Seq<OptionStats>)>) -> (GraphView, bool)
    decreases stats.len(),
{
    if stats.len() == 0 {
        (g, true)
    } else {
        let (h, ok) = saved_all(g, stats.drop_last());
        if !ok {
            (h, false)
        } else {
            match saved_one(h, stats.last().0, stats.last().1) {
                Some(k) => (k, true),
                None => (h, false),
            }
        }
    }
}

/// Whether an event answers what the machine waits for.
pub open spec fn answers(w: Wt, e: Ev) -> bool {
    match w {
        Wt::Computed(_, _, _)
        | Wt::Delta { .. }
        | Wt::VoteRange(_)
        | Wt::TimeRange(_) => e is Number,
        Wt::Shown(_, _, _) | Wt::PrintTexts(_) | Wt::VoteTexts => e is Texts,
        Wt::ParseReal(_) => e is Parsed,
        Wt::Printing(_) => e is Go,
        Wt::Line => e is Line,
        Wt::Clock => e is Time,
        Wt::Weighted(_) => e is Drawn,
        Wt::Explore(_) => e is Rolled,
        Wt::Exploring(_) => e is Odds,
        Wt::VoteNumbers | Wt::Distances(_) | Wt::Averages => e is Numbers,
        Wt::VoteMoves(_, _) | Wt::TimeMoves(_, _) | Wt::Reward(_, _) => e is Moved,
        Wt::VoteScale(_)
        | Wt::TimeScale
        | Wt::RewardScale(_)
        | Wt::Normal { .. } => e is Shares,
        Wt::Capability(_, _) => e is Capability,
    }
}

/// Asks to move no weight.
pub open spec fn no_moves(range: Real) -> Qu {
    Qu::Moves {
        weights: Seq::empty(),
        times: Seq::empty(),
        fastest: Real { bits: 0 },
        range,
    }
}

/// An event that answers another question leaves the machine waiting.
pub proof fn other_events_change_nothing(m: Mach, w: Wt, e: Ev)
    requires
        !answers(w, e),
    ensures
        m.hear(w, e) == m.wait(w),
{
    reveal(Mach::hear);
}

// ---- The machine ----

impl Mach {
    /// A node; a missing one does nothing.
    pub open spec fn node(self, id: u32) -> NodeView {
        if id < self.graph.nodes.len() {
            self.graph.nodes[id as int]
        } else {
            plain_node(id, OpCode::Noop, Seq::empty())
        }
    }

    pub open spec fn operands(self, id: u32) -> Seq<Operand> {
        self.node(id).operands
    }

    pub open spec fn go(self, control: Ct) -> Mach {
        Mach { control, ..self }
    }

    pub open spec fn fail(self, msg: Seq<char>) -> Mach {
        self.go(Ct::Failed(msg))
    }

    pub open spec fn stop(self) -> Mach {
        self.go(Ct::Stopped)
    }

    pub open spec fn wait(self, w: Wt) -> Mach {
        self.go(Ct::Wait(w))
    }

    pub open spec fn push(self, f: Fr) -> Mach {
        Mach { frames: self.frames.push(f), ..self }
    }

    /// The node is done: its result goes to the frame below.
    pub open spec fn leave(self, f: Flo) -> Mach {
        Mach {
            depth: if self.depth > 0 {
                (self.depth - 1) as u32
            } else {
                0
            },
            control: Ct::Give(f),
            ..self
        }
    }

    pub open spec fn value(self, v: Val) -> Mach {
        self.leave(Flo::Val(v))
    }

    pub open spec fn run(self, op: Operand) -> Mach {
        self.go(Ct::Enter(ref_of(op)))
    }

    pub open spec fn set_node(self, id: u32, node: NodeView) -> Mach {
        if id < self.graph.nodes.len() {
            Mach {
                graph: GraphView { nodes: self.graph.nodes.update(id as int, node), ..self.graph },
                ..self
            }
        } else {
            self
        }
    }

    pub open spec fn set_bias(self, id: u32, i: int) -> Mach {
        self.set_node(id, NodeView { bias: real_of_int(i), ..self.node(id) })
    }

    pub open spec fn set_weights(self, id: u32, weights: Seq<Real>) -> Mach {
        self.set_node(id, NodeView { weights, ..self.node(id) })
    }

    pub open spec fn set_var(self, slot: u32, v: Val) -> Mach {
        Mach { vars: self.vars.insert(slot, v), ..self }
    }

    pub open spec fn var(self, slot: u32) -> Val {
        match lookup(self.vars, slot) {
            Some(v) => v,
            None => Val::Null,
        }
    }

    /// Notes a weight change in the journal.
    pub open spec fn journaled(self, id: u32) -> Mach {
        let e = JournalEntry {
            run_number: self.run_number,
            node_id: id,
            mutation: MutationKind::WeightUpdate,
            reason: u32::MAX,
        };
        Mach { graph: GraphView { journal: self.graph.journal.push(e), ..self.graph }, ..self }
    }

    /// Takes an operation's outcome.
    pub open spec fn take(self, o: Out) -> Mach {
        match o {
            Out::Value(v) => self.value(v),
            Out::Fail(m) => self.fail(m),
            Out::Panic => self.stop(),
            Out::Compute(op, a, b) => self.wait(Wt::Computed(op, a, b)),
            Out::Shown(a, v, b) => self.wait(Wt::Shown(a, v, b)),
            Out::ParseReal(t) => self.wait(Wt::ParseReal(t)),
        }
    }

    /// Starts on a node.
    #[verifier::opaque]
    pub open spec fn enter(self, id: u32) -> Mach {
        if self.depth >= MAX_DEPTH {
            self.fail("max recursion depth exceeded"@)
        } else if id >= self.graph.nodes.len() {
            self.go(Ct::Give(Flo::Val(Val::Null)))
        } else if self.node(id).activation_count == u64::MAX {
            self.stop()
        } else {
            let node = self.node(id);
            let counted = NodeView {
                activation_count: (node.activation_count + 1) as u64,
                ..node
            };
            (Mach { depth: (self.depth + 1) as u32, ..self.set_node(id, counted) }).dispatch(
                id,
                node.op,
            )
        }
    }

    /// What a constant node holds.
    pub open spec fn constant(self, op: OpCode, ops: Seq<Operand>) -> Val {
        match op {
            OpCode::ConstInt => if ops.len() > 0 && ops[0] is Immediate && ops[0]->Immediate_0
                is Int {
                Val::Int(ops[0]->Immediate_0->Int_0)
            } else {
                Val::Null
            },
            OpCode::ConstFloat => if ops.len() > 0 && ops[0] is Immediate && ops[0]->Immediate_0
                is Float {
                Val::Float(ops[0]->Immediate_0->Float_0)
            } else {
                Val::Null
            },
            OpCode::ConstStr => if ops.len() > 0 && ops[0] is StringRef {
                Val::Str(self.graph.string_at(ops[0]->StringRef_0))
            } else {
                Val::Str(Seq::empty())
            },
            OpCode::ConstBool => if ops.len() > 0 && ops[0] is Immediate && ops[0]->Immediate_0
                is Bool {
                Val::Bool(ops[0]->Immediate_0->Bool_0)
            } else {
                Val::Bool(false)
            },
            _ => Val::Null,
        }
    }

    /// Starts on a node by its operation.
    #[verifier::opaque]
    pub open spec fn dispatch(self, id: u32, op: OpCode) -> Mach {
        let ops = self.operands(id);
        match op {
            OpCode::ConstInt | OpCode::ConstFloat | OpCode::ConstStr | OpCode::ConstBool
            | OpCode::ConstNull => self.value(self.constant(op, ops)),
            OpCode::Weight | OpCode::Predict | OpCode::Merge | OpCode::Noop
            | OpCode::Halt => self.value(Val::Null),
            OpCode::LoadVar => if ops.len() == 0 {
                self.stop()
            } else {
                self.value(self.var(slot_of(ops[0])))
            },
            OpCode::StoreVar => if ops.len() == 0 {
                self.stop()
            } else {
                self.next_arg(id, op, Seq::empty())
            },
            OpCode::Define | OpCode::Lambda => self.value(function_of(ops)),
            OpCode::AdaptiveChoice => self.pick_option(id),
            OpCode::Strategy => self.strategy(id),
            OpCode::Guard => if ops.len() < 3 {
                self.value(Val::Null)
            } else {
                self.next_arg(id, op, Seq::empty())
            },
            OpCode::Feedback => if ops.len() < 2 {
                self.value(Val::Null)
            } else {
                self.next_arg(id, op, Seq::empty())
            },
            OpCode::Sequence => if ops.len() == 0 {
                self.value(Val::Null)
            } else {
                self.push(Fr::Items { id, at: 0 }).run(ops[0])
            },
            OpCode::Loop => if ops.len() == 0 {
                self.stop()
            } else {
                self.push(Fr::While { id, at: 0, last: Val::Null }).run(ops[0])
            },
            OpCode::ForEach => if ops.len() < 2 {
                self.stop()
            } else {
                self.push(
                    Fr::Each {
                        id,
                        slot: slot_of(ops[1]),
                        items: Seq::empty(),
                        k: 0,
                        at: 0,
                        last: Val::Null,
                    },
                ).run(ops[0])
            },
            OpCode::ReadLine => if self.options.deny_stdin {
                self.fail("capability=readline effect=stdin denied by policy"@)
            } else {
                self.wait(Wt::Line)
            },
            OpCode::Print => if self.options.deny_stdout {
                self.fail("capability=print effect=stdout denied by policy"@)
            } else {
                self.next_arg(id, op, Seq::empty())
            },
            OpCode::Adapt => if ops.len() == 0 {
                self.stop()
            } else {
                self.adapt(ops).value(Val::Null)
            },
            OpCode::Capability => if ops.len() == 0 {
                self.fail("capability node expects a name"@)
            } else {
                self.next_arg(id, op, Seq::empty())
            },
            _ => self.next_arg(id, op, Seq::empty()),
        }
    }

    /// Gives a function a new body and keeps its parameters.
    pub open spec fn adapt(self, ops: Seq<Operand>) -> Mach {
        let slot = slot_of(ops[0]);
        let param_slots = match lookup(self.vars, slot) {
            Some(Val::GraphFn { param_slots, .. }) => param_slots,
            _ => Seq::empty(),
        };
        self.set_var(
            slot,
            Val::GraphFn {
                param_slots,
                body_nodes: ops.skip(1).map_values(|op: Operand| ref_of(op)),
            },
        )
    }

    /// The value of an operand that is no node.
    pub open spec fn immediate(self, op: Operand) -> Val {
        match op {
            Operand::NodeRef(_) => Val::Null,
            Operand::Immediate(ImmValue::Int(n)) => Val::Int(n),
            Operand::Immediate(ImmValue::Float(f)) => Val::Float(f),
            Operand::Immediate(ImmValue::Bool(b)) => Val::Bool(b),
            Operand::Immediate(ImmValue::Null) => Val::Null,
            Operand::StateRef(i) => Val::Float(
                if i < self.graph.state.len() {
                    self.graph.state[i as int]
                } else {
                    Real { bits: 0 }
                },
            ),
            Operand::StringRef(i) => Val::Str(self.graph.string_at(i)),
            Operand::VarSlot(s) => self.var(s),
        }
    }

    /// Goes on to the next operand, or acts when all are there.
    #[verifier::opaque]
    pub open spec fn next_arg(self, id: u32, op: OpCode, done: Seq<Val>) -> Mach {
        let ops = self.operands(id);
        let (start, count) = operand_plan(op, ops.len() as int);
        let at = start + done.len();
        if done.len() == count {
            self.act(id, op, done)
        } else if done.len() > count || at >= ops.len() {
            self.stop()
        } else {
            let m = self.push(Fr::Args { id, op, done });
            match ops[at] {
                Operand::NodeRef(r) => m.go(Ct::Enter(r)),
                other => m.go(Ct::Give(Flo::Val(self.immediate(other)))),
            }
        }
    }

    /// Takes one more operand's value.
    #[verifier::opaque]
    pub open spec fn have_arg(self, id: u32, op: OpCode, done: Seq<Val>) -> Mach {
        if op == OpCode::Capability && done.len() == 1 && !(done[0] is Str) {
            self.fail("capability name must be str, got "@ + done[0].kind())
        } else {
            self.next_arg(id, op, done)
        }
    }

    /// Runs operand `i` in the node's place.
    pub open spec fn follow(self, id: u32, i: int) -> Mach {
        let ops = self.operands(id);
        if i >= ops.len() {
            self.stop()
        } else {
            self.push(Fr::Tail).run(ops[i])
        }
    }

    /// Acts on the operands' values.
    #[verifier::opaque]
    pub open spec fn act(self, id: u32, op: OpCode, args: Seq<Val>) -> Mach {
        let ops = self.operands(id);
        if arity(op) is Some {
            self.take(op_out(op, args))
        } else {
            match op {
                OpCode::Array => self.value(Val::Array(args)),
                OpCode::StoreVar => if ops.len() == 0 {
                    self.stop()
                } else {
                    self.set_var(slot_of(ops[0]), args[0]).value(Val::Null)
                },
                OpCode::Call => self.push(Fr::Await).call(args[0], args.skip(1)),
                OpCode::Return => self.leave(Flo::Ret(args[0])),
                OpCode::Print => self.wait(Wt::PrintTexts(args)),
                OpCode::Split => self.take(
                    split_out(
                        args[0],
                        if args.len() > 1 {
                            Some(args[1])
                        } else {
                            None
                        },
                    ),
                ),
                OpCode::Branch => self.branch(id, args[0].truthy()),
                OpCode::Guard => self.follow(
                    id,
                    if args[0].truthy() {
                        1int
                    } else {
                        2int
                    },
                ),
                OpCode::Repeat => match args[0] {
                    Val::Int(n) => if n <= 0 || ops.len() <= 1 {
                        self.value(Val::Null)
                    } else {
                        self.push(Fr::Times { id, left: n as int, at: 1 }).run(ops[1])
                    },
                    _ => self.fail("repeat count must be int, got "@ + args[0].kind()),
                },
                OpCode::Spawn => {
                    let new_op = match args[0] {
                        Val::Int(n) => spawned_op(n as u8),
                        _ => OpCode::Noop,
                    };
                    let new_id = self.graph.nodes.len() as u32;
                    (Mach { graph: self.graph.with_node(new_op, Seq::empty()), ..self }).value(
                        Val::Int(new_id as i64),
                    )
                },
                OpCode::Prune => self.prune(args[0]).value(Val::Null),
                OpCode::Feedback => if ops.len() == 0 {
                    self.stop()
                } else {
                    self.feedback(ref_of(ops[0]), reward_of(args[0]))
                },
                OpCode::Pipe => self.push(Fr::Await).call(args[1], seq![args[0]]),
                OpCode::Filter | OpCode::MapEach | OpCode::Reduce => match args[0] {
                    Val::Array(items) => self.over(
                        op,
                        args[1],
                        items,
                        0,
                        if op == OpCode::Reduce {
                            seq![
                                if args.len() > 2 {
                                    args[2]
                                } else {
                                    Val::Null
                                },
                            ]
                        } else {
                            Seq::empty()
                        },
                    ),
                    _ => self.fail("expected array, got "@ + args[0].kind()),
                },
                OpCode::Capability => match caps_of(args.skip(1)) {
                    Some(c) => match args[0] {
                        Val::Str(name) => self.wait(Wt::Capability(name, c)),
                        _ => self.stop(),
                    },
                    None => self.fail("capability arguments cannot include functions"@),
                },
                _ => self.value(Val::Null),
            }
        }
    }

    /// A branch: the condition decides, the weights only learn.
    #[verifier::opaque]
    pub open spec fn branch(self, id: u32, taken: bool) -> Mach {
        let i = if taken {
            0int
        } else {
            1int
        };
        let m = if self.node(id).weights.len() >= 2 {
            Mach {
                deltas: self.deltas.push((id, i, Real { bits: GAIN })).push(
                    (id, 1 - i, Real { bits: LOSS }),
                ),
                ..self
            }
        } else {
            self
        };
        m.follow(id, 1 + i)
    }

    pub open spec fn prune(self, target: Val) -> Mach {
        match target {
            Val::Int(n) => {
                let i = n as usize;
                if i < self.graph.nodes.len() {
                    let node = NodeView { op: OpCode::Noop, ..self.graph.nodes[i as int] };
                    Mach {
                        graph: GraphView {
                            nodes: self.graph.nodes.update(i as int, node),
                            ..self.graph
                        },
                        ..self
                    }
                } else {
                    self
                }
            },
            _ => self,
        }
    }

    #[verifier::opaque]
    pub open spec fn feedback(self, target: u32, reward: Real) -> Mach {
        if target < self.graph.nodes.len() && is_decision(self.node(target).op) && self.node(
            target,
        ).weights.len() > 0 {
            self.wait(Wt::Reward(target, reward))
        } else {
            self.value(Val::Null)
        }
    }

    /// Calls a function; its result goes to the frame on top.
    #[verifier::opaque]
    pub open spec fn call(self, f: Val, args: Seq<Val>) -> Mach {
        match f {
            Val::GraphFn { param_slots, body_nodes } => {
                let (vars, saved) = bind(self.vars, param_slots, args);
                if body_nodes.len() == 0 {
                    (Mach { vars: restore(vars, saved), ..self }).go(
                        Ct::Give(Flo::Val(Val::Null)),
                    )
                } else {
                    (Mach { vars, ..self }).push(
                        Fr::Body { body: body_nodes, at: 0, saved },
                    ).go(Ct::Enter(body_nodes[0]))
                }
            },
            _ => self.fail("cannot call "@ + f.kind()),
        }
    }

    /// Goes on over the items of a list from item `k` on.
    #[verifier::opaque]
    pub open spec fn over(self, op: OpCode, func: Val, items: Seq<Val>, k: int, acc: Seq<Val>) -> Mach {
        if op == OpCode::Reduce && acc.len() == 0 {
            self.stop()
        } else if k >= items.len() {
            self.value(
                if op == OpCode::Reduce {
                    acc[0]
                } else {
                    Val::Array(acc)
                },
            )
        } else {
            self.push(Fr::Over { op, func, items, k, acc }).call(
                func,
                if op == OpCode::Reduce {
                    seq![acc[0], items[k]]
                } else {
                    seq![items[k]]
                },
            )
        }
    }

    /// Starts on an adaptive choice.
    #[verifier::opaque]
    pub open spec fn pick_option(self, id: u32) -> Mach {
        let node = self.node(id);
        let n = choice_count(node);
        if n == 0 {
            self.value(Val::Null)
        } else {
            match self.options.mode {
                SelectionMode::Greedy => self.chosen(
                    id,
                    heaviest(node.weights, n, None).0,
                ),
                SelectionMode::Weighted => self.wait(Wt::Weighted(id)),
                SelectionMode::EpsilonGreedy => self.wait(Wt::Explore(id)),
            }
        }
    }

    /// Follows option `i` of an adaptive choice, or the last one.
    #[verifier::opaque]
    pub open spec fn chosen(self, id: u32, i: int) -> Mach {
        let n = choice_count(self.node(id));
        let k = if i < n {
            i
        } else {
            n - 1
        };
        if n == 0 {
            self.stop()
        } else {
            self.set_bias(id, k).follow(id, k)
        }
    }

    /// Starts on a strategy.
    #[verifier::opaque]
    pub open spec fn strategy(self, id: u32) -> Mach {
        let node = self.node(id);
        let n = strategy_count(node);
        if n == 0 {
            self.value(Val::Null)
        } else {
            let m = if stats_of(self.stats, id) is None {
                Mach {
                    stats: with_stats(
                        self.stats,
                        id,
                        Seq::new(n as nat, |i: int| untried()),
                    ),
                    ..self
                }
            } else {
                self
            };
            if node.contract == Contract::SameOutput || node.contract == Contract::WithinTolerance {
                m.push(
                    Fr::Vote {
                        id,
                        tolerant: node.contract == Contract::WithinTolerance,
                        tol: node.weights.last(),
                        n,
                        results: Seq::empty(),
                        times: Seq::empty(),
                        started: 0,
                    },
                ).wait(Wt::Clock)
            } else {
                m.wait(Wt::Exploring(id))
            }
        }
    }

    /// Runs option `i` of a strategy against the clock.
    pub open spec fn timed(self, id: u32, i: int) -> Mach {
        self.set_bias(id, i).push(Fr::Timed { id, chosen: i, started: 0, flow: None }).wait(
            Wt::Clock,
        )
    }

    /// Hears whether to explore.
    #[verifier::opaque]
    pub open spec fn explore(self, id: u32, exploring: bool) -> Mach {
        let node = self.node(id);
        if exploring {
            match stats_of(self.stats, id) {
                Some(s) => {
                    let c = least_tried(s, s.len() as int);
                    if c.len() == 0 {
                        self.stop()
                    } else {
                        self.timed(id, c[((node.activation_count as usize) as int) % (c.len() as int)])
                    }
                },
                None => self.stop(),
            }
        } else {
            self.timed(id, heaviest(node.weights, strategy_count(node), None).0)
        }
    }

    /// Takes the time for the frame on top.
    #[verifier::opaque]
    pub open spec fn clock(self, t: u128) -> Mach {
        let top = self.frames.last();
        let m = Mach { frames: self.frames.drop_last(), ..self };
        match top {
            Fr::Vote { id, tolerant, tol, n, results, times, started } => if results.len()
                == times.len() {
                let ops = self.operands(id);
                if times.len() >= ops.len() {
                    m.stop()
                } else {
                    m.push(Fr::Vote { id, tolerant, tol, n, results, times, started: t }).run(
                        ops[times.len() as int],
                    )
                }
            } else {
                let spent = if t >= started {
                    (t - started) as u128
                } else {
                    0
                };
                let v = m.push(
                    Fr::Vote { id, tolerant, tol, n, results, times: times.push(spent), started },
                );
                if times.len() + 1 < n {
                    v.wait(Wt::Clock)
                } else if tolerant {
                    v.wait(Wt::VoteNumbers)
                } else {
                    v.wait(Wt::VoteTexts)
                }
            },
            Fr::Timed { id, chosen, started, flow } => match flow {
                None => {
                    let ops = self.operands(id);
                    let i = if chosen < ops.len() {
                        chosen
                    } else {
                        0
                    };
                    if i >= ops.len() {
                        m.stop()
                    } else {
                        m.push(Fr::Timed { id, chosen, started: t, flow }).run(ops[i])
                    }
                },
                Some(f) => {
                    let spent = if t >= started {
                        (t - started) as u128
                    } else {
                        0
                    };
                    match stats_of(self.stats, id) {
                        None => m.leave(f),
                        Some(s) => {
                            let u = if chosen < s.len() {
                                s.update(chosen, tried(s[chosen], spent, true))
                            } else {
                                s
                            };
                            let w = Mach { stats: with_stats(self.stats, id, u), ..m };
                            if all_tried(u) {
                                w.push(Fr::Timed { id, chosen, started, flow }).wait(Wt::Averages)
                            } else {
                                w.leave(f)
                            }
                        },
                    }
                },
            },
            _ => m.stop(),
        }
    }

    /// Hears which options of the vote on top agree.
    #[verifier::opaque]
    pub open spec fn voted(self, mask: Seq<bool>) -> Mach {
        match self.frames.last() {
            Fr::Vote { id, tolerant, tol, n, results, times, started } => {
                let m = match stats_of(self.stats, id) {
                    Some(s) => Mach {
                        stats: with_stats(self.stats, id, tallied(s, n, times, mask)),
                        ..self
                    },
                    None => self,
                };
                if n > times.len() || n > mask.len() {
                    self.stop()
                } else if count_true(mask) > n / 2 {
                    m.wait(Wt::VoteRange(mask))
                } else {
                    m.concluded(mask)
                }
            },
            _ => self.stop(),
        }
    }

    /// How many weights of a vote's node take part.
    pub open spec fn voting_weights(self, id: u32, tolerant: bool, n: int) -> int {
        let w = self.node(id).weights.len() as int;
        if !tolerant {
            w
        } else if w == 0 {
            0
        } else if n < w - 1 {
            n
        } else {
            w - 1
        }
    }

    /// Ends the vote on top: the heaviest agreeing option's result stands.
    #[verifier::opaque]
    pub open spec fn concluded(self, mask: Seq<bool>) -> Mach {
        match self.frames.last() {
            Fr::Vote { id, tolerant, tol, n, results, times, started } => {
                let best = heaviest(
                    self.node(id).weights,
                    self.voting_weights(id, tolerant, n),
                    Some(mask),
                ).0;
                let m = Mach { frames: self.frames.drop_last(), ..self.set_bias(id, best) };
                if best >= results.len() {
                    m.stop()
                } else {
                    m.value(results[best])
                }
            },
            _ => (Mach { frames: self.frames.drop_last(), ..self }).stop(),
        }
    }

    /// Hands a result to the frame on top.
    #[verifier::opaque]
    pub open spec fn give(self, f: Flo) -> Mach {
        if self.frames.len() == 0 {
            (Mach { result: f.value(), ..self }).go(Ct::Settle(false, 0))
        } else {
            let m = Mach { frames: self.frames.drop_last(), ..self };
            let v = f.value();
            match self.frames.last() {
                Fr::Args { id, op, done } => m.have_arg(id, op, done.push(v)),
                Fr::Tail => m.leave(f),
                Fr::Await => m.value(v),
                Fr::Items { id, at } => m.next_item(id, at, f),
                Fr::While { id, at, last } => m.next_in_loop(id, at, last, f),
                Fr::Each { id, slot, items, k, at, last } => m.next_in_each(
                    id,
                    slot,
                    items,
                    k,
                    at,
                    last,
                    f,
                ),
                Fr::Times { id, left, at } => m.next_in_times(id, left, at, f),
                Fr::Body { body, at, saved } => m.next_in_body(body, at, saved, f),
                Fr::Over { op, func, items, k, acc } => m.next_over(op, func, items, k, acc, v),
                Fr::Vote { id, tolerant, tol, n, results, times, started } => m.push(
                    Fr::Vote { id, tolerant, tol, n, results: results.push(v), times, started },
                ).wait(Wt::Clock),
                Fr::Timed { id, chosen, started, flow } => m.push(
                    Fr::Timed { id, chosen, started, flow: Some(f) },
                ).wait(Wt::Clock),
            }
        }
    }

    #[verifier::opaque]
    pub open spec fn next_item(self, id: u32, at: int, f: Flo) -> Mach {
        let ops = self.operands(id);
        if f is Ret || at + 1 >= ops.len() {
            self.leave(f)
        } else {
            self.push(Fr::Items { id, at: at + 1 }).run(ops[at + 1])
        }
    }

    #[verifier::opaque]
    pub open spec fn next_in_loop(self, id: u32, at: int, last: Val, f: Flo) -> Mach {
        let ops = self.operands(id);
        if ops.len() == 0 {
            self.stop()
        } else if at == 0 {
            if !f.value().truthy() {
                self.value(last)
            } else if ops.len() > 1 {
                self.push(Fr::While { id, at: 1, last }).run(ops[1])
            } else {
                self.push(Fr::While { id, at: 0, last }).run(ops[0])
            }
        } else if f is Ret {
            self.leave(f)
        } else if at + 1 < ops.len() {
            self.push(Fr::While { id, at: at + 1, last: f.value() }).run(ops[at + 1])
        } else {
            self.push(Fr::While { id, at: 0, last: f.value() }).run(ops[0])
        }
    }

    #[verifier::opaque]
    pub open spec fn next_in_each(
        self,
        id: u32,
        slot: u32,
        items: Seq<Val>,
        k: int,
        at: int,
        last: Val,
        f: Flo,
    ) -> Mach {
        let ops = self.operands(id);
        if at == 0 {
            match f.value() {
                Val::Array(list) => self.each_item(id, slot, list, 0, Val::Null),
                other => self.fail("expected array, got "@ + other.kind()),
            }
        } else if f is Ret {
            self.leave(f)
        } else if at + 1 < ops.len() {
            self.push(Fr::Each { id, slot, items, k, at: at + 1, last: f.value() }).run(
                ops[at + 1],
            )
        } else {
            self.each_item(id, slot, items, k + 1, f.value())
        }
    }

    /// Binds item `k` and runs the body for it.
    #[verifier::opaque]
    pub open spec fn each_item(self, id: u32, slot: u32, items: Seq<Val>, k: int, last: Val) -> Mach {
        let ops = self.operands(id);
        if k >= items.len() {
            self.value(last)
        } else if ops.len() > 2 {
            self.set_var(slot, items[k]).push(Fr::Each { id, slot, items, k, at: 2, last }).run(
                ops[2],
            )
        } else {
            self.set_var(slot, items[k]).push(Fr::Each { id, slot, items, k, at: 1, last }).go(
                Ct::Resume,
            )
        }
    }

    #[verifier::opaque]
    pub open spec fn next_in_times(self, id: u32, left: int, at: int, f: Flo) -> Mach {
        let ops = self.operands(id);
        if f is Ret {
            self.leave(f)
        } else if at + 1 < ops.len() {
            self.push(Fr::Times { id, left, at: at + 1 }).run(ops[at + 1])
        } else if left > 1 && ops.len() > 1 {
            self.push(Fr::Times { id, left: left - 1, at: 1 }).run(ops[1])
        } else {
            self.leave(f)
        }
    }

    #[verifier::opaque]
    pub open spec fn next_in_body(
        self,
        body: Seq<u32>,
        at: int,
        saved: Seq<(u32, Option<Val>)>,
        f: Flo,
    ) -> Mach {
        if f is Ret || at + 1 >= body.len() {
            (Mach { vars: restore(self.vars, saved), ..self }).go(Ct::Give(Flo::Val(f.value())))
        } else {
            self.push(Fr::Body { body, at: at + 1, saved }).go(Ct::Enter(body[at + 1]))
        }
    }

    #[verifier::opaque]
    pub open spec fn next_over(
        self,
        op: OpCode,
        func: Val,
        items: Seq<Val>,
        k: int,
        acc: Seq<Val>,
        v: Val,
    ) -> Mach {
        let next = match op {
            OpCode::Filter => if v.truthy() {
                acc.push(items[k])
            } else {
                acc
            },
            OpCode::MapEach => acc.push(v),
            _ => seq![v],
        };
        if k >= items.len() {
            self.stop()
        } else {
            self.over(op, func, items, k + 1, next)
        }
    }

    /// Goes on with the frame on top without a result.
    #[verifier::opaque]
    pub open spec fn resume(self) -> Mach {
        if self.frames.len() == 0 {
            self.stop()
        } else {
            let m = Mach { frames: self.frames.drop_last(), ..self };
            match self.frames.last() {
                Fr::Each { id, slot, items, k, at, last } => m.each_item(
                    id,
                    slot,
                    items,
                    k + 1,
                    last,
                ),
                _ => m.stop(),
            }
        }
    }

    /// Applies the `i`-th change of what the run learned, or scales the weights
    /// that it changed.
    pub open spec fn settle(self, scaling: bool, i: int) -> Mach {
        if i < self.deltas.len() {
            let (id, w, by) = self.deltas[i];
            if id < self.graph.nodes.len() && (scaling || w < self.node(id).weights.len()) {
                if scaling {
                    self.wait(Wt::Normal { next: i + 1, id })
                } else {
                    self.wait(
                        Wt::Delta { next: i + 1, id, at: w, weight: self.node(id).weights[w], by },
                    )
                }
            } else {
                self.go(Ct::Settle(scaling, i + 1))
            }
        } else if !scaling {
            self.go(Ct::Settle(true, 0))
        } else {
            let (graph, ok) = saved_all(self.graph, self.stats);
            (Mach { graph, deltas: Seq::empty(), ..self }).go(
                if ok {
                    Ct::Finished
                } else {
                    Ct::Stopped
                },
            )
        }
    }

    /// Which option a decision chose last.
    pub open spec fn chosen_before(self, id: u32) -> int {
        cut_to(self.node(id).bias, usize::MAX as nat) as int
    }

    /// Hears the results of the vote on top as numbers.
    #[verifier::opaque]
    pub open spec fn hear_vote_numbers(self, v: Seq<Real>) -> Mach {
        match self.top() {
            Fr::Vote { results, .. } => if v.len() != results.len() {
                self.wait(Wt::VoteNumbers)
            } else if v.len() == 0 {
                self.stop()
            } else {
                self.wait(Wt::Distances(v))
            },
            _ => self.stop(),
        }
    }

    /// Hears how far the results of the vote on top lie from their median: those
    /// within the tolerance agree.
    #[verifier::opaque]
    pub open spec fn hear_distances(self, v: Seq<Real>, d: Seq<Real>) -> Mach {
        match self.top() {
            Fr::Vote { tol, results, .. } => if d.len() == results.len() {
                self.voted(within(d, tol))
            } else {
                self.wait(Wt::Distances(v))
            },
            _ => self.stop(),
        }
    }

    /// Hears how far the times of the vote on top lie apart. Where they differ,
    /// every weight that takes part needs a time.
    #[verifier::opaque]
    pub open spec fn hear_vote_range(self, mask: Seq<bool>, range: Real) -> Mach {
        match self.top() {
            Fr::Vote { id, tolerant, n, times, .. } => if positive(range) && self.voting_weights(
                id,
                tolerant,
                n,
            ) > times.len() {
                self.stop()
            } else {
                self.wait(Wt::VoteMoves(mask, range))
            },
            _ => self.stop(),
        }
    }

    /// Hears where the weights of the vote on top could move.
    #[verifier::opaque]
    pub open spec fn hear_vote_moves(
        self,
        mask: Seq<bool>,
        range: Real,
        raised: Seq<Real>,
        lowered: Seq<Real>,
    ) -> Mach {
        match self.top() {
            Fr::Vote { id, tolerant, n, .. } => {
                let k = self.voting_weights(id, tolerant, n);
                if lowered.len() == k && (positive(range) ==> raised.len() == k) {
                    self.set_weights(
                        id,
                        voted_weights(self.node(id).weights, k, mask, range, raised, lowered),
                    ).wait(Wt::VoteScale(mask))
                } else {
                    self.wait(Wt::VoteMoves(mask, range))
                }
            },
            _ => self.stop(),
        }
    }

    /// Hears the sum of the weights of the vote on top, and their shares in it.
    #[verifier::opaque]
    pub open spec fn hear_vote_scale(self, mask: Seq<bool>, sum: Real, shares: Seq<Real>) -> Mach {
        match self.top() {
            Fr::Vote { id, tolerant, n, .. } => if shares.len() == self.voting_weights(
                id,
                tolerant,
                n,
            ) {
                self.set_weights(
                    id,
                    scaled_weights(self.node(id).weights, sum, shares),
                ).journaled(id).concluded(mask)
            } else {
                self.wait(Wt::VoteScale(mask))
            },
            _ => self.stop(),
        }
    }

    /// What is known of a strategy's options; nothing where it was never loaded.
    pub open spec fn known(self, id: u32) -> Seq<OptionStats> {
        match stats_of(self.stats, id) {
            Some(s) => s,
            None => Seq::empty(),
        }
    }

    /// Hears the average times of the options of the strategy on top.
    #[verifier::opaque]
    pub open spec fn hear_averages(self, v: Seq<Real>) -> Mach {
        match self.top() {
            Fr::Timed { id, .. } => if v.len() == self.known(id).len() {
                self.wait(Wt::TimeRange(v))
            } else {
                self.wait(Wt::Averages)
            },
            _ => self.stop(),
        }
    }

    /// Hears how far the average times lie apart: where they do not differ,
    /// nothing is learned.
    #[verifier::opaque]
    pub open spec fn hear_time_range(self, v: Seq<Real>, range: Real) -> Mach {
        match self.top() {
            Fr::Timed { flow: Some(f), .. } => if positive(range) {
                self.wait(Wt::TimeMoves(v, range))
            } else {
                (Mach { frames: self.frames.drop_last(), ..self }).leave(f)
            },
            _ => self.stop(),
        }
    }

    /// How many weights of a node have an average time.
    pub open spec fn timed_count(self, id: u32, v: Seq<Real>) -> int {
        let n = self.node(id).weights.len() as int;
        if v.len() < n {
            v.len() as int
        } else {
            n
        }
    }

    /// Hears where the weights of the strategy on top move.
    #[verifier::opaque]
    pub open spec fn hear_time_moves(
        self,
        v: Seq<Real>,
        range: Real,
        raised: Seq<Real>,
        lowered: Seq<Real>,
    ) -> Mach {
        match self.top() {
            Fr::Timed { id, .. } => if raised.len() == self.timed_count(id, v) {
                self.set_weights(id, timed_weights(self.node(id).weights, raised)).wait(
                    Wt::TimeScale,
                )
            } else {
                self.wait(Wt::TimeMoves(v, range))
            },
            _ => self.stop(),
        }
    }

    /// Hears the sum of the weights of the strategy on top, and their shares in it.
    #[verifier::opaque]
    pub open spec fn hear_time_scale(self, sum: Real, shares: Seq<Real>) -> Mach {
        match self.top() {
            Fr::Timed { id, flow: Some(f), .. } => if shares.len() == self.node(id).weights.len() {
                (Mach { frames: self.frames.drop_last(), ..self }).set_weights(
                    id,
                    scaled_weights(self.node(id).weights, sum, shares),
                ).journaled(id).leave(f)
            } else {
                self.wait(Wt::TimeScale)
            },
            _ => self.stop(),
        }
    }

    /// Hears the host's answer. An answer to another question changes nothing.
    #[verifier::opaque]
    pub open spec fn hear(self, w: Wt, e: Ev) -> Mach {
        match (w, e) {
            (Wt::Computed(op, _, _), Ev::Number(r)) => self.take(computed_out(op, r)),
            (Wt::Shown(a, v, b), Ev::Texts(t)) => if t.len() == reals_in(v).len() {
                self.value(Val::Str(a + show(v, t) + b))
            } else {
                self.wait(w)
            },
            (Wt::ParseReal(t), Ev::Parsed(p)) => match p {
                Some(r) => self.value(Val::Float(r)),
                None => self.fail("cannot parse '"@ + t + "' as number"@),
            },
            (Wt::PrintTexts(args), Ev::Texts(t)) => if t.len() == reals_in_all(args).len() {
                self.wait(Wt::Printing(joined(shown_each(args, t))))
            } else {
                self.wait(w)
            },
            (Wt::Printing(line), Ev::Go) => (Mach {
                printed: self.printed.push(line),
                ..self
            }).value(Val::Null),
            (Wt::Line, Ev::Line(r)) => match r {
                Ok(s) => self.value(Val::Str(trim_back(s))),
                Err(e) => self.fail("read error: "@ + e),
            },
            (Wt::Clock, Ev::Time(t)) => if self.frames.len() == 0 {
                self.stop()
            } else {
                self.clock(t)
            },
            (Wt::Weighted(id), Ev::Drawn { sum, running, roll }) => if running.len() > 0
                && running.len() == choice_count(self.node(id)) {
                self.chosen(id, crate::learning::weighted_choice(sum, running, roll).0)
            } else {
                self.wait(w)
            },
            (Wt::Explore(id), Ev::Rolled { roll, pick }) => self.chosen(
                id,
                if roll.below(self.options.epsilon) {
                    cut_to(pick, usize::MAX as nat) as int
                } else {
                    heaviest(self.node(id).weights, choice_count(self.node(id)), None).0
                },
            ),
            (Wt::Exploring(id), Ev::Odds { roll, chance }) => self.explore(
                id,
                explores(roll, chance),
            ),
            (Wt::VoteTexts, Ev::Texts(t)) => if self.frames.len() == 0 {
                self.stop()
            } else {
                match self.frames.last() {
                    Fr::Vote { id, tolerant, tol, n, results, times, started } => if t.len()
                        == reals_in_all(results).len() {
                        self.voted(agreeing(shown_each(results, t)))
                    } else {
                        self.wait(w)
                    },
                    _ => self.stop(),
                }
            },
            (Wt::VoteNumbers, Ev::Numbers(v)) => self.hear_vote_numbers(v),
            (Wt::Distances(v), Ev::Numbers(d)) => self.hear_distances(v, d),
            (Wt::VoteRange(mask), Ev::Number(r)) => self.hear_vote_range(mask, r),
            (Wt::VoteMoves(mask, range), Ev::Moved { raised, lowered }) => self.hear_vote_moves(
                mask,
                range,
                raised,
                lowered,
            ),
            (Wt::VoteScale(mask), Ev::Shares { sum, shares }) => self.hear_vote_scale(
                mask,
                sum,
                shares,
            ),
            (Wt::Averages, Ev::Numbers(v)) => self.hear_averages(v),
            (Wt::TimeRange(v), Ev::Number(r)) => self.hear_time_range(v, r),
            (Wt::TimeMoves(v, range), Ev::Moved { raised, lowered }) => self.hear_time_moves(
                v,
                range,
                raised,
                lowered,
            ),
            (Wt::TimeScale, Ev::Shares { sum, shares }) => self.hear_time_scale(sum, shares),
            (Wt::Reward(target, reward), Ev::Moved { raised, lowered }) => {
                let all = self.node(target).weights;
                if raised.len() == all.len() && lowered.len() == all.len() {
                    self.set_weights(
                        target,
                        rewarded_weights(all, self.chosen_before(target), raised, lowered),
                    ).wait(Wt::RewardScale(target))
                } else {
                    self.wait(w)
                }
            },
            (Wt::RewardScale(target), Ev::Shares { sum, shares }) => {
                let all = self.node(target).weights;
                if shares.len() == all.len() {
                    self.set_weights(target, scaled_weights(all, sum, shares)).journaled(
                        target,
                    ).value(Val::Null)
                } else {
                    self.wait(w)
                }
            },
            (Wt::Capability(_, _), Ev::Capability(r)) => match r {
                Ok(c) => self.value(val_of_cap(c)),
                Err(m) => self.fail(m),
            },
            (Wt::Delta { next, id, at, weight, by }, Ev::Number(r)) => {
                let all = self.node(id).weights;
                let m = if at < all.len() {
                    self.set_weights(id, all.update(at, held(r)))
                } else {
                    self
                };
                m.go(Ct::Settle(false, next))
            },
            (Wt::Normal { next, id }, Ev::Shares { sum, shares }) => {
                let all = self.node(id).weights;
                if shares.len() == all.len() {
                    self.set_weights(id, scaled_weights(all, sum, shares)).go(
                        Ct::Settle(true, next),
                    )
                } else {
                    self.wait(w)
                }
            },
            _ => self.wait(w),
        }
    }

    /// One step.
    pub open spec fn step(self, e: Ev) -> Mach {
        match self.control {
            Ct::Enter(id) => self.enter(id),
            Ct::Give(f) => self.go(Ct::Resume).give(f),
            Ct::Resume => self.resume(),
            Ct::Settle(scaling, i) => self.settle(scaling, i),
            Ct::Wait(w) => self.go(Ct::Resume).hear(w, e),
            _ => self,
        }
    }

    /// The frame on top.
    pub open spec fn top(self) -> Fr {
        if self.frames.len() == 0 {
            Fr::Tail
        } else {
            self.frames.last()
        }
    }

    /// What the host is asked when the machine waits.
    pub open spec fn question(self, w: Wt) -> Qu {
        match w {
            Wt::Computed(op, a, b) => Qu::Compute(op, a, b),
            Wt::Shown(a, v, b) => Qu::Texts(reals_in(v)),
            Wt::ParseReal(t) => Qu::ParseReal(t),
            Wt::PrintTexts(args) => Qu::Texts(reals_in_all(args)),
            Wt::Printing(line) => Qu::Print(line),
            Wt::Line => Qu::ReadLine,
            Wt::Clock => Qu::Now,
            Wt::Weighted(id) => Qu::Draw(
                self.node(id).weights.take(choice_count(self.node(id))),
            ),
            Wt::Explore(id) => Qu::Roll(choice_count(self.node(id))),
            Wt::Exploring(id) => Qu::Odds(
                total_tries(self.known(id)),
                roll_of(self.node(id).activation_count),
            ),
            Wt::VoteTexts => match self.top() {
                Fr::Vote { results, .. } => Qu::Texts(reals_in_all(results)),
                _ => Qu::Texts(Seq::empty()),
            },
            Wt::VoteNumbers => match self.top() {
                Fr::Vote { results, .. } => Qu::Numbers(
                    results.map_values(|v: Val| numeric_of(v)),
                ),
                _ => Qu::Numbers(Seq::empty()),
            },
            Wt::Distances(v) => Qu::Distances(v, median(v)),
            Wt::VoteRange(mask) => match self.top() {
                Fr::Vote { times, .. } => Qu::Compute(
                    FloatOp::Sub,
                    slowest(times),
                    fastest(times, mask),
                ),
                _ => Qu::Compute(FloatOp::Sub, Real { bits: 0 }, Real { bits: 0 }),
            },
            Wt::VoteMoves(mask, range) => match self.top() {
                Fr::Vote { id, tolerant, n, times, .. } => {
                    let k = self.voting_weights(id, tolerant, n);
                    Qu::Moves {
                        weights: self.node(id).weights.take(k),
                        times: if positive(range) && k <= times.len() {
                            time_reals(times, k)
                        } else {
                            Seq::empty()
                        },
                        fastest: fastest(times, mask),
                        range,
                    }
                },
                _ => no_moves(range),
            },
            Wt::VoteScale(mask) => match self.top() {
                Fr::Vote { id, tolerant, n, .. } => Qu::Shares(
                    self.node(id).weights.take(self.voting_weights(id, tolerant, n)),
                ),
                _ => Qu::Shares(Seq::empty()),
            },
            Wt::Averages => match self.top() {
                Fr::Timed { id, .. } => Qu::Averages(self.known(id)),
                _ => Qu::Averages(Seq::empty()),
            },
            Wt::TimeRange(v) => Qu::Compute(FloatOp::Sub, greatest_average(v), least_average(v)),
            Wt::TimeMoves(v, range) => match self.top() {
                Fr::Timed { id, .. } => {
                    let k = self.timed_count(id, v);
                    Qu::Moves {
                        weights: self.node(id).weights.take(k),
                        times: v.take(k),
                        fastest: least_average(v),
                        range,
                    }
                },
                _ => no_moves(range),
            },
            Wt::TimeScale => match self.top() {
                Fr::Timed { id, .. } => Qu::Shares(self.node(id).weights),
                _ => Qu::Shares(Seq::empty()),
            },
            Wt::Reward(target, reward) => Qu::Reward(self.node(target).weights, reward),
            Wt::RewardScale(target) => Qu::Shares(self.node(target).weights),
            Wt::Capability(name, args) => Qu::Capability(name, args),
            Wt::Delta { next, id, at, weight, by } => Qu::Compute(FloatOp::Add, weight, by),
            Wt::Normal { next, id } => Qu::Shares(self.node(id).weights),
        }
    }

    /// What the host is told of the state.
    pub open spec fn action(self) -> Ac {
        match self.control {
            Ct::Wait(w) => Ac::Ask(self.question(w)),
            Ct::Failed(m) => Ac::Finished(Err(m)),
            Ct::Stopped => Ac::Panic,
            Ct::Finished => Ac::Finished(Ok(self.result)),
            _ => Ac::Continue,
        }
    }
}

} // verus!
