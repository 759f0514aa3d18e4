//! Weights decide only where there is something to decide: in two runs that differ
//! in no more than the weights of other nodes, the same happens.
use crate::graph::{GraphView, NodeView, OpCode};
use crate::graph_executor::{fresh, started};
use crate::number::{Real, cut_to, real_of_int};
use crate::ops::{Out, computed_out, op_out, split_out};
use crate::run_laws::after;
use crate::run_model::{Ac, Ct, Ev, Flo, Fr, GAIN, LOSS, Mach, OptionStats, RunOptions, Wt, agreeing, choice_count, heaviest, is_decision, least_tried, loaded_over, ref_of, reward_of, shown_each, stats_of, strategy_count, tallied, with_stats};
use crate::values::Val;
use crate::weighing::{explores, rewarded_weights, scaled_weights, timed_weights, voted_weights, within};
use vstd::prelude::*;

verus! {

/// The same node but for its weights.
pub open spec fn twin_nodes(x: NodeView, y: NodeView) -> bool {
    y == (NodeView { weights: y.weights, ..x })
}

/// The same graph but for the weights of the nodes in `d`, none of which is a
/// strategy or an adaptive choice.
pub open spec fn twin_graphs(g: GraphView, h: GraphView, d: Set<int>) -> bool {
    &&& h.header == g.header
    &&& h.edges == g.edges
    &&& h.string_table == g.string_table
    &&& h.state == g.state
    &&& h.entry == g.entry
    &&& h.journal == g.journal
    &&& h.nodes.len() == g.nodes.len()
    &&& forall|i: int|
        0 <= i < g.nodes.len() ==> twin_nodes(#[trigger] g.nodes[i], h.nodes[i]) && (d.contains(i)
            || h.nodes[i] == g.nodes[i])
    &&& forall|i: int| #[trigger]
        d.contains(i) ==> 0 <= i < g.nodes.len() && !is_decision(g.nodes[i].op)
}

/// A frame that does not look at the weights of the nodes in `d`.
pub open spec fn blind_frame(f: Fr, d: Set<int>) -> bool {
    match f {
        Fr::Vote { id, .. } => !d.contains(id as int),
        Fr::Timed { id, .. } => !d.contains(id as int),
        _ => true,
    }
}

pub open spec fn blind_frames(s: Seq<Fr>, d: Set<int>) -> bool {
    forall|i: int| 0 <= i < s.len() ==> blind_frame(#[trigger] s[i], d)
}

/// A question that does not look at the weights of the nodes in `d`.
pub open spec fn blind_wait(w: Wt, d: Set<int>) -> bool {
    match w {
        Wt::Weighted(id) => !d.contains(id as int),
        Wt::Explore(id) => !d.contains(id as int),
        Wt::Exploring(id) => !d.contains(id as int),
        Wt::Reward(id, _) => !d.contains(id as int),
        Wt::RewardScale(id) => !d.contains(id as int),
        _ => true,
    }
}

/// Two machines in the same state but for the weights of the nodes in `d`, and
/// for what is to be learned at the end.
pub open spec fn twins(a: Mach, b: Mach, d: Set<int>) -> bool {
    &&& twin_graphs(a.graph, b.graph, d)
    &&& b.vars == a.vars
    &&& b.depth == a.depth
    &&& b.stats == a.stats
    &&& b.run_number == a.run_number
    &&& b.options == a.options
    &&& b.printed == a.printed
    &&& b.frames == a.frames
    &&& b.control == a.control
    &&& b.result == a.result
    &&& blind_frames(a.frames, d)
    &&& a.control matches Ct::Wait(w) ==> blind_wait(w, d)
}

/// The run is over but for applying what it learned.
pub open spec fn settling(m: Mach) -> bool {
    match m.control {
        Ct::Settle(_, _) => true,
        Ct::Wait(Wt::Delta { .. }) => true,
        Ct::Wait(Wt::Normal { .. }) => true,
        _ => false,
    }
}

proof fn nodes_of_twins(a: Mach, b: Mach, d: Set<int>, id: u32)
    requires
        twins(a, b, d),
    ensures
        twin_nodes(a.node(id), b.node(id)),
        b.operands(id) == a.operands(id),
        !d.contains(id as int) ==> b.node(id) == a.node(id),
        is_decision(a.node(id).op) ==> !d.contains(id as int),
{
    if id < a.graph.nodes.len() {
        assert(twin_nodes(a.graph.nodes[id as int], b.graph.nodes[id as int]));
    }
}

proof fn set_twins(a: Mach, b: Mach, d: Set<int>, id: u32, x: NodeView, y: NodeView)
    requires
        twins(a, b, d),
        twin_nodes(x, y),
        d.contains(id as int) || x == y,
        d.contains(id as int) ==> !is_decision(x.op),
    ensures
        twins(a.set_node(id, x), b.set_node(id, y), d),
{
}

proof fn bias_twins(a: Mach, b: Mach, d: Set<int>, id: u32, i: int)
    requires
        twins(a, b, d),
    ensures
        twins(a.set_bias(id, i), b.set_bias(id, i), d),
{
    nodes_of_twins(a, b, d, id);
    set_twins(
        a,
        b,
        d,
        id,
        NodeView { bias: real_of_int(i), ..a.node(id) },
        NodeView { bias: real_of_int(i), ..b.node(id) },
    );
}

proof fn weights_twins(a: Mach, b: Mach, d: Set<int>, id: u32, w: Seq<Real>)
    requires
        twins(a, b, d),
        !d.contains(id as int),
    ensures
        twins(a.set_weights(id, w), b.set_weights(id, w), d),
{
    nodes_of_twins(a, b, d, id);
    set_twins(
        a,
        b,
        d,
        id,
        NodeView { weights: w, ..a.node(id) },
        NodeView { weights: w, ..b.node(id) },
    );
}

proof fn follow_twins(a: Mach, b: Mach, d: Set<int>, id: u32, i: int)
    requires
        twins(a, b, d),
    ensures
        twins(a.follow(id, i), b.follow(id, i), d),
{
    nodes_of_twins(a, b, d, id);
}

proof fn take_twins(a: Mach, b: Mach, d: Set<int>, o: Out)
    requires
        twins(a, b, d),
    ensures
        twins(a.take(o), b.take(o), d),
{
}

proof fn branch_twins(a: Mach, b: Mach, d: Set<int>, id: u32, taken: bool)
    requires
        twins(a, b, d),
    ensures
        twins(a.branch(id, taken), b.branch(id, taken), d),
{
    reveal(Mach::branch);
    nodes_of_twins(a, b, d, id);
    let i = if taken {
        0int
    } else {
        1int
    };
    let (x, y) = (Real { bits: GAIN }, Real { bits: LOSS });
    let m = if a.node(id).weights.len() >= 2 {
        Mach { deltas: a.deltas.push((id, i, x)).push((id, 1 - i, y)), ..a }
    } else {
        a
    };
    let n = if b.node(id).weights.len() >= 2 {
        Mach { deltas: b.deltas.push((id, i, x)).push((id, 1 - i, y)), ..b }
    } else {
        b
    };
    follow_twins(m, n, d, id, 1 + i);
}

proof fn feedback_twins(a: Mach, b: Mach, d: Set<int>, target: u32, reward: Real)
    requires
        twins(a, b, d),
    ensures
        twins(a.feedback(target, reward), b.feedback(target, reward), d),
{
    reveal(Mach::feedback);
    nodes_of_twins(a, b, d, target);
}

proof fn call_twins(a: Mach, b: Mach, d: Set<int>, f: Val, args: Seq<Val>)
    requires
        twins(a, b, d),
    ensures
        twins(a.call(f, args), b.call(f, args), d),
{
    reveal(Mach::call);
}

proof fn over_twins(a: Mach, b: Mach, d: Set<int>, op: OpCode, func: Val, items: Seq<Val>, k: int, acc: Seq<Val>)
    requires
        twins(a, b, d),
    ensures
        twins(a.over(op, func, items, k, acc), b.over(op, func, items, k, acc), d),
{
    reveal(Mach::over);
    let f = Fr::Over { op, func, items, k, acc };
    let args = if op == OpCode::Reduce {
        seq![acc[0], items[k]]
    } else {
        seq![items[k]]
    };
    call_twins(a.push(f), b.push(f), d, func, args);
}

proof fn chosen_twins(a: Mach, b: Mach, d: Set<int>, id: u32, i: int)
    requires
        twins(a, b, d),
        !d.contains(id as int),
    ensures
        twins(a.chosen(id, i), b.chosen(id, i), d),
{
    reveal(Mach::chosen);
    nodes_of_twins(a, b, d, id);
    let n = choice_count(a.node(id));
    let k = if i < n {
        i
    } else {
        n - 1
    };
    bias_twins(a, b, d, id, k);
    follow_twins(a.set_bias(id, k), b.set_bias(id, k), d, id, k);
}

proof fn pick_option_twins(a: Mach, b: Mach, d: Set<int>, id: u32)
    requires
        twins(a, b, d),
        a.node(id).op == OpCode::AdaptiveChoice,
    ensures
        twins(a.pick_option(id), b.pick_option(id), d),
{
    reveal(Mach::pick_option);
    nodes_of_twins(a, b, d, id);
    chosen_twins(a, b, d, id, heaviest(a.node(id).weights, choice_count(a.node(id)), None).0);
}

proof fn strategy_twins(a: Mach, b: Mach, d: Set<int>, id: u32)
    requires
        twins(a, b, d),
        a.node(id).op == OpCode::Strategy,
    ensures
        twins(a.strategy(id), b.strategy(id), d),
{
    reveal(Mach::strategy);
    nodes_of_twins(a, b, d, id);
}

proof fn explore_twins(a: Mach, b: Mach, d: Set<int>, id: u32, exploring: bool)
    requires
        twins(a, b, d),
        !d.contains(id as int),
    ensures
        twins(a.explore(id, exploring), b.explore(id, exploring), d),
{
    reveal(Mach::explore);
    nodes_of_twins(a, b, d, id);
    if let Some(s) = stats_of(a.stats, id) {
        let c = least_tried(s, s.len() as int);
        if c.len() > 0 {
            bias_twins(
                a,
                b,
                d,
                id,
                c[((a.node(id).activation_count as usize) as int) % (c.len() as int)],
            );
        }
    }
    bias_twins(a, b, d, id, heaviest(a.node(id).weights, strategy_count(a.node(id)), None).0);
}

proof fn clock_twins(a: Mach, b: Mach, d: Set<int>, t: u128)
    requires
        twins(a, b, d),
        a.frames.len() > 0,
    ensures
        twins(a.clock(t), b.clock(t), d),
{
    reveal(Mach::clock);
    match a.frames.last() {
        Fr::Vote { id, .. } => {
            assert(blind_frame(a.frames[a.frames.len() - 1], d));
            nodes_of_twins(a, b, d, id);
        },
        Fr::Timed { id, .. } => {
            assert(blind_frame(a.frames[a.frames.len() - 1], d));
            nodes_of_twins(a, b, d, id);
        },
        _ => {},
    }
}

proof fn concluded_twins(a: Mach, b: Mach, d: Set<int>, mask: Seq<bool>)
    requires
        twins(a, b, d),
        a.frames.len() > 0,
    ensures
        twins(a.concluded(mask), b.concluded(mask), d),
{
    reveal(Mach::concluded);
    if let Fr::Vote { id, tolerant, tol, n, results, times, started } = a.frames.last() {
        assert(blind_frame(a.frames[a.frames.len() - 1], d));
        nodes_of_twins(a, b, d, id);
        bias_twins(
            a,
            b,
            d,
            id,
            heaviest(a.node(id).weights, a.voting_weights(id, tolerant, n), Some(mask)).0,
        );
    }
}

proof fn voted_twins(a: Mach, b: Mach, d: Set<int>, mask: Seq<bool>)
    requires
        twins(a, b, d),
        a.frames.len() > 0,
    ensures
        twins(a.voted(mask), b.voted(mask), d),
{
    reveal(Mach::voted);
    if let Fr::Vote { id, tolerant, tol, n, results, times, started } = a.frames.last() {
        assert(blind_frame(a.frames[a.frames.len() - 1], d));
        if let Some(s) = stats_of(a.stats, id) {
            let t = with_stats(a.stats, id, tallied(s, n, times, mask));
            concluded_twins(Mach { stats: t, ..a }, Mach { stats: t, ..b }, d, mask);
        } else {
            concluded_twins(a, b, d, mask);
        }
    }
}

proof fn prune_twins(a: Mach, b: Mach, d: Set<int>, target: Val)
    requires
        twins(a, b, d),
    ensures
        twins(a.prune(target), b.prune(target), d),
{
    if let Val::Int(n) = target {
        let i = n as usize;
        if i < a.graph.nodes.len() {
            assert(twin_nodes(a.graph.nodes[i as int], b.graph.nodes[i as int]));
        }
    }
}

proof fn act_twins(a: Mach, b: Mach, d: Set<int>, id: u32, op: OpCode, args: Seq<Val>)
    requires
        twins(a, b, d),
    ensures
        twins(a.act(id, op, args), b.act(id, op, args), d),
{
    reveal(Mach::act);
    nodes_of_twins(a, b, d, id);
    match op {
        OpCode::Call => call_twins(a.push(Fr::Await), b.push(Fr::Await), d, args[0], args.skip(1)),
        OpCode::Pipe => call_twins(
            a.push(Fr::Await),
            b.push(Fr::Await),
            d,
            args[1],
            seq![args[0]],
        ),
        OpCode::Branch => branch_twins(a, b, d, id, args[0].truthy()),
        OpCode::Guard => follow_twins(
            a,
            b,
            d,
            id,
            if args[0].truthy() {
                1int
            } else {
                2int
            },
        ),
        OpCode::Feedback => feedback_twins(
            a,
            b,
            d,
            ref_of(a.operands(id)[0]),
            reward_of(args[0]),
        ),
        OpCode::Filter | OpCode::MapEach | OpCode::Reduce => {
            if let Val::Array(items) = args[0] {
                let first = if op == OpCode::Reduce {
                    seq![
                        if args.len() > 2 {
                            args[2]
                        } else {
                            Val::Null
                        },
                    ]
                } else {
                    Seq::empty()
                };
                over_twins(a, b, d, op, args[1], items, 0, first);
            }
        },
        OpCode::Prune => prune_twins(a, b, d, args[0]),
        _ => {},
    }
    take_twins(a, b, d, op_out(op, args));
    if args.len() > 1 {
        take_twins(a, b, d, split_out(args[0], Some(args[1])));
    } else {
        take_twins(a, b, d, split_out(args[0], None));
    }
}

proof fn next_arg_twins(a: Mach, b: Mach, d: Set<int>, id: u32, op: OpCode, done: Seq<Val>)
    requires
        twins(a, b, d),
    ensures
        twins(a.next_arg(id, op, done), b.next_arg(id, op, done), d),
{
    reveal(Mach::next_arg);
    nodes_of_twins(a, b, d, id);
    act_twins(a, b, d, id, op, done);
}

proof fn have_arg_twins(a: Mach, b: Mach, d: Set<int>, id: u32, op: OpCode, done: Seq<Val>)
    requires
        twins(a, b, d),
    ensures
        twins(a.have_arg(id, op, done), b.have_arg(id, op, done), d),
{
    reveal(Mach::have_arg);
    next_arg_twins(a, b, d, id, op, done);
}

proof fn dispatch_twins(a: Mach, b: Mach, d: Set<int>, id: u32, op: OpCode)
    requires
        twins(a, b, d),
        a.node(id).op == op,
    ensures
        twins(a.dispatch(id, op), b.dispatch(id, op), d),
{
    reveal(Mach::dispatch);
    nodes_of_twins(a, b, d, id);
    next_arg_twins(a, b, d, id, op, Seq::empty());
    if op == OpCode::AdaptiveChoice {
        pick_option_twins(a, b, d, id);
    }
    if op == OpCode::Strategy {
        strategy_twins(a, b, d, id);
    }
}

proof fn enter_twins(a: Mach, b: Mach, d: Set<int>, id: u32)
    requires
        twins(a, b, d),
    ensures
        twins(a.enter(id), b.enter(id), d),
{
    reveal(Mach::enter);
    nodes_of_twins(a, b, d, id);
    if id < a.graph.nodes.len() && a.node(id).activation_count < u64::MAX {
        let (x, y) = (a.node(id), b.node(id));
        let n = (x.activation_count + 1) as u64;
        let p = NodeView { activation_count: n, ..x };
        let q = NodeView { activation_count: n, ..y };
        set_twins(a, b, d, id, p, q);
        let k = (a.depth + 1) as u32;
        let m = Mach { depth: k, ..a.set_node(id, p) };
        assert(m.node(id) == p);
        dispatch_twins(m, Mach { depth: k, ..b.set_node(id, q) }, d, id, x.op);
    }
}

proof fn next_item_twins(a: Mach, b: Mach, d: Set<int>, id: u32, at: int, f: Flo)
    requires
        twins(a, b, d),
    ensures
        twins(a.next_item(id, at, f), b.next_item(id, at, f), d),
{
    reveal(Mach::next_item);
    nodes_of_twins(a, b, d, id);
}

proof fn next_in_loop_twins(a: Mach, b: Mach, d: Set<int>, id: u32, at: int, last: Val, f: Flo)
    requires
        twins(a, b, d),
    ensures
        twins(a.next_in_loop(id, at, last, f), b.next_in_loop(id, at, last, f), d),
{
    reveal(Mach::next_in_loop);
    nodes_of_twins(a, b, d, id);
}

proof fn each_item_twins(a: Mach, b: Mach, d: Set<int>, id: u32, slot: u32, items: Seq<Val>, k: int, last: Val)
    requires
        twins(a, b, d),
    ensures
        twins(a.each_item(id, slot, items, k, last), b.each_item(id, slot, items, k, last), d),
{
    reveal(Mach::each_item);
    nodes_of_twins(a, b, d, id);
}

proof fn next_in_each_twins(a: Mach, b: Mach, d: Set<int>, id: u32, slot: u32, items: Seq<Val>, k: int, at: int, last: Val, f: Flo)
    requires
        twins(a, b, d),
    ensures
        twins(a.next_in_each(id, slot, items, k, at, last, f), b.next_in_each(id, slot, items, k, at, last, f), d),
{
    reveal(Mach::next_in_each);
    nodes_of_twins(a, b, d, id);
    each_item_twins(a, b, d, id, slot, items, k + 1, f.value());
    if let Val::Array(list) = f.value() {
        each_item_twins(a, b, d, id, slot, list, 0, Val::Null);
    }
}

proof fn next_in_times_twins(a: Mach, b: Mach, d: Set<int>, id: u32, left: int, at: int, f: Flo)
    requires
        twins(a, b, d),
    ensures
        twins(a.next_in_times(id, left, at, f), b.next_in_times(id, left, at, f), d),
{
    reveal(Mach::next_in_times);
    nodes_of_twins(a, b, d, id);
}

proof fn next_in_body_twins(a: Mach, b: Mach, d: Set<int>, body: Seq<u32>, at: int, saved: Seq<(u32, Option<Val>)>, f: Flo)
    requires
        twins(a, b, d),
    ensures
        twins(a.next_in_body(body, at, saved, f), b.next_in_body(body, at, saved, f), d),
{
    reveal(Mach::next_in_body);
}

proof fn next_over_twins(a: Mach, b: Mach, d: Set<int>, op: OpCode, func: Val, items: Seq<Val>, k: int, acc: Seq<Val>, v: Val)
    requires
        twins(a, b, d),
    ensures
        twins(a.next_over(op, func, items, k, acc, v), b.next_over(op, func, items, k, acc, v), d),
{
    reveal(Mach::next_over);
    let next = match op {
        OpCode::Filter => if v.truthy() {
            acc.push(items[k])
        } else {
            acc
        },
        OpCode::MapEach => acc.push(v),
        _ => seq![v],
    };
    over_twins(a, b, d, op, func, items, k + 1, next);
}

proof fn give_twins(a: Mach, b: Mach, d: Set<int>, f: Flo)
    requires
        twins(a, b, d),
    ensures
        twins(a.give(f), b.give(f), d),
{
    reveal(Mach::give);
    if a.frames.len() > 0 {
        let m = Mach { frames: a.frames.drop_last(), ..a };
        let n = Mach { frames: b.frames.drop_last(), ..b };
        let v = f.value();
        assert(blind_frame(a.frames[a.frames.len() - 1], d));
        match a.frames.last() {
            Fr::Args { id, op, done } => have_arg_twins(m, n, d, id, op, done.push(v)),
            Fr::Items { id, at } => next_item_twins(m, n, d, id, at, f),
            Fr::While { id, at, last } => next_in_loop_twins(m, n, d, id, at, last, f),
            Fr::Each { id, slot, items, k, at, last } => next_in_each_twins(
                m,
                n,
                d,
                id,
                slot,
                items,
                k,
                at,
                last,
                f,
            ),
            Fr::Times { id, left, at } => next_in_times_twins(m, n, d, id, left, at, f),
            Fr::Body { body, at, saved } => next_in_body_twins(m, n, d, body, at, saved, f),
            Fr::Over { op, func, items, k, acc } => next_over_twins(
                m,
                n,
                d,
                op,
                func,
                items,
                k,
                acc,
                v,
            ),
            _ => {},
        }
    }
}

proof fn resume_twins(a: Mach, b: Mach, d: Set<int>)
    requires
        twins(a, b, d),
    ensures
        twins(a.resume(), b.resume(), d),
{
    reveal(Mach::resume);
    if a.frames.len() > 0 {
        let m = Mach { frames: a.frames.drop_last(), ..a };
        let n = Mach { frames: b.frames.drop_last(), ..b };
        if let Fr::Each { id, slot, items, k, at, last } = a.frames.last() {
            each_item_twins(m, n, d, id, slot, items, k + 1, last);
        }
    }
}

proof fn vote_learning_twins(a: Mach, b: Mach, d: Set<int>, w: Wt, e: Ev)
    requires
        twins(a, b, d),
        w is VoteRange || w is VoteMoves || w is VoteScale,
    ensures
        twins(a.hear(w, e), b.hear(w, e), d),
{
    reveal(Mach::hear);
    reveal(Mach::hear_vote_range);
    reveal(Mach::hear_vote_moves);
    reveal(Mach::hear_vote_scale);
    if let Fr::Vote { id, tolerant, tol, n, results, times, started } = a.top() {
        assert(blind_frame(a.frames[a.frames.len() - 1], d));
        nodes_of_twins(a, b, d, id);
        let all = a.node(id).weights;
        match (w, e) {
            (Wt::VoteMoves(mask, range), Ev::Moved { raised, lowered }) => weights_twins(
                a,
                b,
                d,
                id,
                voted_weights(
                    all,
                    a.voting_weights(id, tolerant, n),
                    mask,
                    range,
                    raised,
                    lowered,
                ),
            ),
            (Wt::VoteScale(mask), Ev::Shares { sum, shares }) => {
                let x = scaled_weights(all, sum, shares);
                weights_twins(a, b, d, id, x);
                concluded_twins(
                    a.set_weights(id, x).journaled(id),
                    b.set_weights(id, x).journaled(id),
                    d,
                    mask,
                );
            },
            _ => {},
        }
    }
}

proof fn time_learning_twins(a: Mach, b: Mach, d: Set<int>, w: Wt, e: Ev)
    requires
        twins(a, b, d),
        w is Averages || w is TimeRange || w is TimeMoves || w is TimeScale,
    ensures
        twins(a.hear(w, e), b.hear(w, e), d),
{
    reveal(Mach::hear);
    reveal(Mach::hear_averages);
    reveal(Mach::hear_time_range);
    reveal(Mach::hear_time_moves);
    reveal(Mach::hear_time_scale);
    if let Fr::Timed { id, chosen, started, flow } = a.top() {
        assert(blind_frame(a.frames[a.frames.len() - 1], d));
        nodes_of_twins(a, b, d, id);
        let all = a.node(id).weights;
        match (w, e) {
            (Wt::TimeMoves(v, range), Ev::Moved { raised, lowered }) => weights_twins(
                a,
                b,
                d,
                id,
                timed_weights(all, raised),
            ),
            (Wt::TimeScale, Ev::Shares { sum, shares }) => weights_twins(
                Mach { frames: a.frames.drop_last(), ..a },
                Mach { frames: b.frames.drop_last(), ..b },
                d,
                id,
                scaled_weights(all, sum, shares),
            ),
            _ => {},
        }
    }
}

proof fn hear_twins(a: Mach, b: Mach, d: Set<int>, w: Wt, e: Ev)
    requires
        twins(a, b, d),
        blind_wait(w, d),
        !settling(a.wait(w)),
    ensures
        twins(a.hear(w, e), b.hear(w, e), d),
{
    reveal(Mach::hear);
    match (w, e) {
        (Wt::Computed(op, _, _), Ev::Number(r)) => take_twins(a, b, d, computed_out(op, r)),
        (Wt::Clock, Ev::Time(t)) => {
            if a.frames.len() > 0 {
                clock_twins(a, b, d, t);
            }
        },
        (Wt::Weighted(id), Ev::Drawn { sum, running, roll }) => {
            nodes_of_twins(a, b, d, id);
            chosen_twins(a, b, d, id, crate::learning::weighted_choice(sum, running, roll).0);
        },
        (Wt::Explore(id), Ev::Rolled { roll, pick }) => {
            nodes_of_twins(a, b, d, id);
            chosen_twins(a, b, d, id, cut_to(pick, usize::MAX as nat) as int);
            chosen_twins(
                a,
                b,
                d,
                id,
                heaviest(a.node(id).weights, choice_count(a.node(id)), None).0,
            );
        },
        (Wt::Exploring(id), Ev::Odds { roll, chance }) => explore_twins(
            a,
            b,
            d,
            id,
            explores(roll, chance),
        ),
        (Wt::VoteTexts, Ev::Texts(t)) => {
            if a.frames.len() > 0 {
                if let Fr::Vote { id, tolerant, tol, n, results, times, started }
                    = a.frames.last() {
                    voted_twins(a, b, d, agreeing(shown_each(results, t)));
                }
            }
        },
        (Wt::VoteNumbers, Ev::Numbers(v)) => {
            reveal(Mach::hear_vote_numbers);
        },
        (Wt::Distances(v), Ev::Numbers(x)) => {
            reveal(Mach::hear_distances);
            if let Fr::Vote { id, tolerant, tol, n, results, times, started } = a.top() {
                voted_twins(a, b, d, within(x, tol));
            }
        },
        (Wt::VoteRange(_), _)
        | (Wt::VoteMoves(_, _), _)
        | (Wt::VoteScale(_), _) => vote_learning_twins(a, b, d, w, e),
        (Wt::Averages, _)
        | (Wt::TimeRange(_), _)
        | (Wt::TimeMoves(_, _), _)
        | (Wt::TimeScale, _) => time_learning_twins(a, b, d, w, e),
        (Wt::Reward(id, _), Ev::Moved { raised, lowered }) => {
            nodes_of_twins(a, b, d, id);
            weights_twins(
                a,
                b,
                d,
                id,
                rewarded_weights(a.node(id).weights, a.chosen_before(id), raised, lowered),
            );
        },
        (Wt::RewardScale(id), Ev::Shares { sum, shares }) => {
            nodes_of_twins(a, b, d, id);
            weights_twins(a, b, d, id, scaled_weights(a.node(id).weights, sum, shares));
        },
        _ => {},
    }
}

/// Until a run is over, a step keeps two machines twins: weights of nodes that are
/// no decisions, such as branches, only observe.
pub proof fn steps_ignore_other_weights(a: Mach, b: Mach, d: Set<int>, e: Ev)
    requires
        twins(a, b, d),
        !settling(a),
    ensures
        twins(a.step(e), b.step(e), d),
{
    match a.control {
        Ct::Enter(id) => enter_twins(a, b, d, id),
        Ct::Give(f) => give_twins(a.go(Ct::Resume), b.go(Ct::Resume), d, f),
        Ct::Resume => resume_twins(a, b, d),
        Ct::Wait(w) => {
            assert(a.go(Ct::Resume).wait(w).control == a.control);
            hear_twins(a.go(Ct::Resume), b.go(Ct::Resume), d, w, e);
        },
        _ => {},
    }
}

/// Until a run is over, twins ask the host the same.
pub proof fn twins_act_alike(a: Mach, b: Mach, d: Set<int>)
    requires
        twins(a, b, d),
        !settling(a),
    ensures
        b.action() == a.action(),
{
    match a.control {
        Ct::Wait(Wt::Weighted(id)) => nodes_of_twins(a, b, d, id),
        Ct::Wait(Wt::Explore(id)) => nodes_of_twins(a, b, d, id),
        Ct::Wait(Wt::Exploring(id)) => nodes_of_twins(a, b, d, id),
        Ct::Wait(Wt::Reward(id, _)) => nodes_of_twins(a, b, d, id),
        Ct::Wait(Wt::RewardScale(id)) => nodes_of_twins(a, b, d, id),
        Ct::Wait(_) => {
            if a.frames.len() > 0 {
                assert(blind_frame(a.frames[a.frames.len() - 1], d));
                match a.frames.last() {
                    Fr::Vote { id, .. } => nodes_of_twins(a, b, d, id),
                    Fr::Timed { id, .. } => nodes_of_twins(a, b, d, id),
                    _ => {},
                }
            }
        },
        _ => {},
    }
}

proof fn loading_ignores_other_weights(
    stats: Seq<(u32, Seq<OptionStats>)>,
    g: GraphView,
    h: GraphView,
    d: Set<int>,
    n: int,
)
    requires
        twin_graphs(g, h, d),
        0 <= n <= g.nodes.len(),
    ensures
        loaded_over(stats, h, n) == loaded_over(stats, g, n),
    decreases n,
{
    if n > 0 {
        loading_ignores_other_weights(stats, g, h, d, n - 1);
        assert(twin_nodes(g.nodes[n - 1], h.nodes[n - 1]));
    }
}

/// No weight of a node that is no decision decides anything: two runs of graphs
/// that differ in such weights alone, with the same answers of the host, ask the
/// same and stay the same but for those weights, for as long as neither is over,
/// and are then over with the same result and the same printed lines.
pub proof fn runs_ignore_other_weights(
    g: GraphView,
    h: GraphView,
    d: Set<int>,
    options: RunOptions,
    events: Seq<Ev>,
)
    requires
        twin_graphs(g, h, d),
        forall|i: int|
            0 <= i < events.len() ==> !settling(
                after(started(fresh(g, options)), #[trigger] events.take(i)),
            ),
    ensures
        ({
            let a = after(started(fresh(g, options)), events);
            let b = after(started(fresh(h, options)), events);
            &&& twins(a, b, d)
            &&& settling(b) == settling(a)
            &&& b.result == a.result
            &&& b.printed == a.printed
            &&& !settling(a) ==> b.action() == a.action()
        }),
    decreases events.len(),
{
    let s = started(fresh(g, options));
    let u = started(fresh(h, options));
    if events.len() == 0 {
        if g.entry < g.nodes.len() {
            assert(twin_nodes(g.nodes[g.entry as int], h.nodes[g.entry as int]));
        }
        loading_ignores_other_weights(Seq::empty(), g, h, d, g.nodes.len() as int);
    } else {
        let front = events.drop_last();
        assert forall|i: int| 0 <= i < front.len() implies !settling(
            after(s, #[trigger] front.take(i)),
        ) by {
            assert(front.take(i) =~= events.take(i));
        }
        runs_ignore_other_weights(g, h, d, options, front);
        assert(events.take(events.len() - 1) =~= front);
        steps_ignore_other_weights(after(s, front), after(u, front), d, events.last());
    }
    if !settling(after(s, events)) {
        twins_act_alike(after(s, events), after(u, events), d);
    }
}

/// Applying what was learned changes neither the result nor what was printed, and
/// ends with that result.
pub proof fn settling_keeps_the_result(m: Mach, e: Ev)
    requires
        settling(m),
    ensures
        m.step(e).result == m.result,
        m.step(e).printed == m.printed,
        settling(m.step(e)) || m.step(e).control is Stopped || m.step(e).action()
            == Ac::Finished(Ok::<Val, Seq<char>>(m.result)),
{
    reveal(Mach::hear);
}

/// The condition of a branch alone decides which way it goes.
pub proof fn conditions_decide(m: Mach, id: u32, args: Seq<Val>)
    requires
        m.operands(id).len() >= 3,
        args.len() == 1,
    ensures
        m.act(id, OpCode::Branch, args).control == Ct::Enter(
            ref_of(
                m.operands(id)[if args[0].truthy() {
                    1
                } else {
                    2
                }],
            ),
        ),
{
    reveal(Mach::act);
    reveal(Mach::branch);
}

} // verus!
