//! What holds of every run.
use crate::graph::{GraphView, NodeView, OpCode};
use crate::graph_executor::{fresh, started};
use crate::number::{Real, cut_to};
use crate::ops::{Out, computed_out, op_out, split_out};
use crate::run_model::{Ac, Ct, Ev, Flo, Fr, GAIN, LOSS, Mach, OptionStats, Qu, RunOptions, Wt, agreeing, choice_count, count_true, heaviest, ref_of, reward_of, saved_all, saved_one, shown_each, stats_of, tallied, with_stats};
use crate::values::Val;
use crate::weighing::{explores, scaled_weights, within};
use vstd::prelude::*;

verus! {

/// A frame that collects what is to be printed.
pub open spec fn loud(f: Fr) -> bool {
    f matches Fr::Args { op, .. } && op == OpCode::Print
}

/// Nothing is to be printed later.
pub open spec fn quiet(s: Seq<Fr>) -> bool {
    forall|i: int| 0 <= i < s.len() ==> !loud(#[trigger] s[i])
}

/// Weight changes name weights by their places.
pub open spec fn placed_deltas(s: Seq<(u32, int, Real)>) -> bool {
    forall|i: int| 0 <= i < s.len() ==> (#[trigger] s[i]).1 >= 0
}

/// A machine that may not print will not later.
pub open spec fn ready(m: Mach) -> bool {
    &&& m.options.deny_stdout ==> quiet(m.frames)
    &&& placed_deltas(m.deltas)
}

/// A machine that may not print is not about to, and one that may not read does
/// not wait for a line.
pub open spec fn obeys(m: Mach) -> bool {
    &&& ready(m)
    &&& m.control matches Ct::Wait(Wt::Delta { at, next, .. }) ==> at >= 0 && next >= 0
    &&& m.control matches Ct::Wait(Wt::Normal { next, .. }) ==> next >= 0
    &&& m.control matches Ct::Settle(_, i) ==> i >= 0
    &&& m.options.deny_stdout ==> !(m.control matches Ct::Wait(Wt::PrintTexts(_)))
    &&& m.options.deny_stdout ==> !(m.control matches Ct::Wait(Wt::Printing(_)))
    &&& m.options.deny_stdin ==> m.control != Ct::Wait(Wt::Line)
}

/// A node that is the same program text: its place, its operands and its rules
/// are the same, and so is its operation, unless it was pruned.
pub open spec fn same_text(a: NodeView, b: NodeView) -> bool {
    &&& b.id == a.id
    &&& b.operands == a.operands
    &&& b.contract == a.contract
    &&& b.objective == a.objective
    &&& b.weight_kind == a.weight_kind
    &&& b.annotation == a.annotation
    &&& b.weights.len() == a.weights.len()
    &&& b.op == a.op || b.op == OpCode::Noop
}

/// The second graph is the first with other numbers, and perhaps more nodes.
pub open spec fn kept(a: GraphView, b: GraphView) -> bool {
    &&& b.entry == a.entry
    &&& b.edges == a.edges
    &&& b.string_table == a.string_table
    &&& a.nodes.len() <= b.nodes.len()
    &&& forall|i: int| 0 <= i < a.nodes.len() ==> same_text(#[trigger] a.nodes[i], b.nodes[i])
}

proof fn kept_passes_on(a: GraphView, b: GraphView, c: GraphView)
    requires
        kept(a, b),
        kept(b, c),
    ensures
        kept(a, c),
{
    assert forall|i: int| 0 <= i < a.nodes.len() implies same_text(
        #[trigger] a.nodes[i],
        c.nodes[i],
    ) by {
        assert(same_text(a.nodes[i], b.nodes[i]));
        assert(same_text(b.nodes[i], c.nodes[i]));
    }
}

/// What any part of a step does: the options stay, printed lines stay, none is
/// added where that is denied, and the program's text is kept.
pub open spec fn goes_on(a: Mach, b: Mach) -> bool {
    &&& b.options == a.options
    &&& a.printed.is_prefix_of(b.printed)
    &&& a.options.deny_stdout ==> b.printed == a.printed
    &&& kept(a.graph, b.graph)
    &&& obeys(b)
}

/// The same but for where the machine stands and what it knows of variables,
/// statistics and weights.
pub open spec fn alike(a: Mach, b: Mach) -> bool {
    &&& b.options == a.options
    &&& b.printed == a.printed
    &&& kept(a.graph, b.graph)
    &&& ready(a) ==> ready(b)
}

proof fn goes_on_from_alike(a: Mach, b: Mach, c: Mach)
    requires
        alike(a, b),
        goes_on(b, c),
    ensures
        goes_on(a, c),
{
    kept_passes_on(a.graph, b.graph, c.graph);
}

proof fn follow_goes_on(m: Mach, id: u32, i: int)
    requires
        ready(m),
    ensures
        goes_on(m, m.follow(id, i)),
{
}

proof fn take_goes_on(m: Mach, o: Out)
    requires
        ready(m),
    ensures
        goes_on(m, m.take(o)),
{
}

proof fn branch_goes_on(m: Mach, id: u32, taken: bool)
    requires
        ready(m),
    ensures
        goes_on(m, m.branch(id, taken)),
{
    reveal(Mach::branch);
    let i = if taken {
        0int
    } else {
        1int
    };
    let n = if m.node(id).weights.len() >= 2 {
        Mach {
            deltas: m.deltas.push((id, i, Real { bits: GAIN })).push(
                (id, 1 - i, Real { bits: LOSS }),
            ),
            ..m
        }
    } else {
        m
    };
    follow_goes_on(n, id, 1 + i);
    goes_on_from_alike(m, n, n.follow(id, 1 + i));
}

proof fn feedback_goes_on(m: Mach, target: u32, reward: Real)
    requires
        ready(m),
    ensures
        goes_on(m, m.feedback(target, reward)),
{
    reveal(Mach::feedback);
}

proof fn call_goes_on(m: Mach, f: Val, args: Seq<Val>)
    requires
        ready(m),
    ensures
        goes_on(m, m.call(f, args)),
{
    reveal(Mach::call);
}

proof fn over_goes_on(m: Mach, op: OpCode, func: Val, items: Seq<Val>, k: int, acc: Seq<Val>)
    requires
        ready(m),
    ensures
        goes_on(m, m.over(op, func, items, k, acc)),
{
    reveal(Mach::over);
    let n = m.push(Fr::Over { op, func, items, k, acc });
    let args = if op == OpCode::Reduce {
        seq![acc[0], items[k]]
    } else {
        seq![items[k]]
    };
    call_goes_on(n, func, args);
    goes_on_from_alike(m, n, n.call(func, args));
}

proof fn chosen_goes_on(m: Mach, id: u32, i: int)
    requires
        ready(m),
    ensures
        goes_on(m, m.chosen(id, i)),
{
    reveal(Mach::chosen);
    let n = choice_count(m.node(id));
    let k = if i < n {
        i
    } else {
        n - 1
    };
    let b = m.set_bias(id, k);
    follow_goes_on(b, id, k);
    goes_on_from_alike(m, b, b.follow(id, k));
}

proof fn pick_option_goes_on(m: Mach, id: u32)
    requires
        ready(m),
    ensures
        goes_on(m, m.pick_option(id)),
{
    reveal(Mach::pick_option);
    chosen_goes_on(m, id, heaviest(m.node(id).weights, choice_count(m.node(id)), None).0);
}

proof fn strategy_goes_on(m: Mach, id: u32)
    requires
        ready(m),
    ensures
        goes_on(m, m.strategy(id)),
{
    reveal(Mach::strategy);
}

proof fn explore_goes_on(m: Mach, id: u32, exploring: bool)
    requires
        ready(m),
    ensures
        goes_on(m, m.explore(id, exploring)),
{
    reveal(Mach::explore);
}

proof fn clock_goes_on(m: Mach, t: u128)
    requires
        ready(m),
        m.frames.len() > 0,
    ensures
        goes_on(m, m.clock(t)),
{
    reveal(Mach::clock);
}

proof fn concluded_goes_on(m: Mach, mask: Seq<bool>)
    requires
        ready(m),
        m.frames.len() > 0,
    ensures
        goes_on(m, m.concluded(mask)),
{
    reveal(Mach::concluded);
}

proof fn voted_goes_on(m: Mach, mask: Seq<bool>)
    requires
        ready(m),
        m.frames.len() > 0,
    ensures
        goes_on(m, m.voted(mask)),
{
    reveal(Mach::voted);
    if let Fr::Vote { id, tolerant, tol, n, results, times, started } = m.frames.last() {
        if let Some(s) = stats_of(m.stats, id) {
            let b = Mach {
                stats: with_stats(m.stats, id, tallied(s, n, times, mask)),
                ..m
            };
            concluded_goes_on(b, mask);
            goes_on_from_alike(m, b, b.concluded(mask));
        } else {
            concluded_goes_on(m, mask);
        }
    }
}

proof fn act_goes_on(m: Mach, id: u32, op: OpCode, args: Seq<Val>)
    requires
        ready(m),
        !m.options.deny_stdout || op != OpCode::Print,
    ensures
        goes_on(m, m.act(id, op, args)),
{
    reveal(Mach::act);
    let a = m.push(Fr::Await);
    match op {
        OpCode::Call => {
            call_goes_on(a, args[0], args.skip(1));
            goes_on_from_alike(m, a, a.call(args[0], args.skip(1)));
        },
        OpCode::Pipe => {
            call_goes_on(a, args[1], seq![args[0]]);
            goes_on_from_alike(m, a, a.call(args[1], seq![args[0]]));
        },
        OpCode::Branch => branch_goes_on(m, id, args[0].truthy()),
        OpCode::Guard => follow_goes_on(
            m,
            id,
            if args[0].truthy() {
                1int
            } else {
                2int
            },
        ),
        OpCode::Feedback => feedback_goes_on(m, ref_of(m.operands(id)[0]), reward_of(args[0])),
        OpCode::Filter | OpCode::MapEach | OpCode::Reduce => {
            if let Val::Array(items) = args[0] {
                let first = if op == OpCode::Reduce {
                    seq![
                        if args.len() > 2 {
                            args[2]
                        } else {
                            Val::Null
                        },
                    ]
                } else {
                    Seq::empty()
                };
                over_goes_on(m, op, args[1], items, 0, first);
            }
        },
        _ => {},
    }
    take_goes_on(m, op_out(op, args));
    if args.len() > 1 {
        take_goes_on(m, split_out(args[0], Some(args[1])));
    } else {
        take_goes_on(m, split_out(args[0], None));
    }
}

proof fn next_arg_goes_on(m: Mach, id: u32, op: OpCode, done: Seq<Val>)
    requires
        ready(m),
        !m.options.deny_stdout || op != OpCode::Print,
    ensures
        goes_on(m, m.next_arg(id, op, done)),
{
    reveal(Mach::next_arg);
    act_goes_on(m, id, op, done);
}

proof fn have_arg_goes_on(m: Mach, id: u32, op: OpCode, done: Seq<Val>)
    requires
        ready(m),
        !m.options.deny_stdout || op != OpCode::Print,
    ensures
        goes_on(m, m.have_arg(id, op, done)),
{
    reveal(Mach::have_arg);
    next_arg_goes_on(m, id, op, done);
}

proof fn dispatch_goes_on(m: Mach, id: u32, op: OpCode)
    requires
        ready(m),
    ensures
        goes_on(m, m.dispatch(id, op)),
{
    reveal(Mach::dispatch);
    if !m.options.deny_stdout || op != OpCode::Print {
        next_arg_goes_on(m, id, op, Seq::empty());
    }
    pick_option_goes_on(m, id);
    strategy_goes_on(m, id);
}

proof fn enter_goes_on(m: Mach, id: u32)
    requires
        ready(m),
    ensures
        goes_on(m, m.enter(id)),
{
    reveal(Mach::enter);
    if id < m.graph.nodes.len() && m.node(id).activation_count < u64::MAX {
        let node = m.node(id);
        let counted = NodeView {
            activation_count: (node.activation_count + 1) as u64,
            ..node
        };
        let b = Mach { depth: (m.depth + 1) as u32, ..m.set_node(id, counted) };
        dispatch_goes_on(b, id, node.op);
        goes_on_from_alike(m, b, b.dispatch(id, node.op));
    }
}

proof fn next_item_goes_on(m: Mach, id: u32, at: int, f: Flo)
    requires
        ready(m),
    ensures
        goes_on(m, m.next_item(id, at, f)),
{
    reveal(Mach::next_item);
}

proof fn next_in_loop_goes_on(m: Mach, id: u32, at: int, last: Val, f: Flo)
    requires
        ready(m),
    ensures
        goes_on(m, m.next_in_loop(id, at, last, f)),
{
    reveal(Mach::next_in_loop);
}

proof fn each_item_goes_on(m: Mach, id: u32, slot: u32, items: Seq<Val>, k: int, last: Val)
    requires
        ready(m),
    ensures
        goes_on(m, m.each_item(id, slot, items, k, last)),
{
    reveal(Mach::each_item);
}

proof fn next_in_each_goes_on(m: Mach, id: u32, slot: u32, items: Seq<Val>, k: int, at: int, last: Val, f: Flo)
    requires
        ready(m),
    ensures
        goes_on(m, m.next_in_each(id, slot, items, k, at, last, f)),
{
    reveal(Mach::next_in_each);
    each_item_goes_on(m, id, slot, items, k + 1, f.value());
    if let Val::Array(list) = f.value() {
        each_item_goes_on(m, id, slot, list, 0, Val::Null);
    }
}

proof fn next_in_times_goes_on(m: Mach, id: u32, left: int, at: int, f: Flo)
    requires
        ready(m),
    ensures
        goes_on(m, m.next_in_times(id, left, at, f)),
{
    reveal(Mach::next_in_times);
}

proof fn next_in_body_goes_on(m: Mach, body: Seq<u32>, at: int, saved: Seq<(u32, Option<Val>)>, f: Flo)
    requires
        ready(m),
    ensures
        goes_on(m, m.next_in_body(body, at, saved, f)),
{
    reveal(Mach::next_in_body);
}

proof fn next_over_goes_on(m: Mach, op: OpCode, func: Val, items: Seq<Val>, k: int, acc: Seq<Val>, v: Val)
    requires
        ready(m),
    ensures
        goes_on(m, m.next_over(op, func, items, k, acc, v)),
{
    reveal(Mach::next_over);
    let next = match op {
        OpCode::Filter => if v.truthy() {
            acc.push(items[k])
        } else {
            acc
        },
        OpCode::MapEach => acc.push(v),
        _ => seq![v],
    };
    over_goes_on(m, op, func, items, k + 1, next);
}

proof fn give_goes_on(m: Mach, f: Flo)
    requires
        ready(m),
    ensures
        goes_on(m, m.give(f)),
{
    reveal(Mach::give);
    if m.frames.len() > 0 {
        let b = Mach { frames: m.frames.drop_last(), ..m };
        let v = f.value();
        assert(m.options.deny_stdout ==> !loud(m.frames[m.frames.len() - 1]));
        match m.frames.last() {
            Fr::Args { id, op, done } => have_arg_goes_on(b, id, op, done.push(v)),
            Fr::Items { id, at } => next_item_goes_on(b, id, at, f),
            Fr::While { id, at, last } => next_in_loop_goes_on(b, id, at, last, f),
            Fr::Each { id, slot, items, k, at, last } => next_in_each_goes_on(
                b,
                id,
                slot,
                items,
                k,
                at,
                last,
                f,
            ),
            Fr::Times { id, left, at } => next_in_times_goes_on(b, id, left, at, f),
            Fr::Body { body, at, saved } => next_in_body_goes_on(b, body, at, saved, f),
            Fr::Over { op, func, items, k, acc } => next_over_goes_on(
                b,
                op,
                func,
                items,
                k,
                acc,
                v,
            ),
            _ => {},
        }
    }
}

proof fn resume_goes_on(m: Mach)
    requires
        ready(m),
    ensures
        goes_on(m, m.resume()),
{
    reveal(Mach::resume);
    if m.frames.len() > 0 {
        let b = Mach { frames: m.frames.drop_last(), ..m };
        if let Fr::Each { id, slot, items, k, at, last } = m.frames.last() {
            each_item_goes_on(b, id, slot, items, k + 1, last);
        }
    }
}

proof fn saving_keeps(g: GraphView, stats: Seq<(u32, Seq<OptionStats>)>)
    ensures
        kept(g, saved_all(g, stats).0),
    decreases stats.len(),
{
    if stats.len() > 0 {
        saving_keeps(g, stats.drop_last());
        let h = saved_all(g, stats.drop_last()).0;
        if let Some(k) = saved_one(h, stats.last().0, stats.last().1) {
            kept_passes_on(g, h, k);
        }
    }
}

proof fn settle_goes_on(m: Mach, scaling: bool, i: int)
    requires
        ready(m),
        i >= 0,
    ensures
        goes_on(m, m.settle(scaling, i)),
{
    saving_keeps(m.graph, m.stats);
}

proof fn vote_scale_goes_on(m: Mach, mask: Seq<bool>, sum: Real, shares: Seq<Real>)
    requires
        ready(m),
    ensures
        goes_on(m, m.hear_vote_scale(mask, sum, shares)),
{
    reveal(Mach::hear_vote_scale);
    if let Fr::Vote { id, tolerant, tol, n, results, times, started } = m.top() {
        let w = scaled_weights(m.node(id).weights, sum, shares);
        let b = m.set_weights(id, w).journaled(id);
        if shares.len() == m.voting_weights(id, tolerant, n) {
            concluded_goes_on(b, mask);
            goes_on_from_alike(m, b, b.concluded(mask));
        }
    }
}

#[verifier::rlimit(40)]
proof fn hear_votes_goes_on(m: Mach, w: Wt, e: Ev)
    requires
        ready(m),
        w is VoteNumbers || w is Distances || w is VoteRange || w is VoteMoves,
    ensures
        goes_on(m, m.hear(w, e)),
{
    reveal(Mach::hear);
    match (w, e) {
        (Wt::VoteNumbers, Ev::Numbers(v)) => {
            reveal(Mach::hear_vote_numbers);
        },
        (Wt::Distances(v), Ev::Numbers(x)) => {
            reveal(Mach::hear_distances);
            if let Fr::Vote { id, tolerant, tol, n, results, times, started } = m.top() {
                voted_goes_on(m, within(x, tol));
            }
        },
        (Wt::VoteRange(mask), Ev::Number(r)) => {
            reveal(Mach::hear_vote_range);
        },
        (Wt::VoteMoves(mask, range), Ev::Moved { raised, lowered }) => {
            reveal(Mach::hear_vote_moves);
        },
        _ => {},
    }
}

#[verifier::rlimit(40)]
proof fn hear_times_goes_on(m: Mach, w: Wt, e: Ev)
    requires
        ready(m),
        w is Averages || w is TimeRange || w is TimeMoves || w is TimeScale,
    ensures
        goes_on(m, m.hear(w, e)),
{
    reveal(Mach::hear);
    match (w, e) {
        (Wt::Averages, Ev::Numbers(v)) => {
            reveal(Mach::hear_averages);
        },
        (Wt::TimeRange(v), Ev::Number(r)) => {
            reveal(Mach::hear_time_range);
        },
        (Wt::TimeMoves(v, range), Ev::Moved { raised, lowered }) => {
            reveal(Mach::hear_time_moves);
        },
        (Wt::TimeScale, Ev::Shares { sum, shares }) => {
            reveal(Mach::hear_time_scale);
        },
        _ => {},
    }
}

#[verifier::rlimit(60)]
proof fn hear_goes_on(m: Mach, w: Wt, e: Ev)
    requires
        ready(m),
        obeys(m.wait(w)),
    ensures
        goes_on(m, m.hear(w, e)),
{
    reveal(Mach::hear);
    match (w, e) {
        (Wt::Computed(op, _, _), Ev::Number(r)) => take_goes_on(m, computed_out(op, r)),
        (Wt::Printing(line), Ev::Go) => {
            assert(m.printed.push(line).subrange(0, m.printed.len() as int) =~= m.printed);
        },
        (Wt::Clock, Ev::Time(t)) => {
            if m.frames.len() > 0 {
                clock_goes_on(m, t);
            }
        },
        (Wt::Weighted(id), Ev::Drawn { sum, running, roll }) => chosen_goes_on(
            m,
            id,
            crate::learning::weighted_choice(sum, running, roll).0,
        ),
        (Wt::Explore(id), Ev::Rolled { roll, pick }) => {
            chosen_goes_on(m, id, cut_to(pick, usize::MAX as nat) as int);
            chosen_goes_on(
                m,
                id,
                heaviest(m.node(id).weights, choice_count(m.node(id)), None).0,
            );
        },
        (Wt::Exploring(id), Ev::Odds { roll, chance }) => explore_goes_on(
            m,
            id,
            explores(roll, chance),
        ),
        (Wt::VoteTexts, Ev::Texts(t)) => {
            if m.frames.len() > 0 {
                if let Fr::Vote { id, tolerant, tol, n, results, times, started }
                    = m.frames.last() {
                    voted_goes_on(m, agreeing(shown_each(results, t)));
                }
            }
        },
        (Wt::VoteNumbers, _) | (Wt::Distances(_), _) | (Wt::VoteRange(_), _) | (
            Wt::VoteMoves(_, _),
            _,
        ) => hear_votes_goes_on(m, w, e),
        (Wt::VoteScale(mask), Ev::Shares { sum, shares }) => {
            vote_scale_goes_on(m, mask, sum, shares);
        },
        (Wt::Averages, _) | (Wt::TimeRange(_), _) | (Wt::TimeMoves(_, _), _) | (Wt::TimeScale, _) => {
            hear_times_goes_on(m, w, e)
        },
        _ => {},
    }
}

/// Every step keeps to what is denied: a machine that may not print or read is
/// never about to, nothing is printed, and lines that were printed stay. It also
/// keeps the program's text: nodes are only added or pruned, and only numbers
/// change.
pub proof fn steps_keep_the_rules(m: Mach, e: Ev)
    requires
        obeys(m),
    ensures
        goes_on(m, m.step(e)),
{
    match m.control {
        Ct::Enter(id) => enter_goes_on(m, id),
        Ct::Give(f) => {
            give_goes_on(m.go(Ct::Resume), f);
        },
        Ct::Resume => resume_goes_on(m),
        Ct::Settle(scaling, i) => settle_goes_on(m, scaling, i),
        Ct::Wait(w) => {
            assert(m.go(Ct::Resume).wait(w) == m.wait(w));
            hear_goes_on(m.go(Ct::Resume), w, e);
        },
        _ => {},
    }
}

/// A machine after its answers.
pub open spec fn after(m: Mach, events: Seq<Ev>) -> Mach
    decreases events.len(),
{
    if events.len() == 0 {
        m
    } else {
        after(m, events.drop_last()).step(events.last())
    }
}

/// A run whose policy denies output prints nothing, one whose policy denies input
/// never asks for a line, and every run keeps the program's text, whatever the
/// host answers.
pub proof fn runs_keep_the_rules(g: GraphView, options: RunOptions, events: Seq<Ev>)
    ensures
        ({
            let m = after(started(fresh(g, options)), events);
            &&& obeys(m)
            &&& m.options == options
            &&& options.deny_stdout ==> m.printed.len() == 0
            &&& options.deny_stdout ==> !(m.action() matches Ac::Ask(Qu::Print(_)))
            &&& options.deny_stdin ==> m.action() != Ac::Ask(Qu::ReadLine)
            &&& kept(g, m.graph)
        }),
    decreases events.len(),
{
    let start = started(fresh(g, options));
    if events.len() > 0 {
        let front = events.drop_last();
        runs_keep_the_rules(g, options, front);
        let b = after(start, front);
        steps_keep_the_rules(b, events.last());
        kept_passes_on(g, b.graph, b.step(events.last()).graph);
    }
}

/// Where no majority of a strategy's options agrees, nothing is learned from the
/// vote: all weights stay as they are, and the journal too.
pub proof fn no_majority_teaches_nothing(m: Mach, mask: Seq<bool>, other: u32)
    requires
        m.frames.len() > 0,
        m.frames.last() is Vote,
        count_true(mask) <= m.frames.last()->Vote_n / 2,
    ensures
        m.voted(mask).node(other).weights == m.node(other).weights,
        m.voted(mask).graph.journal == m.graph.journal,
{
    reveal(Mach::voted);
    reveal(Mach::concluded);
}

} // verus!
