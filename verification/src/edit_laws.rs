//! What feedback and teaching change in a program.

use crate::graph::{Contract, GraphView, MutationKind, NodeView, OpCode};
use crate::number::Real;
use crate::program_edits::{RewardNumbers, after_reward, can_teach, dump_chars, node_fault, teacher_place};
use crate::reports::option_count;
use crate::weighing::{held, rewarded_weights};
use vstd::prelude::*;

verus! {

/// Feedback is taken for an option that a deciding node has, and for nothing else.
pub proof fn feedback_is_for_options_of_decisions(g: GraphView, id: u32, option: int)
    ensures
        node_fault(g, id, option) is None <==> id < g.nodes.len() && (g.nodes[id as int].op
            == OpCode::Strategy || g.nodes[id as int].op == OpCode::AdaptiveChoice) && option
            < option_count(g.nodes[id as int]),
{
}

/// The last weight of a node that votes within a tolerance is no option, unless it is
/// the only one; every other weight is.
pub proof fn weights_are_options(n: NodeView)
    ensures
        n.contract != Contract::WithinTolerance || n.weights.len() <= 1 ==> option_count(n)
            == n.weights.len(),
        n.contract == Contract::WithinTolerance && n.weights.len() > 1 ==> option_count(n) + 1
            == n.weights.len(),
{
}

/// A reward moves the weights of one node's options, counts one try, and a right one
/// where it is positive, and leaves one line in the journal; nothing else changes.
pub proof fn rewards_change_one_node(
    g: GraphView,
    id: u32,
    option: int,
    n: RewardNumbers,
    other: int,
    i: int,
)
    requires
        id < g.nodes.len(),
        n.shares@.len() <= g.nodes[id as int].weights.len(),
        n.raised@.len() == n.shares@.len(),
        n.lowered@.len() == n.shares@.len(),
        0 <= option < n.shares@.len(),
        0 <= other < g.nodes.len(),
        0 <= i < g.nodes[id as int].weights.len(),
    ensures
        ({
            let r = after_reward(g, id, option, n);
            let w = r.nodes[id as int].weights;
            &&& r.nodes.len() == g.nodes.len()
            &&& other != id ==> r.nodes[other] == g.nodes[other]
            &&& w.len() == g.nodes[id as int].weights.len()
            &&& i >= n.shares@.len() ==> w[i] == g.nodes[id as int].weights[i]
            &&& i < n.shares@.len() && (Real { bits: 0 }).below(n.sum) ==> w[i] == n.shares@[i]
            &&& i == option && !(Real { bits: 0 }).below(n.sum) ==> w[i] == held(n.raised@[i])
            &&& i != option && i < n.shares@.len() && !(Real { bits: 0 }).below(n.sum) ==> w[i]
                == held(n.lowered@[i])
            &&& r.nodes[id as int].activation_count == g.nodes[id as int].activation_count
            &&& r.edges == g.edges && r.string_table == g.string_table && r.entry == g.entry
            &&& r.journal.drop_last() == g.journal
            &&& r.journal.last().node_id == id
            &&& r.journal.last().mutation == MutationKind::FeedbackReceived
        }),
{
    let r = after_reward(g, id, option, n);
    assert(r.journal.drop_last() =~= g.journal);
    let front = g.nodes[id as int].weights.take(n.shares@.len() as int);
    let moved = rewarded_weights(front, option, n.raised@, n.lowered@);
    assert(moved.len() == n.shares@.len());
    assert(n.shares@ + moved.skip(n.shares@.len() as int) =~= n.shares@);
}

/// An option's counts are three numbers in the state, from the node's own place on:
/// the first counts the tries, the third the right ones.
pub proof fn counts_have_their_places(
    g: GraphView,
    id: u32,
    option: int,
    n: RewardNumbers,
    p: int,
)
    requires
        id < g.nodes.len(),
        g.nodes[id as int].state_slot is Some,
        0 <= option,
        0 <= p < g.state.len(),
        g.nodes[id as int].state_slot->Some_0 + 3 * option + 2 < g.state.len(),
    ensures
        ({
            let s = after_reward(g, id, option, n).state;
            let at = g.nodes[id as int].state_slot->Some_0 + 3 * option;
            &&& s.len() == g.state.len()
            &&& p == at ==> s[p] == n.tries
            &&& p == at + 2 && (Real { bits: 0 }).below(n.reward) ==> s[p] == n.right
            &&& p == at + 2 && !(Real { bits: 0 }).below(n.reward) ==> s[p] == g.state[p]
            &&& p != at && p != at + 2 ==> s[p] == g.state[p]
        }),
{
}

proof fn teacher_is_first(s: Seq<NodeView>, to: NodeView, i: int)
    requires
        0 <= i <= s.len(),
    ensures
        ({
            let p = teacher_place(s, to, i);
            &&& i <= p <= s.len()
            &&& p < s.len() ==> can_teach(s[p], to)
            &&& forall|k: int| i <= k < p ==> !can_teach(#[trigger] s[k], to)
        }),
    decreases s.len() - i,
{
    if i < s.len() && !can_teach(s[i], to) {
        teacher_is_first(s, to, i + 1);
    }
}

/// The first node that does the same with as many inputs and weights and has fired
/// more often is the teacher; there is none only where no node does.
pub proof fn the_first_that_can_teaches(s: Seq<NodeView>, to: NodeView, k: int)
    requires
        0 <= k < s.len(),
        s[k].op == to.op,
        s[k].operands.len() == to.operands.len(),
        s[k].weights.len() == to.weights.len(),
        s[k].activation_count > to.activation_count,
    ensures
        ({
            let p = teacher_place(s, to, 0);
            &&& 0 <= p <= k
            &&& s[p].op == to.op && s[p].activation_count > to.activation_count
            &&& s[p].weights.len() == to.weights.len()
            &&& s[p].operands.len() == to.operands.len()
        }),
{
    teacher_is_first(s, to, 0);
    assert(can_teach(s[k], to));
}

proof fn dumps_are_long(b: Seq<u8>, n: int)
    requires
        0 <= n <= b.len(),
    ensures
        dump_chars(b, n).len() == n,
        forall|i: int|
            0 <= i < n ==> #[trigger] dump_chars(b, n)[i] == (if 32 <= b[i] <= 126 {
                b[i] as char
            } else {
                '.'
            }),
    decreases n,
{
    if n > 0 {
        dumps_are_long(b, n - 1);
    }
}

/// Printable bytes stand for themselves in a dump, all others as dots.
pub proof fn dumps_show_printable_bytes(b: Seq<u8>, i: int)
    requires
        0 <= i < b.len(),
    ensures
        dump_chars(b, b.len() as int).len() == b.len(),
        32 <= b[i] <= 126 ==> dump_chars(b, b.len() as int)[i] == b[i] as char,
        b[i] < 32 || b[i] > 126 ==> dump_chars(b, b.len() as int)[i] == '.',
{
    dumps_are_long(b, b.len() as int);
}

} // verus!
