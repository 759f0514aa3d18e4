//! How a run deals with its host: what it prints, asks and is told, and how it
//! changes its own program.

use crate::cap_value::{Cap, caps_of, val_of_cap};
use crate::graph::{MutationKind, OpCode, Operand, op_code};
use crate::loop_laws::is_over;
use crate::number::{Real, real_of_int};
use crate::run_model::{Ac, Ct, Ev, Flo, Fr, Mach, Qu, Wt, bind, joined, lookup, restore, reward_of, roll_of, shown_each};
use crate::values::{Val, reals_in_all};
use crate::weighing::{greatest_average, least_average};
use vstd::prelude::*;

verus! {

/// Texts are printed in their order with one blank between each and the next.
pub proof fn printed_texts_have_blanks_between(s: Seq<Seq<char>>, t: Seq<char>)
    ensures
        s.len() == 0 ==> joined(s.push(t)) == t,
        s.len() > 0 ==> joined(s.push(t)) == joined(s) + seq![' '] + t,
        joined(Seq::empty()).len() == 0,
{
    reveal_strlit(" ");
    assert(s.push(t).drop_last() =~= s);
    assert(" "@ =~= seq![' ']);
}

/// What is to be printed is first shown: the host is asked for the texts of the
/// numbers in it, then told the line, and the run goes on with nothing.
pub proof fn values_are_shown_and_printed(
    m: Mach,
    id: u32,
    args: Seq<Val>,
    x: Mach,
    t: Seq<Seq<char>>,
)
    requires
        x.control == Ct::Wait(Wt::PrintTexts(args)),
        t.len() == reals_in_all(args).len(),
    ensures
        m.act(id, OpCode::Print, args).control == Ct::Wait(Wt::PrintTexts(args)),
        x.action() == Ac::Ask(Qu::Texts(reals_in_all(args))),
        ({
            let now = x.step(Ev::Texts(t));
            let line = joined(shown_each(args, t));
            &&& now.action() == Ac::Ask(Qu::Print(line))
            &&& is_over(now.step(Ev::Go), x, Flo::Val(Val::Null))
            &&& now.step(Ev::Go).printed == x.printed.push(line)
        }),
{
    reveal(Mach::act);
    reveal(Mach::hear);
}

/// A line that was read is handed over without the white space at its end.
pub proof fn lines_are_read(m: Mach, s: Seq<char>, e: Seq<char>)
    requires
        m.control == Ct::Wait(Wt::Line),
    ensures
        m.action() == Ac::Ask(Qu::ReadLine),
        is_over(m.step(Ev::Line(Ok(s))), m, Flo::Val(Val::Str(crate::parse::trim_back(s)))),
        m.step(Ev::Line(Err(e))).control is Failed,
{
    reveal(Mach::hear);
}

/// A capability is asked for by its name with its arguments; its answer is handed
/// over, its failure ends the run with its message. Functions cannot be passed.
pub proof fn capabilities_are_asked_for(
    m: Mach,
    id: u32,
    name: Seq<char>,
    args: Seq<Val>,
    c: Cap,
    e: Seq<char>,
)
    ensures
        ({
            let now = m.act(id, OpCode::Capability, seq![Val::Str(name)] + args);
            &&& caps_of(args) is None ==> now.control is Failed
            &&& caps_of(args) is Some ==> {
                &&& now.action() == Ac::Ask(Qu::Capability(name, caps_of(args)->Some_0))
                &&& is_over(now.step(Ev::Capability(Ok(c))), m, Flo::Val(val_of_cap(c)))
                &&& now.step(Ev::Capability(Err(e))).control == Ct::Failed(e)
            }
        }),
{
    reveal(Mach::act);
    reveal(Mach::hear);
    assert((seq![Val::Str(name)] + args).skip(1) =~= args);
}

/// A new node comes behind all others, does what its code says, and its number is
/// handed over; the nodes before it are as they were.
pub proof fn spawned_nodes_come_last(m: Mach, id: u32, b: u8, k: int)
    requires
        0 <= k < m.graph.nodes.len(),
        m.graph.nodes.len() < u32::MAX,
    ensures
        ({
            let now = m.act(id, OpCode::Spawn, seq![Val::Int(b as i64)]);
            let n = m.graph.nodes.len();
            &&& is_over(now, m, Flo::Val(Val::Int(n as i64)))
            &&& now.graph.nodes.len() == n + 1
            &&& now.graph.nodes[k] == m.graph.nodes[k]
            &&& now.graph.nodes[n as int].id == n
            &&& now.graph.nodes[n as int].operands.len() == 0
            &&& now.graph.nodes[n as int].op != OpCode::Noop ==> op_code(
                now.graph.nodes[n as int].op,
            ) == b
            &&& 0x10 <= b <= 0x13 || b == 0x70 || 0x75 <= b <= 0x7A ==> now.graph.nodes[n as int].op
                != OpCode::Noop
        }),
{
    reveal(Mach::act);
    assert(b as i64 as u8 == b);
}

/// A pruned node does nothing any more; the others are as they were.
pub proof fn pruned_nodes_do_nothing(m: Mach, id: u32, n: i64, k: int)
    requires
        0 <= n < m.graph.nodes.len(),
        m.graph.nodes.len() <= u32::MAX,
        0 <= k < m.graph.nodes.len(),
    ensures
        ({
            let now = m.act(id, OpCode::Prune, seq![Val::Int(n)]);
            &&& is_over(now, m, Flo::Val(Val::Null))
            &&& now.graph.nodes.len() == m.graph.nodes.len()
            &&& now.graph.nodes[n as int].op == OpCode::Noop
            &&& k != n ==> now.graph.nodes[k] == m.graph.nodes[k]
            &&& now.graph.nodes[k].weights == m.graph.nodes[k].weights
        }),
{
    reveal(Mach::act);
}

/// Truth counts as a reward of one and untruth of minus one; numbers count as they
/// are, and nothing else counts.
pub proof fn rewards_are_numbers(v: Val)
    ensures
        v is Bool && v->Bool_0 ==> reward_of(v).bits == 0x3FF0_0000_0000_0000,
        v is Bool && !v->Bool_0 ==> reward_of(v).bits == 0xBFF0_0000_0000_0000,
        v is Float ==> reward_of(v) == v->Float_0,
        v is Int ==> reward_of(v) == real_of_int(v->Int_0 as int),
        !(v is Bool) && !(v is Float) && !(v is Int) ==> reward_of(v).bits == 0,
{
}

/// Feedback asks for the moves of a deciding node's weights; any other node learns
/// nothing.
pub proof fn feedback_goes_to_decisions(m: Mach, target: u32, reward: Real)
    ensures
        ({
            let now = m.feedback(target, reward);
            let decides = target < m.graph.nodes.len() && (m.graph.nodes[target as int].op
                == OpCode::Strategy || m.graph.nodes[target as int].op == OpCode::AdaptiveChoice)
                && m.graph.nodes[target as int].weights.len() > 0;
            &&& decides ==> now.action() == Ac::Ask(
                Qu::Reward(m.graph.nodes[target as int].weights, reward),
            )
            &&& !decides ==> is_over(now, m, Flo::Val(Val::Null)) && now.graph == m.graph
        }),
{
    reveal(Mach::feedback);
}

/// A function that is adapted keeps its parameters and has the new body.
pub proof fn adapted_functions_keep_their_parameters(
    m: Mach,
    slot: u32,
    params: Seq<u32>,
    body: Seq<u32>,
    nodes: Seq<Operand>,
    i: int,
    other: u32,
)
    requires
        m.vars.contains_key(slot),
        m.vars[slot] == (Val::GraphFn { param_slots: params, body_nodes: body }),
        0 <= i < nodes.len(),
        nodes[i] is NodeRef,
        other != slot,
    ensures
        ({
            let now = m.adapt(seq![Operand::VarSlot(slot)] + nodes);
            &&& now.vars[slot] is GraphFn
            &&& now.vars[slot]->param_slots == params
            &&& now.vars[slot]->body_nodes.len() == nodes.len()
            &&& now.vars[slot]->body_nodes[i] == nodes[i]->NodeRef_0
            &&& m.vars.contains_key(other) ==> now.vars[other] == m.vars[other]
        }),
{
    let ops = seq![Operand::VarSlot(slot)] + nodes;
    assert(ops.skip(1) =~= nodes);
    assert(ops[0] == Operand::VarSlot(slot));
}

proof fn saved_is_long(vars: Map<u32, Val>, slots: Seq<u32>, args: Seq<Val>)
    ensures
        bind(vars, slots, args).1.len() == slots.len(),
        forall|i: int|
            0 <= i < slots.len() ==> (#[trigger] bind(vars, slots, args).1[i]).0 == slots[i],
    decreases slots.len(),
{
    if slots.len() > 0 {
        saved_is_long(vars, slots.drop_last(), args);
    }
}

proof fn unbound_is_left(vars: Map<u32, Val>, slots: Seq<u32>, args: Seq<Val>, slot: u32)
    requires
        !slots.contains(slot),
    ensures
        lookup(bind(vars, slots, args).0, slot) == lookup(vars, slot),
    decreases slots.len(),
{
    if slots.len() > 0 {
        let front = slots.drop_last();
        if front.contains(slot) {
            let i = choose|i: int| 0 <= i < front.len() && front[i] == slot;
            assert(slots[i] == slot);
        }
        assert(slots[slots.len() - 1] == slots.last());
        unbound_is_left(vars, front, args, slot);
    }
}

proof fn unsaved_is_left(vars: Map<u32, Val>, saved: Seq<(u32, Option<Val>)>, slot: u32)
    requires
        forall|i: int| 0 <= i < saved.len() ==> (#[trigger] saved[i]).0 != slot,
    ensures
        lookup(restore(vars, saved), slot) == lookup(vars, slot),
    decreases saved.len(),
{
    if saved.len() > 0 {
        let front = saved.drop_last();
        assert forall|i: int| 0 <= i < front.len() implies (#[trigger] front[i]).0 != slot by {
            assert(front[i] == saved[i]);
        }
        assert(saved[saved.len() - 1] == saved.last());
        unsaved_is_left(vars, front, slot);
    }
}

/// After a call every variable holds what it held before, or nothing where it held
/// nothing: whatever the body left in the parameters is gone. A parameter that is
/// named twice is left out.
pub proof fn parameters_are_put_back(
    vars: Map<u32, Val>,
    slots: Seq<u32>,
    args: Seq<Val>,
    after: Map<u32, Val>,
    slot: u32,
)
    requires
        forall|i: int, j: int| 0 <= i < j < slots.len() ==> #[trigger] slots[i] != #[trigger] slots[j],
        slots.contains(slot) || lookup(after, slot) == lookup(vars, slot),
    ensures
        lookup(restore(after, bind(vars, slots, args).1), slot) == lookup(vars, slot),
    decreases slots.len(),
{
    saved_is_long(vars, slots, args);
    let saved = bind(vars, slots, args).1;
    if slots.len() > 0 {
        let front = slots.drop_last();
        assert forall|i: int, j: int| 0 <= i < j < front.len() implies #[trigger] front[i]
            != #[trigger] front[j] by {
            assert(front[i] == slots[i] && front[j] == slots[j]);
        }
        let last = slots[slots.len() - 1];
        assert(saved.drop_last() =~= bind(vars, front, args).1);
        if slot == last {
            assert(!front.contains(slot)) by {
                if front.contains(slot) {
                    let i = choose|i: int| 0 <= i < front.len() && front[i] == slot;
                    assert(slots[i] == slot);
                }
            }
            unbound_is_left(vars, front, args, slot);
        } else {
            if slots.contains(slot) {
                let i = choose|i: int| 0 <= i < slots.len() && slots[i] == slot;
                assert(front[i] == slot);
            }
            parameters_are_put_back(vars, front, args, after, slot);
        }
    }
}

/// The roll that goes with the number of activations starts at thirteen, goes on by
/// seven and stays below a hundred.
pub proof fn rolls_go_on_by_seven(n: u64)
    requires
        n < 0x1000_0000_0000_0000,
    ensures
        roll_of(0) == 13,
        roll_of(n) < 100,
        roll_of((n + 1) as u64) == (roll_of(n) + 7) % 100,
{
    let a: int = n * 7 + 13;
    vstd::arithmetic::div_mod::lemma_small_mod(13nat, 0x1_0000_0000_0000_0000nat);
    vstd::arithmetic::div_mod::lemma_small_mod(a as nat, 0x1_0000_0000_0000_0000nat);
    vstd::arithmetic::div_mod::lemma_small_mod((a + 7) as nat, 0x1_0000_0000_0000_0000nat);
    vstd::arithmetic::div_mod::lemma_add_mod_noop(a, 7, 100);
    assert((n + 1) as u64 * 7 + 13 == a + 7);
    assert(roll_of(n) == (a % 100) as u64);
    assert(roll_of((n + 1) as u64) == ((a + 7) % 100) as u64);
}

/// Times that do not differ teach nothing; others move the weights of the options
/// that have a time, which are then scaled.
pub proof fn times_teach_where_they_differ(
    m: Mach,
    v: Seq<Real>,
    range: Real,
    id: u32,
    f: Flo,
)
    requires
        m.control == Ct::Wait(Wt::TimeRange(v)),
        m.frames.len() > 0,
        m.frames.last() matches Fr::Timed { id: i, flow: Some(g), .. } && i == id && g == f,
    ensures
        m.action() == Ac::Ask(
            Qu::Compute(crate::ops::FloatOp::Sub, greatest_average(v), least_average(v)),
        ),
        ({
            let now = m.step(Ev::Number(range));
            &&& !(Real { bits: 0 }).below(range) ==> now.control == Ct::Give(f) && now.frames
                == m.frames.drop_last() && now.graph == m.graph
            &&& (Real { bits: 0 }).below(range) ==> now.control == Ct::Wait(
                Wt::TimeMoves(v, range),
            ) && now.graph == m.graph
        }),
{
    reveal(Mach::hear);
    reveal(Mach::hear_time_range);
}

/// The least of some averages is not above any of them, and the greatest not below.
pub proof fn averages_lie_between(s: Seq<Real>, i: int)
    requires
        forall|k: int| 0 <= k < s.len() ==> !(#[trigger] s[k]).spec_is_nan(),
        0 <= i < s.len(),
    ensures
        !s[i].below(least_average(s)),
        !greatest_average(s).below(s[i]),
        !least_average(s).spec_is_nan(),
        !greatest_average(s).spec_is_nan(),
    decreases s.len(),
{
    let front = s.drop_last();
    assert forall|k: int| 0 <= k < front.len() implies !(#[trigger] front[k]).spec_is_nan() by {
        assert(front[k] == s[k]);
    }
    assert(!s[s.len() - 1].spec_is_nan());
    if front.len() > 0 {
        averages_lie_between(front, 0);
    }
    if i < front.len() {
        averages_lie_between(front, i);
        assert(front[i] == s[i]);
    }
    assert(!s[i].spec_is_nan());
}

/// What the outermost node hands over is the result of the run, also where it
/// returns; what was learned is then settled, and the host is told the result.
pub proof fn the_last_value_is_the_result(m: Mach, f: Flo, e: Ev)
    requires
        m.frames.len() == 0,
    ensures
        m.control == Ct::Give(f) ==> m.step(e).result == f.value() && m.step(e).control
            == Ct::Settle(false, 0),
        m.control is Finished ==> m.action() == Ac::Finished(Ok(m.result)),
{
    reveal(Mach::give);
}

/// Weights that feedback moved are scaled and leave one line in the journal, under
/// the number of the run.
pub proof fn rewards_are_noted(m: Mach, id: u32, sum: Real, shares: Seq<Real>)
    requires
        m.control == Ct::Wait(Wt::RewardScale(id)),
        id < m.graph.nodes.len(),
        shares.len() == m.graph.nodes[id as int].weights.len(),
    ensures
        ({
            let now = m.step(Ev::Shares { sum, shares });
            &&& is_over(now, m, Flo::Val(Val::Null))
            &&& (Real { bits: 0 }).below(sum) ==> now.graph.nodes[id as int].weights == shares
            &&& !(Real { bits: 0 }).below(sum) ==> now.graph.nodes[id as int].weights
                == m.graph.nodes[id as int].weights
            &&& now.graph.journal.drop_last() == m.graph.journal
            &&& now.graph.journal.last().node_id == id
            &&& now.graph.journal.last().mutation == MutationKind::WeightUpdate
            &&& now.graph.journal.last().run_number == m.run_number
        }),
{
    reveal(Mach::hear);
    let now = m.step(Ev::Shares { sum, shares });
    assert(now.graph.journal.drop_last() =~= m.graph.journal);
    let all = m.graph.nodes[id as int].weights;
    assert(shares + all.skip(shares.len() as int) =~= shares);
}

} // verus!
