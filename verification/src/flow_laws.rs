//! How a run evaluates operands, calls functions and goes through lists with them.

use crate::graph::{OpCode, Operand};
use crate::loop_laws::{about_to_run, course, handed, in_turn, is_over, nodes_are_entered, runs};
use crate::number::Real;
use crate::op_laws::{code_means, counts_as_true, means, takes, truth_is_what_counts};
use crate::ops::{FloatOp, Out, arity, op_out};
use crate::run_model::{Ac, Ct, Ev, Flo, Fr, Mach, Qu, Wt, param_count};
use crate::values::Val;
use vstd::prelude::*;

verus! {

/// What the parts gave, in order.
pub open spec fn given_by(done: Seq<Mach>) -> Seq<Val> {
    done.map_values(|x: Mach| handed(x).value())
}

/// The first `n` operands are nodes.
pub open spec fn nodes_first(ops: Seq<Operand>, n: int) -> bool {
    n <= ops.len() && forall|i: int| 0 <= i < n ==> (#[trigger] ops[i]) is NodeRef
}

/// The machine goes on with what an operation came to.
pub open spec fn goes_on_with(now: Mach, before: Mach, o: Out) -> bool {
    match o {
        Out::Value(v) => is_over(now, before, Flo::Val(v)),
        Out::Fail(told) => now.control == Ct::Failed(told),
        Out::Panic => now.control is Stopped,
        Out::Compute(op, a, b) => now.control == Ct::Wait(Wt::Computed(op, a, b)) && now.frames
            == before.frames,
        Out::Shown(a, v, b) => now.control == Ct::Wait(Wt::Shown(a, v, b)) && now.frames
            == before.frames,
        Out::ParseReal(s) => now.control == Ct::Wait(Wt::ParseReal(s)) && now.frames
            == before.frames,
    }
}

/// An operation that begins with its first operand.
pub open spec fn begins_with_operands(op: OpCode) -> bool {
    ||| arity(op) is Some
    ||| op == OpCode::Array
    ||| op == OpCode::Call
    ||| op == OpCode::Return
    ||| op == OpCode::Branch
    ||| op == OpCode::Pipe
    ||| op == OpCode::Filter
    ||| op == OpCode::MapEach
    ||| op == OpCode::Reduce
    ||| op == OpCode::Split
}

/// How many operands such an operation evaluates, of those that it has.
pub open spec fn evaluates(op: OpCode, len: int) -> int {
    match op {
        OpCode::Array | OpCode::Call => len,
        OpCode::Return | OpCode::Branch => 1,
        OpCode::Pipe | OpCode::Filter | OpCode::MapEach => 2,
        OpCode::Reduce => if len >= 3 {
            3
        } else {
            2
        },
        OpCode::Split => if len >= 2 {
            2
        } else {
            1
        },
        _ => arity(op)->Some_0 as int,
    }
}

/// A node that evaluates operands which are all nodes.
pub open spec fn evaluates_nodes(m: Mach, id: u32) -> bool {
    let ops = m.operands(id);
    let op = m.node(id).op;
    about_to_run(m, id) && begins_with_operands(op) && nodes_first(
        ops,
        evaluates(op, ops.len() as int),
    ) && (op == OpCode::Call ==> ops.len() > 0)
}

proof fn operands_go(m: Mach, id: u32, done: Seq<Mach>)
    requires
        evaluates_nodes(m, id),
        in_turn(m, id, done),
        done.len() < evaluates(m.node(id).op, m.operands(id).len() as int),
    ensures
        course(m, done).frames == m.frames.push(
            Fr::Args { id, op: m.node(id).op, done: given_by(done) },
        ),
        runs(course(m, done), m.operands(id)[done.len() as int]),
    decreases done.len(),
{
    let op = m.node(id).op;
    nodes_are_entered(m, id);
    if done.len() == 0 {
        assert(given_by(done) =~= Seq::<Val>::empty());
        reveal(Mach::dispatch);
        reveal(Mach::next_arg);
    } else {
        let k = done.len() - 1;
        let front = done.take(k);
        turns_before(m, id, done, k);
        operands_go(m, id, front);
        operand_hands_on(m, id, op, given_by(front), done[k]);
        assert(given_by(front).push(handed(done[k]).value()) =~= given_by(done));
    }
}

proof fn turns_before(m: Mach, id: u32, done: Seq<Mach>, n: int)
    requires
        in_turn(m, id, done),
        0 <= n <= done.len(),
    ensures
        in_turn(m, id, done.take(n)),
{
    let t = done.take(n);
    assert forall|i: int| 0 <= i < t.len() implies (#[trigger] t[i]).control is Give
        && t[i].frames == course(m, t.take(i)).frames && t[i].operands(id) == m.operands(id) by {
        assert(t[i] == done[i]);
        assert(t.take(i) =~= done.take(i));
    }
}

proof fn operand_hands_on(m: Mach, id: u32, op: OpCode, front: Seq<Val>, x: Mach)
    requires
        begins_with_operands(op),
        x.control is Give,
        x.frames == m.frames.push(Fr::Args { id, op, done: front }),
        x.operands(id) == m.operands(id),
        nodes_first(m.operands(id), evaluates(op, m.operands(id).len() as int)),
        front.len() < evaluates(op, m.operands(id).len() as int),
        op == OpCode::Call ==> m.operands(id).len() > 0,
    ensures
        ({
            let all = front.push(handed(x).value());
            let y = x.step(Ev::Go);
            let ops = m.operands(id);
            let back = Mach { frames: m.frames, control: Ct::Resume, ..x };
            &&& all.len() < evaluates(op, ops.len() as int) ==> y.frames == m.frames.push(
                Fr::Args { id, op, done: all },
            ) && runs(y, ops[all.len() as int])
            &&& all.len() == evaluates(op, ops.len() as int) ==> y == back.act(id, op, all)
        }),
{
    reveal(Mach::give);
    reveal(Mach::have_arg);
    reveal(Mach::next_arg);
    assert(x.frames.drop_last() =~= m.frames);
    let back = Mach { frames: m.frames, control: Ct::Resume, ..x };
    assert(Mach { frames: x.go(Ct::Resume).frames.drop_last(), ..x.go(Ct::Resume) } == back);
}

/// The machine with which an operation acts on its operands' values.
pub open spec fn acting(m: Mach, done: Seq<Mach>) -> Mach {
    Mach { frames: m.frames, control: Ct::Resume, ..done.last() }
}

/// Operands are evaluated once each, from the first to the last.
pub proof fn operands_are_evaluated_in_order(m: Mach, id: u32, done: Seq<Mach>)
    requires
        evaluates_nodes(m, id),
        in_turn(m, id, done),
    ensures
        ({
            let op = m.node(id).op;
            let n = evaluates(op, m.operands(id).len() as int);
            &&& done.len() < n ==> runs(course(m, done), m.operands(id)[done.len() as int])
            &&& 0 < done.len() == n ==> course(m, done) == acting(m, done).act(
                id,
                op,
                given_by(done),
            )
        }),
{
    let op = m.node(id).op;
    let n = evaluates(op, m.operands(id).len() as int);
    if done.len() < n {
        operands_go(m, id, done);
    } else if 0 < done.len() && done.len() == n {
        let k = done.len() - 1;
        turns_before(m, id, done, k);
        operands_go(m, id, done.take(k));
        operand_hands_on(m, id, op, given_by(done.take(k)), done[k]);
        assert(given_by(done.take(k)).push(handed(done[k]).value()) =~= given_by(done));
    }
}

/// A node of an operation on values hands over what the operation makes of its
/// operands' values.
pub proof fn operations_work_on_their_operands(m: Mach, id: u32, done: Seq<Mach>)
    requires
        evaluates_nodes(m, id),
        arity(m.node(id).op) is Some,
        in_turn(m, id, done),
        done.len() == arity(m.node(id).op)->Some_0,
        done.len() > 0,
    ensures
        goes_on_with(course(m, done), m, op_out(m.node(id).op, given_by(done))),
{
    operands_are_evaluated_in_order(m, id, done);
    reveal(Mach::act);
}

/// A node that means an operator hands over that operator's value of its operands,
/// or asks the host for it.
pub proof fn operators_are_run(m: Mach, id: u32, kind: crate::ast::OpKind, done: Seq<Mach>)
    requires
        evaluates_nodes(m, id),
        code_means(m.node(id).op, kind),
        in_turn(m, id, done),
        done.len() == takes(kind),
    ensures
        exists|o: Out|
            #[trigger] goes_on_with(course(m, done), m, o) && means(
                kind,
                given_by(done)[0],
                if takes(kind) == 2 {
                    given_by(done)[1]
                } else {
                    Val::Null
                },
                o,
            ),
{
    operations_work_on_their_operands(m, id, done);
    let o = op_out(m.node(id).op, given_by(done));
    assert(means(
        kind,
        given_by(done)[0],
        if takes(kind) == 2 {
            given_by(done)[1]
        } else {
            Val::Null
        },
        o,
    ));
}

/// What the host computes is the value of the operation that asked for it.
pub proof fn computed_values_are_handed_over(m: Mach, op: FloatOp, a: Real, b: Real, r: Real)
    requires
        m.control == Ct::Wait(Wt::Computed(op, a, b)),
        r.spec_is_finite(),
        op != FloatOp::Round,
    ensures
        m.action() == Ac::Ask(Qu::Compute(op, a, b)),
        is_over(m.step(Ev::Number(r)), m, Flo::Val(Val::Float(r))),
{
    reveal(Mach::hear);
}

/// A list node hands over the values of its operands, in order.
pub proof fn lists_hold_their_operands(m: Mach, id: u32, done: Seq<Mach>)
    requires
        evaluates_nodes(m, id),
        m.node(id).op == OpCode::Array,
        in_turn(m, id, done),
        done.len() == m.operands(id).len(),
    ensures
        is_over(course(m, done), m, Flo::Val(Val::Array(given_by(done)))),
{
    if done.len() == 0 {
        nodes_are_entered(m, id);
        reveal(Mach::dispatch);
        reveal(Mach::next_arg);
        assert(given_by(done) =~= Seq::<Val>::empty());
    } else {
        operands_are_evaluated_in_order(m, id, done);
    }
    reveal(Mach::act);
}

/// A return hands over its value as one that returns.
pub proof fn returns_return(m: Mach, id: u32, x: Mach)
    requires
        evaluates_nodes(m, id),
        m.node(id).op == OpCode::Return,
        in_turn(m, id, seq![x]),
    ensures
        is_over(course(m, seq![x]), m, Flo::Ret(handed(x).value())),
{
    operands_are_evaluated_in_order(m, id, seq![x]);
    reveal(Mach::act);
}

/// A branch runs its condition and then one of its paths: the first where the
/// condition is true, else the second; what the path hands over is handed on.
pub proof fn branches_take_one_path(m: Mach, id: u32, x: Mach, y: Mach)
    requires
        evaluates_nodes(m, id),
        m.node(id).op == OpCode::Branch,
        m.operands(id).len() == 3,
        in_turn(m, id, seq![x, y]),
    ensures
        runs(
            course(m, seq![x]),
            m.operands(id)[if counts_as_true(handed(x).value()) {
                1
            } else {
                2
            }],
        ),
        is_over(course(m, seq![x, y]), m, handed(y)),
{
    let both = seq![x, y];
    turns_before(m, id, both, 1);
    assert(both.take(1) =~= seq![x]);
    operands_are_evaluated_in_order(m, id, seq![x]);
    truth_is_what_counts(handed(x).value());
    reveal(Mach::act);
    reveal(Mach::branch);
    assert(both[1] == y);
    assert(y.frames == course(m, seq![x]).frames);
    reveal(Mach::give);
    assert(y.frames.drop_last() =~= m.frames);
}

/// A guard runs its assumption and then the fast path where it holds, else the
/// fallback; what the path hands over is handed on.
pub proof fn guards_take_one_path(m: Mach, id: u32, x: Mach, y: Mach)
    requires
        about_to_run(m, id),
        m.node(id).op == OpCode::Guard,
        m.operands(id).len() == 3,
        m.operands(id)[0] is NodeRef,
        in_turn(m, id, seq![x, y]),
    ensures
        runs(course(m, Seq::empty()), m.operands(id)[0]),
        runs(
            course(m, seq![x]),
            m.operands(id)[if counts_as_true(handed(x).value()) {
                1
            } else {
                2
            }],
        ),
        is_over(course(m, seq![x, y]), m, handed(y)),
{
    let both = seq![x, y];
    assert(both.take(1) =~= seq![x]);
    assert(both.take(0) =~= Seq::<Mach>::empty());
    assert(both[0] == x && both[1] == y);
    nodes_are_entered(m, id);
    reveal(Mach::dispatch);
    reveal(Mach::next_arg);
    assert(x.frames == course(m, Seq::empty()).frames);
    assert(x.frames.drop_last() =~= m.frames);
    truth_is_what_counts(handed(x).value());
    reveal(Mach::give);
    reveal(Mach::have_arg);
    reveal(Mach::act);
    let v = handed(x).value();
    assert(Seq::<Val>::empty().push(v) =~= seq![v]);
    assert(y.frames == course(m, seq![x]).frames);
    assert(y.frames.drop_last() =~= m.frames);
}

/// An assignment runs the node of its value and binds the variable to it, and no
/// other variable changes; reading the variable gives the value.
pub proof fn assignments_bind(m: Mach, id: u32, slot: u32, x: Mach, other: u32)
    requires
        about_to_run(m, id),
        m.node(id).op == OpCode::StoreVar,
        m.operands(id).len() == 2,
        m.operands(id)[0] == Operand::VarSlot(slot),
        m.operands(id)[1] is NodeRef,
        in_turn(m, id, seq![x]),
    ensures
        runs(course(m, Seq::empty()), m.operands(id)[1]),
        is_over(course(m, seq![x]), m, Flo::Val(Val::Null)),
        course(m, seq![x]).var(slot) == handed(x).value(),
        other != slot ==> course(m, seq![x]).var(other) == x.var(other),
{
    assert(seq![x].take(0) =~= Seq::<Mach>::empty());
    assert(seq![x][0] == x);
    nodes_are_entered(m, id);
    reveal(Mach::dispatch);
    reveal(Mach::next_arg);
    assert(x.frames == course(m, Seq::empty()).frames);
    assert(x.frames.drop_last() =~= m.frames);
    reveal(Mach::give);
    reveal(Mach::have_arg);
    reveal(Mach::act);
    let v = handed(x).value();
    assert(Seq::<Val>::empty().push(v) =~= seq![v]);
}

/// A variable's node hands over what the variable holds, and a constant's node its
/// constant.
pub proof fn leaves_hand_over_what_they_hold(m: Mach, id: u32)
    requires
        about_to_run(m, id),
        m.operands(id).len() == 1,
    ensures
        m.node(id).op == OpCode::LoadVar && m.operands(id)[0] is VarSlot ==> is_over(
            m.step(Ev::Go),
            m,
            Flo::Val(m.var(m.operands(id)[0]->VarSlot_0)),
        ),
        m.node(id).op == OpCode::ConstInt && m.operands(id)[0] is Immediate
            && m.operands(id)[0]->Immediate_0 is Int ==> is_over(
            m.step(Ev::Go),
            m,
            Flo::Val(Val::Int(m.operands(id)[0]->Immediate_0->Int_0)),
        ),
        m.node(id).op == OpCode::ConstFloat && m.operands(id)[0] is Immediate
            && m.operands(id)[0]->Immediate_0 is Float ==> is_over(
            m.step(Ev::Go),
            m,
            Flo::Val(Val::Float(m.operands(id)[0]->Immediate_0->Float_0)),
        ),
        m.node(id).op == OpCode::ConstBool && m.operands(id)[0] is Immediate
            && m.operands(id)[0]->Immediate_0 is Bool ==> is_over(
            m.step(Ev::Go),
            m,
            Flo::Val(Val::Bool(m.operands(id)[0]->Immediate_0->Bool_0)),
        ),
        m.node(id).op == OpCode::ConstStr && m.operands(id)[0] is StringRef ==> is_over(
            m.step(Ev::Go),
            m,
            Flo::Val(Val::Str(m.graph.string_at(m.operands(id)[0]->StringRef_0))),
        ),
        m.node(id).op == OpCode::ConstNull ==> is_over(m.step(Ev::Go), m, Flo::Val(Val::Null)),
{
    nodes_are_entered(m, id);
    reveal(Mach::dispatch);
}

/// The node of a function hands over the function: its leading slots are the
/// parameters and the rest is the body, both in order.
pub proof fn functions_are_made(m: Mach, id: u32, n: int)
    requires
        about_to_run(m, id),
        m.node(id).op == OpCode::Define || m.node(id).op == OpCode::Lambda,
        0 <= n <= m.operands(id).len(),
        forall|i: int| 0 <= i < n ==> (#[trigger] m.operands(id)[i]) is VarSlot,
        forall|i: int| n <= i < m.operands(id).len() ==> (#[trigger] m.operands(id)[i]) is NodeRef,
    ensures
        ({
            let f = handed(m.step(Ev::Go)).value();
            let ops = m.operands(id);
            &&& is_over(m.step(Ev::Go), m, Flo::Val(f))
            &&& f is GraphFn
            &&& f->param_slots.len() == n
            &&& f->body_nodes.len() == ops.len() - n
            &&& forall|i: int|
                0 <= i < n ==> ops[i] == Operand::VarSlot(#[trigger] f->param_slots[i])
            &&& forall|i: int|
                0 <= i < ops.len() - n ==> ops[n + i] == Operand::NodeRef(
                    #[trigger] f->body_nodes[i],
                )
        }),
{
    nodes_are_entered(m, id);
    reveal(Mach::dispatch);
    slots_are_counted(m.operands(id), n);
}

proof fn slots_are_counted(ops: Seq<Operand>, n: int)
    requires
        0 <= n <= ops.len(),
        forall|i: int| 0 <= i < n ==> (#[trigger] ops[i]) is VarSlot,
        forall|i: int| n <= i < ops.len() ==> (#[trigger] ops[i]) is NodeRef,
    ensures
        param_count(ops) == n,
    decreases ops.len(),
{
    if ops.len() > 0 && n > 0 {
        let rest = ops.drop_first();
        assert forall|i: int| 0 <= i < n - 1 implies (#[trigger] rest[i]) is VarSlot by {
            assert(ops[i + 1] is VarSlot);
        }
        assert forall|i: int| n - 1 <= i < rest.len() implies (#[trigger] rest[i]) is NodeRef by {
            assert(ops[i + 1] is NodeRef);
        }
        slots_are_counted(rest, n - 1);
        assert(ops[0] is VarSlot);
    } else if ops.len() > 0 {
        assert(ops[0] is NodeRef);
    }
}

} // verus!
