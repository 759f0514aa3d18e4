//! How a run goes through the parts of a node: which of them are run, how often,
//! in which order, and what comes out.
//!
//! A course is told by its handovers. A node is entered; each time one of its parts
//! is done, some machine is about to hand over the part's result. That machine may
//! have changed anything but the frames below the part and the node's operands.

use crate::graph::{NodeView, OpCode, Operand};
use crate::op_laws::{counts_as_true, truth_is_what_counts};
use crate::run_model::{Ct, Ev, Flo, Fr, MAX_DEPTH, Mach, ref_of};
use crate::values::Val;
use vstd::arithmetic::div_mod::{lemma_fundamental_div_mod, lemma_fundamental_div_mod_converse, lemma_mod_bound};
use vstd::prelude::*;

verus! {

/// The machine is about to run a node that it can run.
pub open spec fn about_to_run(m: Mach, id: u32) -> bool {
    &&& m.control == Ct::Enter(id)
    &&& m.depth < MAX_DEPTH
    &&& id < m.graph.nodes.len()
    &&& m.node(id).activation_count < u64::MAX
}

/// The machine after the handovers: the last one is taken.
pub open spec fn course(m: Mach, done: Seq<Mach>) -> Mach {
    if done.len() == 0 {
        m.step(Ev::Go)
    } else {
        done.last().step(Ev::Go)
    }
}

/// What a machine hands over.
pub open spec fn handed(m: Mach) -> Flo {
    m.control->Give_0
}

/// Each machine hands over the result of the part that was run last.
pub open spec fn in_turn(m: Mach, id: u32, done: Seq<Mach>) -> bool {
    forall|i: int|
        0 <= i < done.len() ==> (#[trigger] done[i]).control is Give && done[i].frames == course(
            m,
            done.take(i),
        ).frames && done[i].operands(id) == m.operands(id)
}

/// No part returns from the enclosing function.
pub open spec fn none_returns(done: Seq<Mach>) -> bool {
    forall|i: int| 0 <= i < done.len() ==> handed(#[trigger] done[i]) is Val
}

/// The machine runs the node of this operand next.
pub open spec fn runs(m: Mach, op: Operand) -> bool {
    m.control == Ct::Enter(ref_of(op))
}

/// The node is over: it hands over this, with the frames as they were before it.
pub open spec fn is_over(m: Mach, before: Mach, f: Flo) -> bool {
    m.control == Ct::Give(f) && m.frames == before.frames
}

proof fn earlier_turns(m: Mach, id: u32, done: Seq<Mach>, n: int)
    requires
        in_turn(m, id, done),
        0 <= n <= done.len(),
    ensures
        in_turn(m, id, done.take(n)),
        none_returns(done) ==> none_returns(done.take(n)),
{
    let t = done.take(n);
    assert forall|i: int| 0 <= i < t.len() implies (#[trigger] t[i]).control is Give
        && t[i].frames == course(m, t.take(i)).frames && t[i].operands(id) == m.operands(id) by {
        assert(t[i] == done[i]);
        assert(t.take(i) =~= done.take(i));
    }
    if none_returns(done) {
        assert forall|i: int| 0 <= i < t.len() implies handed(#[trigger] t[i]) is Val by {
            assert(t[i] == done[i]);
        }
    }
}

/// A node is entered: its activations and the depth grow by one, and its operation
/// decides how it goes on.
pub proof fn nodes_are_entered(m: Mach, id: u32)
    requires
        about_to_run(m, id),
    ensures
        ({
            let c = m.set_node(
                id,
                NodeView {
                    activation_count: (m.node(id).activation_count + 1) as u64,
                    ..m.node(id)
                },
            );
            let d = Mach { depth: (m.depth + 1) as u32, ..c };
            &&& m.step(Ev::Go) == d.dispatch(id, m.node(id).op)
            &&& d.frames == m.frames
            &&& d.vars == m.vars
            &&& d.printed == m.printed
            &&& d.operands(id) == m.operands(id)
            &&& d.node(id).activation_count == m.node(id).activation_count + 1
            &&& d.options == m.options
        }),
{
    reveal(Mach::enter);
}

spec fn entered(m: Mach, id: u32) -> Mach {
    let c = m.set_node(
        id,
        NodeView { activation_count: (m.node(id).activation_count + 1) as u64, ..m.node(id) },
    );
    Mach { depth: (m.depth + 1) as u32, ..c }
}

// ---- Sequences ----

proof fn sequence_goes(m: Mach, id: u32, done: Seq<Mach>)
    requires
        about_to_run(m, id),
        m.node(id).op == OpCode::Sequence,
        in_turn(m, id, done),
        none_returns(done),
        done.len() < m.operands(id).len(),
    ensures
        course(m, done).frames == m.frames.push(Fr::Items { id, at: done.len() as int }),
        runs(course(m, done), m.operands(id)[done.len() as int]),
    decreases done.len(),
{
    nodes_are_entered(m, id);
    if done.len() == 0 {
        reveal(Mach::dispatch);
    } else {
        let front = done.take(done.len() - 1);
        earlier_turns(m, id, done, done.len() - 1);
        sequence_goes(m, id, front);
        let x = done[done.len() - 1];
        assert(handed(x) is Val);
        reveal(Mach::give);
        reveal(Mach::next_item);
        assert(x.frames.drop_last() =~= m.frames);
    }
}

proof fn items_hand_on(m: Mach, id: u32, at: int, x: Mach)
    requires
        x.control is Give,
        x.frames == m.frames.push(Fr::Items { id, at }),
        x.operands(id) == m.operands(id),
    ensures
        handed(x) is Ret || at + 1 >= m.operands(id).len() ==> is_over(
            x.step(Ev::Go),
            m,
            handed(x),
        ),
{
    reveal(Mach::give);
    reveal(Mach::next_item);
    assert(x.frames.drop_last() =~= m.frames);
}

/// A sequence runs its nodes one after the other, each once, and hands over what
/// the last one gave.
#[verifier::rlimit(40)]
pub proof fn sequences_run_in_order(m: Mach, id: u32, done: Seq<Mach>)
    requires
        about_to_run(m, id),
        m.node(id).op == OpCode::Sequence,
        in_turn(m, id, done),
        none_returns(done),
        done.len() <= m.operands(id).len(),
    ensures
        m.operands(id).len() == 0 ==> is_over(course(m, done), m, Flo::Val(Val::Null)),
        done.len() < m.operands(id).len() ==> runs(
            course(m, done),
            m.operands(id)[done.len() as int],
        ),
        0 < done.len() == m.operands(id).len() ==> is_over(
            course(m, done),
            m,
            handed(done.last()),
        ),
{
    if m.operands(id).len() == 0 {
        nodes_are_entered(m, id);
        reveal(Mach::dispatch);
    } else if done.len() < m.operands(id).len() {
        sequence_goes(m, id, done);
    } else {
        earlier_turns(m, id, done, done.len() - 1);
        sequence_goes(m, id, done.take(done.len() - 1));
        items_hand_on(m, id, done.len() - 1, done[done.len() - 1]);
    }
}

/// A part of a sequence that returns ends it at once.
pub proof fn returns_end_sequences(m: Mach, id: u32, done: Seq<Mach>)
    requires
        about_to_run(m, id),
        m.node(id).op == OpCode::Sequence,
        in_turn(m, id, done),
        0 < done.len() <= m.operands(id).len(),
        none_returns(done.take(done.len() - 1)),
        handed(done.last()) is Ret,
    ensures
        is_over(course(m, done), m, handed(done.last())),
{
    earlier_turns(m, id, done, done.len() - 1);
    sequence_goes(m, id, done.take(done.len() - 1));
    items_hand_on(m, id, done.len() - 1, done[done.len() - 1]);
}

// ---- Repeats ----

proof fn one_further(k: int, b: int)
    requires
        b > 0,
        k >= 0,
    ensures
        0 <= k % b < b,
        k == b * (k / b) + k % b,
        k % b + 1 < b ==> (k + 1) / b == k / b && (k + 1) % b == k % b + 1,
        k % b + 1 == b ==> (k + 1) / b == k / b + 1 && (k + 1) % b == 0,
{
    lemma_fundamental_div_mod(k, b);
    lemma_mod_bound(k, b);
    let q = k / b;
    let r = k % b;
    if r + 1 < b {
        assert(k + 1 == q * b + (r + 1)) by (nonlinear_arith)
            requires
                k == b * q + r,
        ;
        lemma_fundamental_div_mod_converse(k + 1, b, q, r + 1);
    } else {
        assert(k + 1 == (q + 1) * b + 0) by (nonlinear_arith)
            requires
                k == b * q + r,
                r + 1 == b,
        ;
        lemma_fundamental_div_mod_converse(k + 1, b, q + 1, 0);
    }
}

proof fn rounds_are_bounded(k: int, b: int, n: int)
    requires
        b > 0,
        0 <= k,
    ensures
        k < n * b <==> k / b < n,
        k + 1 == n * b ==> k / b == n - 1 && k % b == b - 1,
{
    one_further(k, b);
    let q = k / b;
    let r = k % b;
    assert(k < n * b <==> q < n) by (nonlinear_arith)
        requires
            k == b * q + r,
            0 <= r < b,
    ;
    if k + 1 == n * b {
        assert(q == n - 1 && r == b - 1) by (nonlinear_arith)
            requires
                k == b * q + r,
                0 <= r < b,
                k + 1 == n * b,
                q < n,
        ;
    }
}

/// A node that repeats its body, with a node for the count.
pub open spec fn repeats(m: Mach, id: u32) -> bool {
    about_to_run(m, id) && m.node(id).op == OpCode::Repeat && m.operands(id).len() >= 1
        && m.operands(id)[0] is NodeRef
}

proof fn repeat_starts(m: Mach, id: u32)
    requires
        repeats(m, id),
    ensures
        course(m, Seq::empty()).frames == m.frames.push(
            Fr::Args { id, op: OpCode::Repeat, done: Seq::empty() },
        ),
        runs(course(m, Seq::empty()), m.operands(id)[0]),
{
    nodes_are_entered(m, id);
    reveal(Mach::dispatch);
    reveal(Mach::next_arg);
}

proof fn repeat_is_counted(m: Mach, id: u32, x: Mach)
    requires
        repeats(m, id),
        x.control is Give,
        x.frames == course(m, Seq::empty()).frames,
        x.operands(id) == m.operands(id),
    ensures
        ({
            let y = Mach { frames: m.frames, control: Ct::Resume, ..x };
            x.step(Ev::Go) == y.act(id, OpCode::Repeat, seq![handed(x).value()])
        }),
{
    repeat_starts(m, id);
    reveal(Mach::give);
    reveal(Mach::have_arg);
    reveal(Mach::next_arg);
    assert(x.frames.drop_last() =~= m.frames);
    let v = handed(x).value();
    assert(Seq::<Val>::empty().push(v) =~= seq![v]);
    let y = Mach { frames: m.frames, control: Ct::Resume, ..x };
    assert(x.go(Ct::Resume).frames.drop_last() =~= m.frames);
    assert(Mach { frames: x.go(Ct::Resume).frames.drop_last(), ..x.go(Ct::Resume) } == y);
}

proof fn repeat_goes(m: Mach, id: u32, n: i64, done: Seq<Mach>)
    requires
        repeats(m, id),
        m.operands(id).len() > 1,
        n > 0,
        in_turn(m, id, done),
        none_returns(done),
        0 < done.len() <= n * (m.operands(id).len() - 1),
        handed(done[0]) == Flo::Val(Val::Int(n)),
    ensures
        ({
            let b = m.operands(id).len() - 1;
            let k = done.len() - 1;
            &&& course(m, done).frames == m.frames.push(
                Fr::Times { id, left: n - k / b, at: 1 + k % b },
            )
            &&& runs(course(m, done), m.operands(id)[1 + k % b])
        }),
    decreases done.len(),
{
    let ops = m.operands(id);
    let b = ops.len() - 1;
    let x = done[done.len() - 1];
    let front = done.take(done.len() - 1);
    if done.len() == 1 {
        assert(front =~= Seq::<Mach>::empty());
        repeat_is_counted(m, id, x);
        reveal(Mach::act);
        one_further(0, b);
        lemma_fundamental_div_mod_converse(0, b, 0, 0);
    } else {
        let k = done.len() - 2;
        earlier_turns(m, id, done, done.len() - 1);
        assert(front[0] == done[0]);
        repeat_goes(m, id, n, front);
        assert(handed(x) is Val);
        one_further(k, b);
        rounds_are_bounded(k + 1, b, n as int);
        reveal(Mach::give);
        reveal(Mach::next_in_times);
        assert(x.frames.drop_last() =~= m.frames);
    }
}

/// A repeat runs the node of its count once; with a count `n` above zero it then
/// runs the nodes of its body in order, `n` times over, and hands over what the
/// last one gave the last time. With any other integer, or without a body, it
/// hands over null and runs nothing.
#[verifier::rlimit(40)]
pub proof fn repeats_run_their_body_so_often(m: Mach, id: u32, n: i64, done: Seq<Mach>)
    requires
        repeats(m, id),
        in_turn(m, id, done),
        none_returns(done),
        done.len() > 0 ==> handed(done[0]) == Flo::Val(Val::Int(n)),
    ensures
        ({
            let ops = m.operands(id);
            let b = ops.len() - 1;
            let now = course(m, done);
            let ran = done.len() - 1;
            &&& done.len() == 0 ==> runs(now, ops[0])
            &&& done.len() == 1 && (n <= 0 || b == 0) ==> is_over(now, m, Flo::Val(Val::Null))
            &&& 0 <= ran < n * b && b > 0 ==> runs(now, ops[1 + ran % b])
            &&& 0 < ran == n * b && n > 0 ==> is_over(now, m, handed(done.last()))
        }),
{
    let ops = m.operands(id);
    let b = ops.len() - 1;
    if done.len() == 0 {
        assert(done =~= Seq::<Mach>::empty());
        repeat_starts(m, id);
    } else {
        let ran = done.len() - 1;
        assert(n <= 0 && b > 0 ==> n * b <= 0) by (nonlinear_arith);
        if done.len() == 1 && (n <= 0 || b == 0) {
            assert(done.take(0) =~= Seq::<Mach>::empty());
            repeat_is_counted(m, id, done[0]);
            reveal(Mach::act);
        } else if b > 0 && ran < n * b {
            repeat_goes(m, id, n, done);
        } else if 0 < ran && ran == n * b && n > 0 {
            let front = done.take(done.len() - 1);
            earlier_turns(m, id, done, done.len() - 1);
            assert(front[0] == done[0]);
            repeat_goes(m, id, n, front);
            let x = done[done.len() - 1];
            assert(handed(x) is Val);
            rounds_are_bounded(ran - 1, b, n as int);
            reveal(Mach::give);
            reveal(Mach::next_in_times);
            assert(x.frames.drop_last() =~= m.frames);
        }
    }
}

/// A part of a repeat's body that returns ends the repeat at once.
#[verifier::rlimit(40)]
pub proof fn returns_end_repeats(m: Mach, id: u32, n: i64, done: Seq<Mach>)
    requires
        repeats(m, id),
        in_turn(m, id, done),
        n > 0,
        m.operands(id).len() > 1,
        1 < done.len() <= n * (m.operands(id).len() - 1) + 1,
        none_returns(done.take(done.len() - 1)),
        handed(done[0]) == Flo::Val(Val::Int(n)),
        handed(done.last()) is Ret,
    ensures
        is_over(course(m, done), m, handed(done.last())),
{
    let front = done.take(done.len() - 1);
    earlier_turns(m, id, done, done.len() - 1);
    assert(front[0] == done[0]);
    repeat_goes(m, id, n, front);
    let x = done[done.len() - 1];
    reveal(Mach::give);
    reveal(Mach::next_in_times);
    assert(x.frames.drop_last() =~= m.frames);
}

// ---- Loops ----

/// A node that runs its body as long as its condition is true.
pub open spec fn loops(m: Mach, id: u32) -> bool {
    about_to_run(m, id) && m.node(id).op == OpCode::Loop && m.operands(id).len() >= 1
}

/// Every result of the condition so far was true.
pub open spec fn conditions_held(m: Mach, id: u32, done: Seq<Mach>) -> bool {
    forall|i: int|
        0 <= i < done.len() && i % (m.operands(id).len() as int) == 0 ==> counts_as_true(
            handed(#[trigger] done[i]).value(),
        )
}

/// What the last part of the body gave; null before it was run.
pub open spec fn last_given(done: Seq<Mach>, len: int) -> Val {
    if done.len() == 0 || len <= 1 {
        Val::Null
    } else {
        handed(done[done.len() - 1]).value()
    }
}

proof fn loop_starts(m: Mach, id: u32)
    requires
        loops(m, id),
    ensures
        course(m, Seq::empty()).frames == m.frames.push(
            Fr::While { id, at: 0, last: Val::Null },
        ),
        runs(course(m, Seq::empty()), m.operands(id)[0]),
{
    nodes_are_entered(m, id);
    reveal(Mach::dispatch);
}

proof fn loop_hands_on(m: Mach, id: u32, at: int, last: Val, x: Mach)
    requires
        x.control is Give,
        x.frames == m.frames.push(Fr::While { id, at, last }),
        x.operands(id) == m.operands(id),
        0 <= at < m.operands(id).len(),
    ensures
        ({
            let ops = m.operands(id);
            let v = handed(x).value();
            let y = x.step(Ev::Go);
            let next = if at + 1 < ops.len() {
                at + 1
            } else {
                0
            };
            &&& at == 0 && !counts_as_true(v) ==> is_over(y, m, Flo::Val(last))
            &&& at > 0 && handed(x) is Ret ==> is_over(y, m, handed(x))
            &&& at == 0 && counts_as_true(v) ==> y.frames == m.frames.push(
                Fr::While { id, at: next, last },
            ) && runs(y, ops[next])
            &&& at > 0 && handed(x) is Val ==> y.frames == m.frames.push(
                Fr::While { id, at: next, last: v },
            ) && runs(y, ops[next])
        }),
{
    truth_is_what_counts(handed(x).value());
    reveal(Mach::give);
    reveal(Mach::next_in_loop);
    assert(x.frames.drop_last() =~= m.frames);
}

proof fn loop_goes(m: Mach, id: u32, done: Seq<Mach>)
    requires
        loops(m, id),
        in_turn(m, id, done),
        none_returns(done),
        conditions_held(m, id, done),
    ensures
        ({
            let len = m.operands(id).len() as int;
            let at = done.len() as int % len;
            let now = course(m, done);
            &&& runs(now, m.operands(id)[at])
            &&& now.frames.len() == m.frames.len() + 1
            &&& now.frames.last() is While
            &&& now.frames == m.frames.push(
                Fr::While { id, at, last: now.frames.last()->While_last },
            )
            &&& at == 0 ==> now.frames.last()->While_last == last_given(done, len)
        }),
    decreases done.len(),
{
    let len = m.operands(id).len() as int;
    if done.len() == 0 {
        assert(done =~= Seq::<Mach>::empty());
        loop_starts(m, id);
        lemma_fundamental_div_mod_converse(0, len, 0, 0);
    } else {
        let k = done.len() - 1;
        let front = done.take(k);
        earlier_turns(m, id, done, k);
        assert forall|i: int| 0 <= i < front.len() && i % len == 0 implies counts_as_true(
            handed(#[trigger] front[i]).value(),
        ) by {
            assert(front[i] == done[i]);
        }
        loop_goes(m, id, front);
        let x = done[k];
        assert(handed(x) is Val);
        one_further(k, len);
        let last = course(m, front).frames.last()->While_last;
        loop_hands_on(m, id, k % len, last, x);
    }
}

/// A loop runs its condition, then its body in order, and so on as long as the
/// condition is true; the parts are run in this order, over and over.
#[verifier::rlimit(40)]
pub proof fn loops_run_while_true(m: Mach, id: u32, done: Seq<Mach>)
    requires
        loops(m, id),
        in_turn(m, id, done),
        none_returns(done),
        conditions_held(m, id, done),
    ensures
        runs(
            course(m, done),
            m.operands(id)[done.len() as int % (m.operands(id).len() as int)],
        ),
{
    loop_goes(m, id, done);
}

/// A loop is over as soon as its condition is not true: it hands over what its
/// body gave last, or null.
pub proof fn loops_end_when_untrue(m: Mach, id: u32, done: Seq<Mach>)
    requires
        loops(m, id),
        in_turn(m, id, done),
        done.len() > 0,
        none_returns(done.take(done.len() - 1)),
        conditions_held(m, id, done.take(done.len() - 1)),
        (done.len() - 1) % (m.operands(id).len() as int) == 0,
        !counts_as_true(handed(done.last()).value()),
    ensures
        is_over(
            course(m, done),
            m,
            Flo::Val(last_given(done.take(done.len() - 1), m.operands(id).len() as int)),
        ),
{
    let k = done.len() - 1;
    earlier_turns(m, id, done, k);
    loop_goes(m, id, done.take(k));
    let last = course(m, done.take(k)).frames.last()->While_last;
    loop_hands_on(m, id, 0, last, done[k]);
}

/// A part of a loop's body that returns ends the loop at once.
pub proof fn returns_end_loops(m: Mach, id: u32, done: Seq<Mach>)
    requires
        loops(m, id),
        in_turn(m, id, done),
        done.len() > 0,
        none_returns(done.take(done.len() - 1)),
        conditions_held(m, id, done.take(done.len() - 1)),
        (done.len() - 1) % (m.operands(id).len() as int) != 0,
        handed(done.last()) is Ret,
    ensures
        is_over(course(m, done), m, handed(done.last())),
{
    let k = done.len() - 1;
    earlier_turns(m, id, done, k);
    loop_goes(m, id, done.take(k));
    let last = course(m, done.take(k)).frames.last()->While_last;
    one_further(k, m.operands(id).len() as int);
    loop_hands_on(m, id, k % (m.operands(id).len() as int), last, done[k]);
}

// ---- Loops over lists ----

/// A node that runs its body for each item of a list.
pub open spec fn goes_over_list(m: Mach, id: u32) -> bool {
    about_to_run(m, id) && m.node(id).op == OpCode::ForEach && m.operands(id).len() >= 3
        && m.operands(id)[1] is VarSlot
}

proof fn each_starts(m: Mach, id: u32)
    requires
        goes_over_list(m, id),
    ensures
        course(m, Seq::empty()).frames == m.frames.push(
            Fr::Each {
                id,
                slot: m.operands(id)[1]->VarSlot_0,
                items: Seq::empty(),
                k: 0,
                at: 0,
                last: Val::Null,
            },
        ),
        runs(course(m, Seq::empty()), m.operands(id)[0]),
{
    nodes_are_entered(m, id);
    reveal(Mach::dispatch);
}

proof fn each_hands_on(
    m: Mach,
    id: u32,
    slot: u32,
    items: Seq<Val>,
    k: int,
    at: int,
    last: Val,
    x: Mach,
)
    requires
        x.control is Give,
        x.frames == m.frames.push(Fr::Each { id, slot, items, k, at, last }),
        x.operands(id) == m.operands(id),
        m.operands(id).len() >= 3,
        at == 0 || at >= 2,
    ensures
        ({
            let ops = m.operands(id);
            let v = handed(x).value();
            let y = x.step(Ev::Go);
            &&& at == 0 && v is Array && v->Array_0.len() > 0 ==> y.frames == m.frames.push(
                Fr::Each { id, slot, items: v->Array_0, k: 0, at: 2, last: Val::Null },
            ) && runs(y, ops[2]) && y.vars == x.vars.insert(slot, v->Array_0[0])
            &&& at == 0 && v is Array && v->Array_0.len() == 0 ==> is_over(
                y,
                m,
                Flo::Val(Val::Null),
            )
            &&& at == 0 && !(v is Array) ==> y.control == Ct::Failed(
                "expected array, got "@ + v.kind(),
            )
            &&& at > 0 && handed(x) is Ret ==> is_over(y, m, handed(x))
            &&& at > 0 && handed(x) is Val && at + 1 < ops.len() ==> y.frames == m.frames.push(
                Fr::Each { id, slot, items, k, at: at + 1, last: v },
            ) && runs(y, ops[at + 1]) && y.vars == x.vars
            &&& at > 0 && handed(x) is Val && at + 1 == ops.len() && k + 1 < items.len()
                ==> y.frames == m.frames.push(
                Fr::Each { id, slot, items, k: k + 1, at: 2, last: v },
            ) && runs(y, ops[2]) && y.vars == x.vars.insert(slot, items[k + 1])
            &&& at > 0 && handed(x) is Val && at + 1 == ops.len() && k + 1 >= items.len()
                ==> is_over(y, m, Flo::Val(v))
        }),
{
    reveal(Mach::give);
    reveal(Mach::next_in_each);
    reveal(Mach::each_item);
    assert(x.frames.drop_last() =~= m.frames);
}

proof fn each_goes(m: Mach, id: u32, items: Seq<Val>, done: Seq<Mach>)
    requires
        goes_over_list(m, id),
        in_turn(m, id, done),
        none_returns(done),
        0 < done.len() <= items.len() * (m.operands(id).len() - 2),
        handed(done[0]) == Flo::Val(Val::Array(items)),
    ensures
        ({
            let ops = m.operands(id);
            let b = ops.len() - 2;
            let k = done.len() - 1;
            let now = course(m, done);
            let slot = ops[1]->VarSlot_0;
            &&& now.frames.last() is Each
            &&& now.frames == m.frames.push(
                Fr::Each {
                    id,
                    slot,
                    items,
                    k: k / b,
                    at: 2 + k % b,
                    last: now.frames.last()->Each_last,
                },
            )
            &&& runs(now, ops[2 + k % b])
            &&& k % b == 0 ==> now.var(slot) == items[k / b]
            &&& k % b != 0 ==> now.vars == done.last().vars
        }),
    decreases done.len(),
{
    let ops = m.operands(id);
    let b = ops.len() - 2;
    let k = done.len() - 1;
    let x = done[k];
    let slot = ops[1]->VarSlot_0;
    let front = done.take(k);
    assert(handed(x) is Val);
    if k == 0 {
        assert(front =~= Seq::<Mach>::empty());
        each_starts(m, id);
        if items.len() == 0 {
            assert(items.len() * b == 0) by (nonlinear_arith)
                requires
                    items.len() == 0,
            ;
        }
        each_hands_on(m, id, slot, Seq::empty(), 0, 0, Val::Null, x);
        lemma_fundamental_div_mod_converse(0, b, 0, 0);
    } else {
        earlier_turns(m, id, done, k);
        assert(front[0] == done[0]);
        each_goes(m, id, items, front);
        one_further(k - 1, b);
        rounds_are_bounded(k, b, items.len() as int);
        let last = course(m, front).frames.last()->Each_last;
        each_hands_on(m, id, slot, items, (k - 1) / b, 2 + (k - 1) % b, last, x);
    }
}

/// A loop over a list runs the node of the list once, and then its body in order
/// for one item after the other; at the start of each round its variable holds the
/// item. It hands over what its body gave last, or null for an empty list.
#[verifier::rlimit(40)]
pub proof fn lists_are_gone_over_in_order(m: Mach, id: u32, items: Seq<Val>, done: Seq<Mach>)
    requires
        goes_over_list(m, id),
        in_turn(m, id, done),
        none_returns(done),
        done.len() > 0 ==> handed(done[0]) == Flo::Val(Val::Array(items)),
    ensures
        ({
            let ops = m.operands(id);
            let b = ops.len() - 2;
            let now = course(m, done);
            let ran = done.len() - 1;
            &&& done.len() == 0 ==> runs(now, ops[0])
            &&& done.len() == 1 && items.len() == 0 ==> is_over(now, m, Flo::Val(Val::Null))
            &&& 0 <= ran < items.len() * b ==> runs(now, ops[2 + ran % b]) && (ran % b == 0
                ==> now.var(ops[1]->VarSlot_0) == items[ran / b])
            &&& 0 < ran == items.len() * b ==> is_over(now, m, handed(done.last()))
        }),
{
    let ops = m.operands(id);
    let b = ops.len() - 2;
    let slot = ops[1]->VarSlot_0;
    if done.len() == 0 {
        assert(done =~= Seq::<Mach>::empty());
        each_starts(m, id);
    } else {
        let ran = done.len() - 1;
        if ran < items.len() * b {
            each_goes(m, id, items, done);
        } else if ran == 0 {
            if items.len() > 0 {
                assert(items.len() * b > 0) by (nonlinear_arith)
                    requires
                        items.len() > 0,
                        b > 0,
                ;
            }
            assert(done.take(0) =~= Seq::<Mach>::empty());
            each_starts(m, id);
            each_hands_on(m, id, slot, Seq::empty(), 0, 0, Val::Null, done[0]);
        } else if ran == items.len() * b {
            let front = done.take(ran);
            earlier_turns(m, id, done, ran);
            assert(front[0] == done[0]);
            each_goes(m, id, items, front);
            rounds_are_bounded(ran - 1, b, items.len() as int);
            let last = course(m, front).frames.last()->Each_last;
            assert(handed(done[ran]) is Val);
            each_hands_on(
                m,
                id,
                slot,
                items,
                (ran - 1) / b,
                2 + (ran - 1) % b,
                last,
                done[ran],
            );
        }
    }
}

} // verus!
