//! How a run calls functions, and what becomes of lists that go through them.

use crate::flow_laws::given_by;
use crate::graph::OpCode;
use crate::loop_laws::{handed, is_over, none_returns};
use crate::op_laws::{counts_as_true, kind_of, truth_is_what_counts};
use crate::run_model::{Ct, Ev, Flo, Fr, Mach, answers, bind, lookup, restore};
use crate::values::Val;
use vstd::prelude::*;

verus! {

/// No slot occurs twice.
pub open spec fn all_different(slots: Seq<u32>) -> bool {
    forall|i: int, j: int|
        0 <= i < j < slots.len() ==> #[trigger] slots[i] != #[trigger] slots[j]
}

/// The argument for a parameter; null where there is none.
pub open spec fn argument(args: Seq<Val>, i: int) -> Val {
    if i < args.len() {
        args[i]
    } else {
        Val::Null
    }
}

proof fn binding_binds(vars: Map<u32, Val>, slots: Seq<u32>, args: Seq<Val>)
    requires
        all_different(slots),
    ensures
        ({
            let (v, saved) = bind(vars, slots, args);
            &&& forall|i: int|
                0 <= i < slots.len() ==> lookup(v, #[trigger] slots[i]) == Some(argument(args, i))
            &&& forall|s: u32| !slots.contains(s) ==> #[trigger] lookup(v, s) == lookup(vars, s)
            &&& saved.len() == slots.len()
            &&& forall|i: int|
                0 <= i < slots.len() ==> #[trigger] saved[i] == (slots[i], lookup(vars, slots[i]))
        }),
    decreases slots.len(),
{
    if slots.len() > 0 {
        let front = slots.drop_last();
        assert forall|i: int, j: int| 0 <= i < j < front.len() implies #[trigger] front[i]
            != #[trigger] front[j] by {
            assert(front[i] == slots[i] && front[j] == slots[j]);
        }
        binding_binds(vars, front, args);
        let (v, saved) = bind(vars, front, args);
        let (w, all) = bind(vars, slots, args);
        let last = slots.last();
        assert(!front.contains(last)) by {
            if front.contains(last) {
                let i = choose|i: int| 0 <= i < front.len() && front[i] == last;
                assert(slots[i] != slots[slots.len() - 1]);
            }
        }
        assert forall|i: int| 0 <= i < slots.len() implies lookup(w, #[trigger] slots[i]) == Some(
            argument(args, i),
        ) by {
            if i < front.len() {
                assert(front[i] == slots[i]);
                assert(slots[i] != slots[slots.len() - 1]);
            }
        }
        assert forall|s: u32| !slots.contains(s) implies #[trigger] lookup(w, s) == lookup(
            vars,
            s,
        ) by {
            assert(slots[slots.len() - 1] == last);
            if front.contains(s) {
                let i = choose|i: int| 0 <= i < front.len() && front[i] == s;
                assert(slots[i] == s);
            }
            assert(lookup(v, s) == lookup(vars, s));
        }
        assert forall|i: int| 0 <= i < slots.len() implies #[trigger] all[i] == (
            slots[i],
            lookup(vars, slots[i]),
        ) by {
            if i < front.len() {
                assert(all[i] == saved[i]);
                assert(front[i] == slots[i]);
            }
        }
    }
}

proof fn restoring_restores(vars: Map<u32, Val>, saved: Seq<(u32, Option<Val>)>)
    requires
        forall|i: int, j: int|
            0 <= i < j < saved.len() ==> (#[trigger] saved[i]).0 != (#[trigger] saved[j]).0,
    ensures
        ({
            let v = restore(vars, saved);
            &&& forall|i: int|
                0 <= i < saved.len() ==> lookup(v, (#[trigger] saved[i]).0) == saved[i].1
            &&& forall|s: u32|
                (forall|i: int| 0 <= i < saved.len() ==> (#[trigger] saved[i]).0 != s)
                    ==> #[trigger] lookup(v, s) == lookup(vars, s)
        }),
    decreases saved.len(),
{
    if saved.len() > 0 {
        let front = saved.drop_last();
        assert forall|i: int, j: int| 0 <= i < j < front.len() implies (#[trigger] front[i]).0 != (
        #[trigger] front[j]).0 by {
            assert(front[i] == saved[i] && front[j] == saved[j]);
        }
        restoring_restores(vars, front);
        let v = restore(vars, front);
        let w = restore(vars, saved);
        let last = saved[saved.len() - 1];
        assert forall|i: int| 0 <= i < saved.len() implies lookup(w, (#[trigger] saved[i]).0)
            == saved[i].1 by {
            if i < front.len() {
                assert(front[i] == saved[i]);
                assert(saved[i].0 != last.0);
            }
        }
        assert forall|s: u32|
            (forall|i: int| 0 <= i < saved.len() ==> (
            #[trigger] saved[i]).0 != s) implies #[trigger] lookup(w, s) == lookup(vars, s) by {
            assert forall|i: int| 0 <= i < front.len() implies (#[trigger] front[i]).0 != s by {
                assert(front[i] == saved[i]);
            }
            assert(last.0 != s);
            assert(lookup(v, s) == lookup(vars, s));
        }
    }
}

/// The machine after the handovers inside a call.
pub open spec fn inside(start: Mach, done: Seq<Mach>) -> Mach {
    if done.len() == 0 {
        start
    } else {
        done.last().step(Ev::Go)
    }
}

/// Each machine hands over the result of the part of the body that was run last.
pub open spec fn in_turn_inside(start: Mach, done: Seq<Mach>) -> bool {
    forall|i: int|
        0 <= i < done.len() ==> (#[trigger] done[i]).control is Give && done[i].frames == inside(
            start,
            done.take(i),
        ).frames
}

proof fn earlier_turns_inside(start: Mach, done: Seq<Mach>, n: int)
    requires
        in_turn_inside(start, done),
        0 <= n <= done.len(),
    ensures
        in_turn_inside(start, done.take(n)),
{
    let t = done.take(n);
    assert forall|i: int| 0 <= i < t.len() implies (#[trigger] t[i]).control is Give
        && t[i].frames == inside(start, t.take(i)).frames by {
        assert(t[i] == done[i]);
        assert(t.take(i) =~= done.take(i));
    }
}

proof fn body_goes(
    m: Mach,
    params: Seq<u32>,
    body: Seq<u32>,
    args: Seq<Val>,
    done: Seq<Mach>,
)
    requires
        done.len() < body.len(),
        in_turn_inside(
            m.call(Val::GraphFn { param_slots: params, body_nodes: body }, args),
            done,
        ),
        none_returns(done),
    ensures
        ({
            let start = m.call(Val::GraphFn { param_slots: params, body_nodes: body }, args);
            let now = inside(start, done);
            &&& now.control == Ct::Enter(body[done.len() as int])
            &&& now.frames == m.frames.push(
                Fr::Body {
                    body,
                    at: done.len() as int,
                    saved: bind(m.vars, params, args).1,
                },
            )
            &&& done.len() > 0 ==> now.vars == done.last().vars
        }),
    decreases done.len(),
{
    let start = m.call(Val::GraphFn { param_slots: params, body_nodes: body }, args);
    reveal(Mach::call);
    if done.len() > 0 {
        let k = done.len() - 1;
        earlier_turns_inside(start, done, k);
        assert forall|i: int| 0 <= i < k implies handed(#[trigger] done.take(k)[i]) is Val by {
            assert(done.take(k)[i] == done[i]);
        }
        body_goes(m, params, body, args, done.take(k));
        let x = done[k];
        assert(handed(x) is Val);
        reveal(Mach::give);
        reveal(Mach::next_in_body);
        assert(x.frames.drop_last() =~= m.frames);
    }
}

/// A call binds its parameters to the arguments, each to its own, with null for
/// those that are missing, and leaves every other variable alone.
pub proof fn calls_bind_their_arguments(
    m: Mach,
    params: Seq<u32>,
    body: Seq<u32>,
    args: Seq<Val>,
    i: int,
    other: u32,
)
    requires
        all_different(params),
        body.len() > 0,
        0 <= i < params.len(),
        !params.contains(other),
    ensures
        ({
            let start = m.call(Val::GraphFn { param_slots: params, body_nodes: body }, args);
            &&& start.var(params[i]) == argument(args, i)
            &&& lookup(start.vars, other) == lookup(m.vars, other)
        }),
{
    reveal(Mach::call);
    binding_binds(m.vars, params, args);
    assert(lookup(bind(m.vars, params, args).0, params[i]) == Some(argument(args, i)));
}

/// A call runs the nodes of the function's body in order, each once.
pub proof fn calls_run_the_body_in_order(
    m: Mach,
    params: Seq<u32>,
    body: Seq<u32>,
    args: Seq<Val>,
    done: Seq<Mach>,
)
    requires
        done.len() < body.len(),
        in_turn_inside(
            m.call(Val::GraphFn { param_slots: params, body_nodes: body }, args),
            done,
        ),
        none_returns(done),
    ensures
        inside(
            m.call(Val::GraphFn { param_slots: params, body_nodes: body }, args),
            done,
        ).control == Ct::Enter(body[done.len() as int]),
{
    body_goes(m, params, body, args, done);
}

/// A call is over when the last node of the body is, or when one returns: it hands
/// over that value, as one that does not return further, and the parameters are
/// again what they were before the call; other variables stay as the body left
/// them.
pub proof fn calls_end_with_the_last_value(
    m: Mach,
    params: Seq<u32>,
    body: Seq<u32>,
    args: Seq<Val>,
    done: Seq<Mach>,
    slot: u32,
)
    requires
        all_different(params),
        0 < done.len() <= body.len(),
        in_turn_inside(
            m.call(Val::GraphFn { param_slots: params, body_nodes: body }, args),
            done,
        ),
        none_returns(done.take(done.len() - 1)),
        done.len() == body.len() || handed(done.last()) is Ret,
    ensures
        ({
            let start = m.call(Val::GraphFn { param_slots: params, body_nodes: body }, args);
            let now = inside(start, done);
            &&& is_over(now, m, Flo::Val(handed(done.last()).value()))
            &&& params.contains(slot) ==> lookup(now.vars, slot) == lookup(m.vars, slot)
            &&& !params.contains(slot) ==> lookup(now.vars, slot) == lookup(
                done.last().vars,
                slot,
            )
        }),
{
    let start = m.call(Val::GraphFn { param_slots: params, body_nodes: body }, args);
    let k = done.len() - 1;
    earlier_turns_inside(start, done, k);
    body_goes(m, params, body, args, done.take(k));
    let x = done[k];
    reveal(Mach::give);
    reveal(Mach::next_in_body);
    assert(x.frames.drop_last() =~= m.frames);
    let saved = bind(m.vars, params, args).1;
    binding_binds(m.vars, params, args);
    assert forall|i: int, j: int| 0 <= i < j < saved.len() implies (#[trigger] saved[i]).0 != (
    #[trigger] saved[j]).0 by {
        assert(params[i] != params[j]);
    }
    restoring_restores(x.vars, saved);
    let now = inside(start, done);
    assert(now.vars == restore(x.vars, saved));
    if params.contains(slot) {
        let i = choose|i: int| 0 <= i < params.len() && params[i] == slot;
        assert(saved[i] == (params[i], lookup(m.vars, params[i])));
    } else {
        assert forall|i: int| 0 <= i < saved.len() implies (#[trigger] saved[i]).0 != slot by {
            assert(params[i] != slot);
        }
    }
}

/// What no function is cannot be called.
pub proof fn only_functions_are_called(m: Mach, f: Val, args: Seq<Val>)
    requires
        !(f is GraphFn),
    ensures
        m.call(f, args).control == Ct::Failed("cannot call "@ + kind_of(f)),
{
    reveal(Mach::call);
}

// ---- Lists through functions ----

/// Each machine hands over what the function made of the item before.
pub open spec fn answers_in_turn(start: Mach, below: Seq<Fr>, done: Seq<Mach>) -> bool {
    forall|i: int|
        0 <= i < done.len() ==> (#[trigger] done[i]).control is Give && done[i].frames == inside(
            start,
            done.take(i),
        ).frames.take(below.len() as int + 1)
}

proof fn earlier_answers(start: Mach, below: Seq<Fr>, done: Seq<Mach>, n: int)
    requires
        answers_in_turn(start, below, done),
        0 <= n <= done.len(),
    ensures
        answers_in_turn(start, below, done.take(n)),
{
    let t = done.take(n);
    assert forall|i: int| 0 <= i < t.len() implies (#[trigger] t[i]).control is Give
        && t[i].frames == inside(start, t.take(i)).frames.take(below.len() as int + 1) by {
        assert(t[i] == done[i]);
        assert(t.take(i) =~= done.take(i));
    }
}

/// The items for which the answers are true, in order.
pub open spec fn kept_items(items: Seq<Val>, answers: Seq<Val>) -> Seq<Val>
    decreases answers.len(),
{
    if answers.len() == 0 {
        Seq::empty()
    } else {
        let front = kept_items(items, answers.drop_last());
        if counts_as_true(answers.last()) {
            front.push(items[answers.len() - 1])
        } else {
            front
        }
    }
}

/// What is collected when the answers are there.
pub open spec fn collected(op: OpCode, init: Val, items: Seq<Val>, answers: Seq<Val>) -> Seq<Val> {
    match op {
        OpCode::Filter => kept_items(items, answers),
        OpCode::MapEach => answers,
        _ => seq![
            if answers.len() == 0 {
                init
            } else {
                answers.last()
            },
        ],
    }
}

/// What the function is called with for an item: the item, and before it, for a
/// reduction, what came out so far.
pub open spec fn called_with(op: OpCode, init: Val, items: Seq<Val>, answers: Seq<Val>) -> Seq<Val> {
    if op == OpCode::Reduce {
        collected(op, init, items, answers).push(items[answers.len() as int])
    } else {
        seq![items[answers.len() as int]]
    }
}

pub open spec fn list_operation(op: OpCode) -> bool {
    op == OpCode::Filter || op == OpCode::MapEach || op == OpCode::Reduce
}

/// How a list starts through a function.
pub open spec fn list_start(m: Mach, id: u32, op: OpCode, func: Val, items: Seq<Val>, init: Val) -> Mach {
    m.act(
        id,
        op,
        if op == OpCode::Reduce {
            seq![Val::Array(items), func, init]
        } else {
            seq![Val::Array(items), func]
        },
    )
}

spec fn over_frame(op: OpCode, func: Val, init: Val, items: Seq<Val>, answers: Seq<Val>) -> Fr {
    Fr::Over {
        op,
        func,
        items,
        k: answers.len() as int,
        acc: collected(op, init, items, answers),
    }
}

proof fn calls_keep_what_is_below(m: Mach, f: Val, args: Seq<Val>, below: Seq<Fr>, top: Fr)
    requires
        m.frames == below.push(top),
    ensures
        m.call(f, args).frames.take(below.len() as int + 1) == below.push(top),
{
    reveal(Mach::call);
    assert(m.call(f, args).frames.take(below.len() as int + 1) =~= below.push(top));
}

proof fn list_goes(
    m: Mach,
    id: u32,
    op: OpCode,
    func: Val,
    items: Seq<Val>,
    init: Val,
    done: Seq<Mach>,
)
    requires
        list_operation(op),
        answers_in_turn(list_start(m, id, op, func, items, init), m.frames, done),
        done.len() <= items.len(),
    ensures
        ({
            let start = list_start(m, id, op, func, items, init);
            let now = inside(start, done);
            let top = over_frame(op, func, init, items, given_by(done));
            &&& done.len() < items.len() ==> now.frames.take(m.frames.len() as int + 1) == m.frames.push(
                top,
            ) && exists|x: Mach|
                x.frames == m.frames.push(top) && now == #[trigger] x.call(
                    func,
                    called_with(op, init, items, given_by(done)),
                )
            &&& done.len() == items.len() ==> is_over(
                now,
                m,
                Flo::Val(
                    if op == OpCode::Reduce {
                        collected(op, init, items, given_by(done))[0]
                    } else {
                        Val::Array(collected(op, init, items, given_by(done)))
                    },
                ),
            )
        }),
    decreases done.len(),
{
    let start = list_start(m, id, op, func, items, init);
    let vs = given_by(done);
    if done.len() == 0 {
        reveal(Mach::act);
        assert(vs =~= Seq::<Val>::empty());
        over_goes(m, m.frames, op, func, items, init, vs);
    } else {
        let k = done.len() - 1;
        earlier_answers(start, m.frames, done, k);
        list_goes(m, id, op, func, items, init, done.take(k));
        let x = done[k];
        let front = given_by(done.take(k));
        let v = handed(x).value();
        assert(front.push(v) =~= vs);
        assert(vs.drop_last() =~= front);
        let top = over_frame(op, func, init, items, front);
        assert(x.frames == m.frames.push(top));
        assert(x.frames.drop_last() =~= m.frames);
        truth_is_what_counts(v);
        reveal(Mach::give);
        reveal(Mach::next_over);
        let y = Mach { frames: m.frames, control: Ct::Resume, ..x };
        assert(Mach { frames: x.go(Ct::Resume).frames.drop_last(), ..x.go(Ct::Resume) } == y);
        assert(x.step(Ev::Go) == y.next_over(
            op,
            func,
            items,
            k,
            collected(op, init, items, front),
            v,
        ));
        assert(x.step(Ev::Go) == y.over(
            op,
            func,
            items,
            k + 1,
            collected(op, init, items, vs),
        ));
        over_goes(y, m.frames, op, func, items, init, vs);
    }
}

proof fn over_goes(
    y: Mach,
    below: Seq<Fr>,
    op: OpCode,
    func: Val,
    items: Seq<Val>,
    init: Val,
    vs: Seq<Val>,
)
    requires
        y.frames == below,
        list_operation(op),
        vs.len() <= items.len(),
    ensures
        ({
            let now = y.over(
                op,
                func,
                items,
                vs.len() as int,
                collected(op, init, items, vs),
            );
            let top = over_frame(op, func, init, items, vs);
            &&& vs.len() < items.len() ==> now.frames.take(below.len() as int + 1) == below.push(top)
                && exists|x: Mach|
                x.frames == below.push(top) && now == #[trigger] x.call(
                    func,
                    called_with(op, init, items, vs),
                )
            &&& vs.len() == items.len() ==> now.frames == below && now.control == Ct::Give(
                Flo::Val(
                    if op == OpCode::Reduce {
                        collected(op, init, items, vs)[0]
                    } else {
                        Val::Array(collected(op, init, items, vs))
                    },
                ),
            )
        }),
{
    reveal(Mach::over);
    if vs.len() < items.len() {
        let top = over_frame(op, func, init, items, vs);
        let x = y.push(top);
        let args = called_with(op, init, items, vs);
        if op == OpCode::Reduce {
            assert(args =~= seq![collected(op, init, items, vs)[0], items[vs.len() as int]]);
        }
        assert(y.over(op, func, items, vs.len() as int, collected(op, init, items, vs)) == x.call(
            func,
            args,
        ));
        calls_keep_what_is_below(x, func, args, below, top);
    }
}

/// A list goes through a function item by item, in order: the function is called
/// with each item, and for a reduction also with what came out before. A map hands
/// over the answers, a filter the items whose answer is true, and a reduction the
/// last answer, or what it began with.
pub proof fn lists_go_through_functions(
    m: Mach,
    id: u32,
    op: OpCode,
    func: Val,
    items: Seq<Val>,
    init: Val,
    done: Seq<Mach>,
)
    requires
        list_operation(op),
        answers_in_turn(list_start(m, id, op, func, items, init), m.frames, done),
        done.len() <= items.len(),
    ensures
        ({
            let now = inside(list_start(m, id, op, func, items, init), done);
            let answers = given_by(done);
            &&& done.len() < items.len() ==> exists|x: Mach, args: Seq<Val>|
                now == #[trigger] x.call(func, args) && args == (if op == OpCode::Reduce {
                    seq![
                        if answers.len() == 0 {
                            init
                        } else {
                            answers.last()
                        },
                        items[done.len() as int],
                    ]
                } else {
                    seq![items[done.len() as int]]
                })
            &&& done.len() == items.len() ==> is_over(
                now,
                m,
                Flo::Val(
                    match op {
                        OpCode::MapEach => Val::Array(answers),
                        OpCode::Filter => Val::Array(kept_items(items, answers)),
                        _ => if answers.len() == 0 {
                            init
                        } else {
                            answers.last()
                        },
                    },
                ),
            )
        }),
{
    list_goes(m, id, op, func, items, init, done);
    let answers = given_by(done);
    if done.len() < items.len() {
        let args = called_with(op, init, items, answers);
        if op == OpCode::Reduce {
            assert(args =~= seq![
                if answers.len() == 0 {
                    init
                } else {
                    answers.last()
                },
                items[done.len() as int],
            ]);
        }
    }
}

/// What a filter keeps are items of the list whose answers are true, and no others.
pub proof fn filters_keep_what_is_true(items: Seq<Val>, answers: Seq<Val>, v: Val)
    requires
        answers.len() <= items.len(),
    ensures
        kept_items(items, answers).contains(v) <==> exists|i: int|
            0 <= i < answers.len() && counts_as_true(#[trigger] answers[i]) && items[i] == v,
        kept_items(items, answers).len() <= answers.len(),
    decreases answers.len(),
{
    if answers.len() > 0 {
        let front = answers.drop_last();
        filters_keep_what_is_true(items, front, v);
        let n = answers.len() - 1;
        let kept = kept_items(items, front);
        if counts_as_true(answers.last()) {
            assert(kept.push(items[n])[kept.len() as int] == items[n]);
            if items[n] == v {
                assert(kept.push(items[n]).contains(v));
                assert(counts_as_true(answers[n]) && items[n] == v);
            } else if kept.push(items[n]).contains(v) {
                let j = choose|j: int| 0 <= j <= kept.len() && kept.push(items[n])[j] == v;
                assert(kept[j] == v);
                assert(kept.contains(v));
                let i = choose|i: int|
                    0 <= i < front.len() && counts_as_true(#[trigger] front[i]) && items[i] == v;
                assert(answers[i] == front[i]);
            }
            if kept.contains(v) {
                let j = choose|j: int| 0 <= j < kept.len() && kept[j] == v;
                assert(kept.push(items[n])[j] == v);
            }
        }
        if exists|i: int|
            0 <= i < answers.len() && counts_as_true(#[trigger] answers[i]) && items[i] == v {
            let i = choose|i: int|
                0 <= i < answers.len() && counts_as_true(#[trigger] answers[i]) && items[i] == v;
            if i < n {
                assert(front[i] == answers[i]);
                assert(kept.contains(v));
            }
        }
        if kept.contains(v) {
            let i = choose|i: int|
                0 <= i < front.len() && counts_as_true(#[trigger] front[i]) && items[i] == v;
            assert(answers[i] == front[i]);
        }
    }
}

} // verus!
