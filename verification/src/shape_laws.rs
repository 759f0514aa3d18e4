//! What a compiled graph stands for: every tree is found again in its node.

use crate::ast::{Ast, ParamView, PipeKind};
use crate::compiler_laws::{grows, within};
use crate::graph::{Contract, GraphView, ImmValue, NodeView, OpCode, Operand};
use crate::graph_compiler::{Compiling, SHARE_LIMIT, arith_op, builtin_op, comp, comp_all, comp_branch, comp_form, comp_params, comp_program, node_ref, nothing_compiled, pipe_op, refs};
use crate::number::{ONE, Real, nearest_share_bits};
use crate::op_laws::{code_means, operators_mean_what_they_say};
use vstd::prelude::*;
use vstd::utf8::*;

verus! {

/// The operands are references to nodes that stand for the trees, in order.
pub open spec fn each_stands(
    g: GraphView,
    slots: Map<Seq<char>, u32>,
    ops: Seq<Operand>,
    s: Seq<Ast>,
) -> bool
    decreases s, 0int,
{
    &&& ops.len() == s.len()
    &&& s.len() > 0 ==> each_stands(g, slots, ops.drop_last(), s.drop_last()) && ref_stands(
        g,
        slots,
        ops.last(),
        s.last(),
    )
}

/// The operand is a reference to a node that stands for the tree.
pub open spec fn ref_stands(
    g: GraphView,
    slots: Map<Seq<char>, u32>,
    op: Operand,
    a: Ast,
) -> bool
    decreases a, 1int,
{
    op is NodeRef && stands(g, slots, op->NodeRef_0, a)
}

/// The operand is the slot of the name.
pub open spec fn names(slots: Map<Seq<char>, u32>, op: Operand, name: Seq<char>) -> bool {
    slots.contains_key(name) && op == Operand::VarSlot(slots[name])
}

/// A node whose value is a text.
pub open spec fn holds_text(g: GraphView, n: NodeView, s: Seq<char>) -> bool {
    &&& n.op == OpCode::ConstStr
    &&& n.operands.len() == 1
    &&& n.operands[0] is StringRef
    &&& n.operands[0]->StringRef_0 < g.string_table.len()
    &&& g.string_table[n.operands[0]->StringRef_0 as int] == encode_utf8(s)
}

/// A node that is a function of these parameters and this body.
pub open spec fn function_stands(
    g: GraphView,
    slots: Map<Seq<char>, u32>,
    n: NodeView,
    params: Seq<ParamView>,
    body: Seq<Ast>,
) -> bool
    decreases body, 1int,
{
    &&& n.op == OpCode::Define
    &&& n.operands.len() == params.len() + body.len()
    &&& forall|i: int|
        0 <= i < params.len() ==> names(slots, n.operands[i], (#[trigger] params[i]).name)
    &&& each_stands(g, slots, n.operands.skip(params.len() as int), body)
}

/// The node of a graph stands for the tree.
pub open spec fn stands(
    g: GraphView,
    slots: Map<Seq<char>, u32>,
    id: u32,
    a: Ast,
) -> bool
    decreases a, 0int,
{
    let n = g.nodes[id as int];
    let ops = n.operands;
    id < g.nodes.len() && match a {
        Ast::Int(v) => n.op == OpCode::ConstInt && ops == seq![
            Operand::Immediate(ImmValue::Int(v)),
        ],
        Ast::Float(v) => n.op == OpCode::ConstFloat && ops == seq![
            Operand::Immediate(ImmValue::Float(v)),
        ],
        Ast::Bool(v) => n.op == OpCode::ConstBool && ops == seq![
            Operand::Immediate(ImmValue::Bool(v)),
        ],
        Ast::Null => n.op == OpCode::ConstNull,
        Ast::Str(s) => holds_text(g, n, s),
        Ast::Ident(name) => n.op == OpCode::LoadVar && ops.len() == 1 && names(slots, ops[0], name),
        Ast::Bind { name, value, .. } => n.op == OpCode::StoreVar && ops.len() == 2 && names(
            slots,
            ops[0],
            name,
        ) && ref_stands(g, slots, ops[1], *value),
        Ast::Assign { name, value } => n.op == OpCode::StoreVar && ops.len() == 2 && names(
            slots,
            ops[0],
            name,
        ) && ref_stands(g, slots, ops[1], *value),
        Ast::Op { op, args } => code_means(n.op, op) && each_stands(g, slots, ops, args),
        Ast::If { cond, then_branch, else_branch } => {
            &&& n.op == OpCode::Branch && ops.len() == 3
            &&& n.weights.len() == 2 && n.weights[0].bits == 0x3FE0_0000_0000_0000
                && n.weights[1].bits == 0x3FE0_0000_0000_0000
            &&& ref_stands(g, slots, ops[0], *cond)
            &&& ref_stands(g, slots, ops[1], *then_branch)
            &&& match else_branch {
                Some(b) => ref_stands(g, slots, ops[2], *b),
                None => ops[2] is NodeRef && ops[2]->NodeRef_0 < g.nodes.len()
                    && g.nodes[ops[2]->NodeRef_0 as int].op == OpCode::ConstNull,
            }
        },
        Ast::While { cond, body } => n.op == OpCode::Loop && ops.len() >= 1 && ref_stands(
            g,
            slots,
            ops[0],
            *cond,
        ) && each_stands(g, slots, ops.skip(1), body),
        Ast::Repeat { count, body } => n.op == OpCode::Repeat && ops.len() >= 1 && ref_stands(
            g,
            slots,
            ops[0],
            *count,
        ) && each_stands(g, slots, ops.skip(1), body),
        Ast::ForEach { var, iterable, body } => n.op == OpCode::ForEach && ops.len() >= 2
            && ref_stands(g, slots, ops[0], *iterable) && names(slots, ops[1], var) && each_stands(
            g,
            slots,
            ops.skip(2),
            body,
        ),
        Ast::Fn { name, params, body, .. } => match name {
            None => function_stands(g, slots, n, params, body),
            Some(x) => {
                &&& n.op == OpCode::StoreVar && ops.len() == 2
                &&& names(slots, ops[0], x)
                &&& ops[1] is NodeRef && ops[1]->NodeRef_0 < g.nodes.len()
                &&& function_stands(g, slots, g.nodes[ops[1]->NodeRef_0 as int], params, body)
            },
        },
        Ast::Call { callee, args } => n.op == OpCode::Call && ops.len() >= 1 && ref_stands(
            g,
            slots,
            ops[0],
            *callee,
        ) && each_stands(g, slots, ops.skip(1), args),
        Ast::Return(inner) => n.op == OpCode::Return && ops.len() == 1 && ref_stands(
            g,
            slots,
            ops[0],
            *inner,
        ),
        Ast::Block(items) => n.op == OpCode::Sequence && each_stands(g, slots, ops, items),
        Ast::Array(items) => n.op == OpCode::Array && each_stands(g, slots, ops, items),
        Ast::Index { object, index } => n.op == OpCode::Index && ops.len() == 2 && ref_stands(
            g,
            slots,
            ops[0],
            *object,
        ) && ref_stands(g, slots, ops[1], *index),
        Ast::Range { start, end } => n.op == OpCode::Range && ops.len() == 2 && ref_stands(
            g,
            slots,
            ops[0],
            *start,
        ) && ref_stands(g, slots, ops[1], *end),
        Ast::Pipe { kind, data, func, init } => {
            &&& n.op == (match kind {
                PipeKind::Pipe => OpCode::Pipe,
                PipeKind::Filter => OpCode::Filter,
                PipeKind::MapEach => OpCode::MapEach,
                PipeKind::Reduce => OpCode::Reduce,
            })
            &&& ops.len() >= 2
            &&& ref_stands(g, slots, ops[0], *data)
            &&& ref_stands(g, slots, ops[1], *func)
            &&& match init {
                Some(i) => ops.len() == 3 && ref_stands(g, slots, ops[2], *i),
                None => ops.len() == 2,
            }
        },
        Ast::Adapt { target, body } => n.op == OpCode::Adapt && ops.len() >= 1 && names(
            slots,
            ops[0],
            target,
        ) && each_stands(g, slots, ops.skip(1), body),
        Ast::Choice { options } => {
            &&& n.op == OpCode::AdaptiveChoice
            &&& each_stands(g, slots, ops, options)
            &&& even_weights(n.weights, options.len())
            &&& n.weights.len() == options.len()
        },
        Ast::Strategy { options } => {
            &&& n.op == OpCode::Strategy
            &&& n.contract == Contract::WithinTolerance
            &&& each_stands(g, slots, ops, options)
            &&& even_weights(n.weights, options.len())
            &&& n.weights.len() == options.len() + 1
            &&& n.weights.last().bits == 0x3EB0_C6F7_A0B5_ED8D
        },
        Ast::Guard { assumption, fast_path, fallback } => {
            &&& n.op == OpCode::Guard && ops.len() == 3
            &&& ref_stands(g, slots, ops[0], *assumption)
            &&& ref_stands(g, slots, ops[1], *fast_path)
            &&& ref_stands(g, slots, ops[2], *fallback)
        },
        Ast::Feedback { target, reward } => {
            &&& n.op == OpCode::Feedback && ops.len() == 2
            &&& ref_stands(g, slots, ops[0], *target) || (*target is Ident && was_bound(
                g,
                slots,
                (*target)->Ident_0,
                ops[0],
            ))
            &&& ref_stands(g, slots, ops[1], *reward)
        },
        Ast::Builtin { name, args } => if name == "lambert"@ {
            &&& n.op == OpCode::Capability && ops.len() >= 1
            &&& ops[0] is NodeRef && ops[0]->NodeRef_0 < g.nodes.len()
            &&& holds_text(g, g.nodes[ops[0]->NodeRef_0 as int], "astro.lambertSolve"@)
            &&& each_stands(g, slots, ops.skip(1), args)
        } else {
            n.op == builtin_op(name) && each_stands(g, slots, ops, args)
        },
    }
}

/// The first weights are all the same share.
pub open spec fn even_weights(w: Seq<Real>, n: nat) -> bool {
    n <= w.len() && forall|i: int|
        0 <= i < n ==> (#[trigger] w[i]).bits == nearest_share_bits(
            if n <= SHARE_LIMIT {
                n
            } else {
                SHARE_LIMIT as nat
            },
        ) as u64
}

/// Some node binds the name to the value of this operand.
pub open spec fn was_bound(
    g: GraphView,
    slots: Map<Seq<char>, u32>,
    name: Seq<char>,
    value: Operand,
) -> bool {
    slots.contains_key(name) && exists|i: int|
        0 <= i < g.nodes.len() && (#[trigger] g.nodes[i]).op == OpCode::StoreVar
            && g.nodes[i].operands == seq![Operand::VarSlot(slots[name]), value]
}

/// Everything that was there is still there, as it was.
pub open spec fn extends(a: Compiling, b: Compiling) -> bool {
    &&& a.graph.nodes.len() <= b.graph.nodes.len()
    &&& forall|i: int|
        0 <= i < a.graph.nodes.len() ==> #[trigger] b.graph.nodes[i] == a.graph.nodes[i]
    &&& a.graph.string_table.len() <= b.graph.string_table.len()
    &&& forall|i: int|
        0 <= i < a.graph.string_table.len() ==> #[trigger] b.graph.string_table[i]
            == a.graph.string_table[i]
    &&& forall|k: Seq<char>| #[trigger]
        a.slots.contains_key(k) ==> b.slots.contains_key(k) && b.slots[k] == a.slots[k]
}

/// Every name that was bound is bound by a node.
pub open spec fn bound_well(c: Compiling) -> bool {
    forall|k: Seq<char>| #[trigger]
        c.producers.contains_key(k) ==> was_bound(
            c.graph,
            c.slots,
            k,
            Operand::NodeRef(c.producers[k]),
        )
}

proof fn bound_stays(a: Compiling, b: Compiling)
    requires
        extends(a, b),
        bound_well(a),
        b.producers == a.producers,
    ensures
        bound_well(b),
{
    assert forall|k: Seq<char>| #[trigger] b.producers.contains_key(k) implies was_bound(
        b.graph,
        b.slots,
        k,
        Operand::NodeRef(b.producers[k]),
    ) by {
        assert(a.producers.contains_key(k));
        was_bound_stays(a, b, k, Operand::NodeRef(a.producers[k]));
    }
}

proof fn was_bound_stays(a: Compiling, b: Compiling, k: Seq<char>, v: Operand)
    requires
        extends(a, b),
        was_bound(a.graph, a.slots, k, v),
    ensures
        was_bound(b.graph, b.slots, k, v),
{
    let i = choose|i: int|
        0 <= i < a.graph.nodes.len() && (#[trigger] a.graph.nodes[i]).op == OpCode::StoreVar
            && a.graph.nodes[i].operands == seq![Operand::VarSlot(a.slots[k]), v];
    assert(a.slots.contains_key(k));
    assert(b.graph.nodes[i] == a.graph.nodes[i]);
}

proof fn extends_on(a: Compiling, b: Compiling, c: Compiling)
    requires
        extends(a, b),
        extends(b, c),
    ensures
        extends(a, c),
{
    assert forall|i: int| 0 <= i < a.graph.nodes.len() implies #[trigger] c.graph.nodes[i]
        == a.graph.nodes[i] by {
        assert(b.graph.nodes[i] == a.graph.nodes[i]);
    }
    assert forall|i: int| 0 <= i < a.graph.string_table.len() implies #[trigger] c.graph.string_table[i]
        == a.graph.string_table[i] by {
        assert(b.graph.string_table[i] == a.graph.string_table[i]);
    }
}

/// What stands keeps standing.
proof fn stands_on(a: Compiling, b: Compiling, id: u32, t: Ast)
    requires
        extends(a, b),
        stands(a.graph, a.slots, id, t),
    ensures
        stands(b.graph, b.slots, id, t),
    decreases t, 0int,
{
    let n = a.graph.nodes[id as int];
    assert(b.graph.nodes[id as int] == n);
    let ops = n.operands;
    match t {
        Ast::Bind { value, .. } => ref_on(a, b, ops[1], *value),
        Ast::Assign { value, .. } => ref_on(a, b, ops[1], *value),
        Ast::Op { args, .. } => each_on(a, b, ops, args),
        Ast::If { cond, then_branch, else_branch } => {
            ref_on(a, b, ops[0], *cond);
            ref_on(a, b, ops[1], *then_branch);
            match else_branch {
                Some(x) => ref_on(a, b, ops[2], *x),
                None => {
                    let k = ops[2]->NodeRef_0;
                    assert(b.graph.nodes[k as int] == a.graph.nodes[k as int]);
                },
            }
        },
        Ast::While { cond, body } => {
            ref_on(a, b, ops[0], *cond);
            each_on(a, b, ops.skip(1), body);
        },
        Ast::Repeat { count, body } => {
            ref_on(a, b, ops[0], *count);
            each_on(a, b, ops.skip(1), body);
        },
        Ast::ForEach { iterable, body, .. } => {
            ref_on(a, b, ops[0], *iterable);
            each_on(a, b, ops.skip(2), body);
        },
        Ast::Fn { name, params, body, .. } => match name {
            None => each_on(a, b, ops.skip(params.len() as int), body),
            Some(x) => {
                let f = ops[1]->NodeRef_0 as int;
                assert(b.graph.nodes[f] == a.graph.nodes[f]);
                each_on(a, b, a.graph.nodes[f].operands.skip(params.len() as int), body);
            },
        },
        Ast::Call { callee, args } => {
            ref_on(a, b, ops[0], *callee);
            each_on(a, b, ops.skip(1), args);
        },
        Ast::Return(inner) => ref_on(a, b, ops[0], *inner),
        Ast::Block(items) => each_on(a, b, ops, items),
        Ast::Array(items) => each_on(a, b, ops, items),
        Ast::Index { object, index } => {
            ref_on(a, b, ops[0], *object);
            ref_on(a, b, ops[1], *index);
        },
        Ast::Range { start, end } => {
            ref_on(a, b, ops[0], *start);
            ref_on(a, b, ops[1], *end);
        },
        Ast::Pipe { data, func, init, .. } => {
            ref_on(a, b, ops[0], *data);
            ref_on(a, b, ops[1], *func);
            if let Some(i) = init {
                ref_on(a, b, ops[2], *i);
            }
        },
        Ast::Adapt { body, .. } => each_on(a, b, ops.skip(1), body),
        Ast::Choice { options } => each_on(a, b, ops, options),
        Ast::Strategy { options } => each_on(a, b, ops, options),
        Ast::Guard { assumption, fast_path, fallback } => {
            ref_on(a, b, ops[0], *assumption);
            ref_on(a, b, ops[1], *fast_path);
            ref_on(a, b, ops[2], *fallback);
        },
        Ast::Feedback { target, reward } => {
            if ref_stands(a.graph, a.slots, ops[0], *target) {
                ref_on(a, b, ops[0], *target);
            } else {
                was_bound_stays(a, b, (*target)->Ident_0, ops[0]);
            }
            ref_on(a, b, ops[1], *reward);
        },
        Ast::Builtin { name, args } => {
            if name == "lambert"@ {
                let k = ops[0]->NodeRef_0 as int;
                assert(b.graph.nodes[k] == a.graph.nodes[k]);
                each_on(a, b, ops.skip(1), args);
            } else {
                each_on(a, b, ops, args);
            }
        },
        _ => {},
    }
}

proof fn ref_on(a: Compiling, b: Compiling, op: Operand, t: Ast)
    requires
        extends(a, b),
        ref_stands(a.graph, a.slots, op, t),
    ensures
        ref_stands(b.graph, b.slots, op, t),
    decreases t, 1int,
{
    stands_on(a, b, op->NodeRef_0, t);
}

proof fn each_on(a: Compiling, b: Compiling, ops: Seq<Operand>, s: Seq<Ast>)
    requires
        extends(a, b),
        each_stands(a.graph, a.slots, ops, s),
    ensures
        each_stands(b.graph, b.slots, ops, s),
    decreases s, 0int,
{
    if s.len() > 0 {
        each_on(a, b, ops.drop_last(), s.drop_last());
        ref_on(a, b, ops.last(), s.last());
    }
}

/// What compiling a tree comes to, as long as ids stay within their type.
spec fn compiled_well(c: Compiling, r: (Compiling, u32), a: Ast) -> bool {
    &&& grows(c, r.0)
    &&& within(r.0) ==> extends(c, r.0)
    &&& within(r.0) && bound_well(c) ==> bound_well(r.0) && stands(
        r.0.graph,
        r.0.slots,
        r.1,
        a,
    )
}

spec fn all_compiled_well(c: Compiling, r: (Compiling, Seq<u32>), s: Seq<Ast>) -> bool {
    &&& grows(c, r.0)
    &&& r.1.len() == s.len()
    &&& within(r.0) ==> extends(c, r.0)
    &&& within(r.0) && bound_well(c) ==> bound_well(r.0) && each_stands(
        r.0.graph,
        r.0.slots,
        refs(r.1),
        s,
    )
}

proof fn put_extends(c: Compiling, op: OpCode, ops: Seq<Operand>)
    ensures
        grows(c, c.put(op, ops).0),
        extends(c, c.put(op, ops).0),
        c.put(op, ops).0.slots == c.slots,
        c.put(op, ops).0.producers == c.producers,
        bound_well(c) ==> bound_well(c.put(op, ops).0),
        within(c.put(op, ops).0) ==> c.put(op, ops).1 == c.graph.nodes.len(),
        c.put(op, ops).0.graph.nodes.len() == c.graph.nodes.len() + 1,
        c.put(op, ops).0.graph.nodes[c.graph.nodes.len() as int].op == op,
        c.put(op, ops).0.graph.nodes[c.graph.nodes.len() as int].operands == ops,
        within(c.put(op, ops).0) ==> within(c),
{
    if bound_well(c) {
        bound_stays(c, c.put(op, ops).0);
    }
}

proof fn slot_extends(c: Compiling, name: Seq<char>)
    ensures
        extends(c, c.slot(name).0),
        c.slot(name).0.graph == c.graph,
        c.slot(name).0.producers == c.producers,
        bound_well(c) ==> bound_well(c.slot(name).0),
        names(c.slot(name).0.slots, Operand::VarSlot(c.slot(name).1), name),
        within(c.slot(name).0) == within(c),
{
    if bound_well(c) {
        bound_stays(c, c.slot(name).0);
    }
}

proof fn text_extends(c: Compiling, s: Seq<char>)
    ensures
        extends(c, c.text(s).0),
        bound_well(c) ==> bound_well(c.text(s).0),
        c.text(s).0.slots == c.slots,
        c.text(s).0.graph.nodes == c.graph.nodes,
        c.text(s).0.graph.string_table.len() == c.graph.string_table.len() + 1,
        within(c.text(s).0) ==> c.text(s).1 < c.text(s).0.graph.string_table.len()
            && c.text(s).0.graph.string_table[c.text(s).1 as int] == encode_utf8(s),
{
    if bound_well(c) {
        bound_stays(c, c.text(s).0);
    }
}

proof fn refs_join(a: Seq<Operand>, ids: Seq<u32>)
    ensures
        (a + refs(ids)).skip(a.len() as int) == refs(ids),
        (a + refs(ids)).len() == a.len() + ids.len(),
        forall|i: int| 0 <= i < a.len() ==> (a + refs(ids))[i] == a[i],
{
    assert((a + refs(ids)).skip(a.len() as int) =~= refs(ids));
}

proof fn all_stand(c: Compiling, s: Seq<Ast>)
    ensures
        all_compiled_well(c, comp_all(c, s), s),
    decreases s, 0int,
{
    if s.len() > 0 {
        let (c1, ids) = comp_all(c, s.drop_last());
        let (c2, id) = comp(c1, s.last());
        all_stand(c, s.drop_last());
        one_stands(c1, s.last());
        assert(refs(ids.push(id)).drop_last() =~= refs(ids));
        assert(refs(ids.push(id)).last() == Operand::NodeRef(id));
        if within(c2) {
            extends_on(c, c1, c2);
            if bound_well(c) {
                each_on(c1, c2, refs(ids), s.drop_last());
                assert(ref_stands(c2.graph, c2.slots, Operand::NodeRef(id), s.last()));
                assert(refs(ids.push(id)).len() == s.len());
                assert(each_stands(c2.graph, c2.slots, refs(ids.push(id)), s));
            }
        }
    } else {
        assert(refs(Seq::<u32>::empty()).len() == 0);
        assert(each_stands(c.graph, c.slots, refs(Seq::<u32>::empty()), s));
    }
}

proof fn one_stands(c: Compiling, a: Ast)
    ensures
        compiled_well(c, comp(c, a), a),
    decreases a, 1int,
{
    match a {
        Ast::Int(_) | Ast::Float(_) | Ast::Bool(_) | Ast::Null | Ast::Str(_) | Ast::Ident(_) => {
            leaf_stands(c, a);
        },
        Ast::Bind { .. } | Ast::Assign { .. } => store_stands(c, a),
        Ast::Op { .. } | Ast::Block(_) | Ast::Array(_) => list_stands(c, a),
        Ast::Choice { .. } | Ast::Strategy { .. } => options_stand(c, a),
        Ast::If { .. } => if_stands(c, a),
        Ast::While { .. } | Ast::Repeat { .. } => loop_stands(c, a),
        Ast::ForEach { .. } => each_loop_stands(c, a),
        Ast::Call { .. } => call_stands(c, a),
        Ast::Adapt { .. } => adapt_stands(c, a),
        Ast::Return(_) => return_stands(c, a),
        Ast::Fn { .. } => fn_stands(c, a),
        Ast::Index { .. } | Ast::Range { .. } => pair_stands(c, a),
        Ast::Pipe { .. } => pipe_stands(c, a),
        Ast::Guard { .. } => guard_stands(c, a),
        Ast::Feedback { .. } => feedback_stands(c, a),
        Ast::Builtin { .. } => builtin_stands(c, a),
    }
}

proof fn leaf_stands(c: Compiling, a: Ast)
    requires
        a is Int || a is Float || a is Bool || a is Null || a is Str || a is Ident,
    ensures
        compiled_well(c, comp_form(c, a), a),
{
    match a {
        Ast::Int(n) => put_extends(
            c,
            OpCode::ConstInt,
            seq![Operand::Immediate(ImmValue::Int(n))],
        ),
        Ast::Float(f) => put_extends(
            c,
            OpCode::ConstFloat,
            seq![Operand::Immediate(ImmValue::Float(f))],
        ),
        Ast::Bool(b) => put_extends(
            c,
            OpCode::ConstBool,
            seq![Operand::Immediate(ImmValue::Bool(b))],
        ),
        Ast::Null => put_extends(
            c,
            OpCode::ConstNull,
            seq![Operand::Immediate(ImmValue::Null)],
        ),
        Ast::Str(s) => {
            let (c1, i) = c.text(s);
            text_extends(c, s);
            put_extends(c1, OpCode::ConstStr, seq![Operand::StringRef(i)]);
            extends_on(c, c1, c1.put(OpCode::ConstStr, seq![Operand::StringRef(i)]).0);
        },
        Ast::Ident(name) => {
            let (c1, slot) = c.slot(name);
            slot_extends(c, name);
            put_extends(c1, OpCode::LoadVar, seq![Operand::VarSlot(slot)]);
            extends_on(c, c1, c1.put(OpCode::LoadVar, seq![Operand::VarSlot(slot)]).0);
        },
        _ => {},
    }
}

proof fn store_stands(c: Compiling, a: Ast)
    requires
        a is Bind || a is Assign,
    ensures
        compiled_well(c, comp_form(c, a), a),
    decreases a, 0int,
{
    let (name, value) = match a {
        Ast::Bind { name, value, .. } => (name, value),
        Ast::Assign { name, value } => (name, value),
        _ => (Seq::empty(), Box::new(a)),
    };
    let (c1, v) = comp(c, *value);
    one_stands(c, *value);
    let (c2, slot) = c1.slot(name);
    slot_extends(c1, name);
    let c3 = if a is Bind {
        Compiling { producers: c2.producers.insert(name, v), ..c2 }
    } else {
        c2
    };
    let ops = seq![Operand::VarSlot(slot), node_ref(v)];
    let (c4, id) = c3.put(OpCode::StoreVar, ops);
    put_extends(c3, OpCode::StoreVar, ops);
    put_extends(c2, OpCode::StoreVar, ops);
    assert(extends(c2, c4));
    extends_on(c1, c2, c4);
    if within(c4) {
        extends_on(c, c1, c4);
        if bound_well(c) {
            let plain = c2.put(OpCode::StoreVar, ops).0;
            assert(bound_well(plain));
            assert forall|k: Seq<char>| #[trigger] c4.producers.contains_key(k) implies was_bound(
                c4.graph,
                c4.slots,
                k,
                Operand::NodeRef(c4.producers[k]),
            ) by {
                if a is Bind && k == name {
                    let i = c3.graph.nodes.len() as int;
                    assert(c4.graph.nodes[i].operands == ops);
                } else {
                    assert(plain.producers.contains_key(k));
                    was_bound_stays(plain, c4, k, Operand::NodeRef(plain.producers[k]));
                }
            }
            stands_on(c1, c4, v, *value);
        }
    }
}

proof fn list_stands(c: Compiling, a: Ast)
    requires
        a is Op || a is Block || a is Array,
    ensures
        compiled_well(c, comp_form(c, a), a),
    decreases a, 0int,
{
    let s = match a {
        Ast::Op { op, args } => args,
        Ast::Block(items) => items,
        Ast::Array(items) => items,
        _ => Seq::empty(),
    };
    let code = match a {
        Ast::Op { op, args } => arith_op(op),
        Ast::Block(_) => OpCode::Sequence,
        _ => OpCode::Array,
    };
    let (c1, ids) = comp_all(c, s);
    all_stand(c, s);
    let (c2, id) = c1.put(code, refs(ids));
    put_extends(c1, code, refs(ids));
    if let Ast::Op { op, args } = a {
        operators_mean_what_they_say(op);
    }
    if within(c2) {
        extends_on(c, c1, c2);
        if bound_well(c) {
            each_on(c1, c2, refs(ids), s);
        }
    }
}

proof fn options_stand(c: Compiling, a: Ast)
    requires
        a is Choice || a is Strategy,
    ensures
        compiled_well(c, comp_form(c, a), a),
    decreases a, 0int,
{
    let s = match a {
        Ast::Choice { options } => options,
        Ast::Strategy { options } => options,
        _ => Seq::empty(),
    };
    let code = if a is Choice {
        OpCode::AdaptiveChoice
    } else {
        OpCode::Strategy
    };
    let (c1, ids) = comp_all(c, s);
    all_stand(c, s);
    let (c2, id) = c1.put(code, refs(ids));
    put_extends(c1, code, refs(ids));
    let c3 = comp_form(c, a).0;
    assert(c3.slots == c2.slots && c3.producers == c2.producers);
    if within(c3) {
        assert(extends(c1, c3));
        extends_on(c, c1, c3);
        if bound_well(c) {
            bound_stays(c1, c3);
            each_on(c1, c3, refs(ids), s);
        }
    }
}

proof fn if_stands(c: Compiling, a: Ast)
    requires
        a is If,
    ensures
        compiled_well(c, comp_form(c, a), a),
    decreases a, 0int,
{
    if let Ast::If { cond, then_branch, else_branch } = a {
        let (c1, x) = comp(c, *cond);
        one_stands(c, *cond);
        let (c2, t) = comp(c1, *then_branch);
        one_stands(c1, *then_branch);
        let nothing = seq![Operand::Immediate(ImmValue::Null)];
        let (c3, e) = match else_branch {
            Some(b) => comp(c2, *b),
            None => c2.put(OpCode::ConstNull, nothing),
        };
        match else_branch {
            Some(b) => one_stands(c2, *b),
            None => put_extends(c2, OpCode::ConstNull, nothing),
        }
        let ops = seq![node_ref(x), node_ref(t), node_ref(e)];
        put_extends(c3, OpCode::Branch, ops);
        let (c4, b) = c3.put(OpCode::Branch, ops);
        let c5 = comp_branch(c3, x, t, e).0;
        assert(c5.slots == c3.slots && c5.producers == c3.producers);
        assert(grows(c3, c5));
        if within(c5) {
            assert(extends(c3, c5));
            extends_on(c2, c3, c5);
            extends_on(c1, c2, c5);
            extends_on(c, c1, c5);
            if bound_well(c) {
                bound_stays(c3, c5);
                stands_on(c1, c5, x, *cond);
                stands_on(c2, c5, t, *then_branch);
                match else_branch {
                    Some(b) => stands_on(c3, c5, e, *b),
                    None => {
                        assert(c5.graph.nodes[e as int] == c3.graph.nodes[e as int]);
                    },
                }
                assert(ref_stands(c5.graph, c5.slots, ops[0], *cond));
                assert(ref_stands(c5.graph, c5.slots, ops[1], *then_branch));
            }
        }
    }
}

proof fn loop_stands(c: Compiling, a: Ast)
    requires
        a is While || a is Repeat,
    ensures
        compiled_well(c, comp_form(c, a), a),
    decreases a, 0int,
{
    let (head, body) = match a {
        Ast::While { cond, body } => (cond, body),
        Ast::Repeat { count, body } => (count, body),
        _ => (Box::new(a), Seq::empty()),
    };
    let code = if a is While {
        OpCode::Loop
    } else {
        OpCode::Repeat
    };
    let (c1, x) = comp(c, *head);
    one_stands(c, *head);
    let (c2, ids) = comp_all(c1, body);
    all_stand(c1, body);
    let ops = seq![node_ref(x)] + refs(ids);
    refs_join(seq![node_ref(x)], ids);
    let (c3, id) = c2.put(code, ops);
    put_extends(c2, code, ops);
    if within(c3) {
        extends_on(c1, c2, c3);
        extends_on(c, c1, c3);
        if bound_well(c) {
            stands_on(c1, c3, x, *head);
            each_on(c2, c3, refs(ids), body);
            assert(ref_stands(c3.graph, c3.slots, ops[0], *head));
        }
    }
}

proof fn each_loop_stands(c: Compiling, a: Ast)
    requires
        a is ForEach,
    ensures
        compiled_well(c, comp_form(c, a), a),
    decreases a, 0int,
{
    if let Ast::ForEach { var, iterable, body } = a {
        let (c1, x) = comp(c, *iterable);
        one_stands(c, *iterable);
        let (c2, slot) = c1.slot(var);
        slot_extends(c1, var);
        let (c3, ids) = comp_all(c2, body);
        all_stand(c2, body);
        let head = seq![node_ref(x), Operand::VarSlot(slot)];
        let ops = head + refs(ids);
        refs_join(head, ids);
        let (c4, id) = c3.put(OpCode::ForEach, ops);
        put_extends(c3, OpCode::ForEach, ops);
        if within(c4) {
            extends_on(c2, c3, c4);
            extends_on(c1, c2, c4);
            extends_on(c, c1, c4);
            if bound_well(c) {
                stands_on(c1, c4, x, *iterable);
                each_on(c3, c4, refs(ids), body);
                assert(ref_stands(c4.graph, c4.slots, ops[0], *iterable));
                assert(ops[1] == Operand::VarSlot(slot));
            }
        }
    }
}

proof fn call_stands(c: Compiling, a: Ast)
    requires
        a is Call,
    ensures
        compiled_well(c, comp_form(c, a), a),
    decreases a, 0int,
{
    if let Ast::Call { callee, args } = a {
        let (c1, f) = comp(c, *callee);
        one_stands(c, *callee);
        let (c2, ids) = comp_all(c1, args);
        all_stand(c1, args);
        let ops = seq![node_ref(f)] + refs(ids);
        refs_join(seq![node_ref(f)], ids);
        let (c3, id) = c2.put(OpCode::Call, ops);
        put_extends(c2, OpCode::Call, ops);
        if within(c3) {
            extends_on(c1, c2, c3);
            extends_on(c, c1, c3);
            if bound_well(c) {
                stands_on(c1, c3, f, *callee);
                each_on(c2, c3, refs(ids), args);
                assert(ref_stands(c3.graph, c3.slots, ops[0], *callee));
            }
        }
    }
}

proof fn adapt_stands(c: Compiling, a: Ast)
    requires
        a is Adapt,
    ensures
        compiled_well(c, comp_form(c, a), a),
    decreases a, 0int,
{
    if let Ast::Adapt { target, body } = a {
        let (c1, ids) = comp_all(c, body);
        all_stand(c, body);
        let (c2, slot) = c1.slot(target);
        slot_extends(c1, target);
        let ops = seq![Operand::VarSlot(slot)] + refs(ids);
        refs_join(seq![Operand::VarSlot(slot)], ids);
        let (c3, id) = c2.put(OpCode::Adapt, ops);
        put_extends(c2, OpCode::Adapt, ops);
        if within(c3) {
            extends_on(c1, c2, c3);
            extends_on(c, c1, c3);
            if bound_well(c) {
                each_on(c1, c3, refs(ids), body);
                assert(ops[0] == Operand::VarSlot(slot));
            }
        }
    }
}

proof fn return_stands(c: Compiling, a: Ast)
    requires
        a is Return,
    ensures
        compiled_well(c, comp_form(c, a), a),
    decreases a, 0int,
{
    if let Ast::Return(inner) = a {
        let (c1, v) = comp(c, *inner);
        one_stands(c, *inner);
        let ops = seq![node_ref(v)];
        let (c2, id) = c1.put(OpCode::Return, ops);
        put_extends(c1, OpCode::Return, ops);
        if within(c2) {
            extends_on(c, c1, c2);
            if bound_well(c) {
                stands_on(c1, c2, v, *inner);
                assert(ref_stands(c2.graph, c2.slots, ops[0], *inner));
            }
        }
    }
}

proof fn params_stand(c: Compiling, params: Seq<ParamView>)
    ensures
        ({
            let (d, ops) = comp_params(c, params);
            &&& extends(c, d)
            &&& d.graph == c.graph
            &&& d.producers == c.producers
            &&& ops.len() == params.len()
            &&& forall|i: int|
                0 <= i < params.len() ==> names(d.slots, ops[i], (#[trigger] params[i]).name)
        }),
    decreases params.len(),
{
    if params.len() > 0 {
        let (c1, ops) = comp_params(c, params.drop_last());
        params_stand(c, params.drop_last());
        let (c2, slot) = c1.slot(params.last().name);
        slot_extends(c1, params.last().name);
        extends_on(c, c1, c2);
        let (d, all) = comp_params(c, params);
        assert forall|i: int| 0 <= i < params.len() implies names(
            d.slots,
            all[i],
            (#[trigger] params[i]).name,
        ) by {
            if i < params.len() - 1 {
                assert(params.drop_last()[i] == params[i]);
                assert(all[i] == ops[i]);
            }
        }
    }
}

proof fn fn_stands(c: Compiling, a: Ast)
    requires
        a is Fn,
    ensures
        compiled_well(c, comp_form(c, a), a),
    decreases a, 0int,
{
    if let Ast::Fn { name, params, ret, body, stateful } = a {
        let (c1, ids) = comp_all(c, body);
        all_stand(c, body);
        let (c2, slots) = comp_params(c1, params);
        params_stand(c1, params);
        let ops = slots + refs(ids);
        refs_join(slots, ids);
        let (c3, f) = c2.put(OpCode::Define, ops);
        put_extends(c2, OpCode::Define, ops);
        let d = comp_form(c, a).0;
        let id = comp_form(c, a).1;
        if let Some(n) = name {
            let (c4, slot) = c3.slot(n);
            slot_extends(c3, n);
            put_extends(
                c4,
                OpCode::StoreVar,
                seq![Operand::VarSlot(slot), node_ref(f)],
            );
            extends_on(c3, c4, d);
        }
        if within(d) {
            extends_on(c2, c3, d);
            extends_on(c1, c2, d);
            extends_on(c, c1, d);
            if bound_well(c) {
                bound_stays(c1, d);
                each_on(c1, d, refs(ids), body);
                let node = d.graph.nodes[f as int];
                assert(node == c3.graph.nodes[f as int]);
                assert forall|i: int| 0 <= i < params.len() implies names(
                    d.slots,
                    node.operands[i],
                    (#[trigger] params[i]).name,
                ) by {
                    assert(names(c2.slots, slots[i], params[i].name));
                }
                assert(function_stands(d.graph, d.slots, node, params, body));
            }
        }
    }
}

proof fn pair_stands(c: Compiling, a: Ast)
    requires
        a is Index || a is Range,
    ensures
        compiled_well(c, comp_form(c, a), a),
    decreases a, 0int,
{
    let (p, q) = match a {
        Ast::Index { object, index } => (object, index),
        Ast::Range { start, end } => (start, end),
        _ => (Box::new(a), Box::new(a)),
    };
    let code = if a is Index {
        OpCode::Index
    } else {
        OpCode::Range
    };
    let (c1, x) = comp(c, *p);
    one_stands(c, *p);
    let (c2, y) = comp(c1, *q);
    one_stands(c1, *q);
    let ops = seq![node_ref(x), node_ref(y)];
    let (c3, id) = c2.put(code, ops);
    put_extends(c2, code, ops);
    if within(c3) {
        extends_on(c1, c2, c3);
        extends_on(c, c1, c3);
        if bound_well(c) {
            stands_on(c1, c3, x, *p);
            stands_on(c2, c3, y, *q);
            assert(ref_stands(c3.graph, c3.slots, ops[0], *p));
            assert(ref_stands(c3.graph, c3.slots, ops[1], *q));
        }
    }
}

proof fn pipe_stands(c: Compiling, a: Ast)
    requires
        a is Pipe,
    ensures
        compiled_well(c, comp_form(c, a), a),
    decreases a, 0int,
{
    if let Ast::Pipe { kind, data, func, init } = a {
        let (c1, x) = comp(c, *data);
        one_stands(c, *data);
        let (c2, y) = comp(c1, *func);
        one_stands(c1, *func);
        let c3 = match init {
            Some(i) => comp(c2, *i).0,
            None => c2,
        };
        let ops = match init {
            Some(i) => seq![node_ref(x), node_ref(y), node_ref(comp(c2, *i).1)],
            None => seq![node_ref(x), node_ref(y)],
        };
        if let Some(i) = init {
            one_stands(c2, *i);
        }
        let (d, id) = c3.put(pipe_op(kind), ops);
        put_extends(c3, pipe_op(kind), ops);
        if within(d) {
            extends_on(c2, c3, d);
            extends_on(c1, c2, d);
            extends_on(c, c1, d);
            if bound_well(c) {
                stands_on(c1, d, x, *data);
                stands_on(c2, d, y, *func);
                assert(ref_stands(d.graph, d.slots, ops[0], *data));
                assert(ref_stands(d.graph, d.slots, ops[1], *func));
                if let Some(i) = init {
                    stands_on(c3, d, comp(c2, *i).1, *i);
                    assert(ref_stands(d.graph, d.slots, ops[2], *i));
                }
            }
        }
    }
}

proof fn guard_stands(c: Compiling, a: Ast)
    requires
        a is Guard,
    ensures
        compiled_well(c, comp_form(c, a), a),
    decreases a, 0int,
{
    if let Ast::Guard { assumption, fast_path, fallback } = a {
        let (c1, x) = comp(c, *assumption);
        one_stands(c, *assumption);
        let (c2, y) = comp(c1, *fast_path);
        one_stands(c1, *fast_path);
        let (c3, z) = comp(c2, *fallback);
        one_stands(c2, *fallback);
        let ops = seq![node_ref(x), node_ref(y), node_ref(z)];
        let (d, id) = c3.put(OpCode::Guard, ops);
        put_extends(c3, OpCode::Guard, ops);
        if within(d) {
            extends_on(c2, c3, d);
            extends_on(c1, c2, d);
            extends_on(c, c1, d);
            if bound_well(c) {
                stands_on(c1, d, x, *assumption);
                stands_on(c2, d, y, *fast_path);
                stands_on(c3, d, z, *fallback);
                assert(ref_stands(d.graph, d.slots, ops[0], *assumption));
                assert(ref_stands(d.graph, d.slots, ops[1], *fast_path));
                assert(ref_stands(d.graph, d.slots, ops[2], *fallback));
            }
        }
    }
}

proof fn feedback_stands(c: Compiling, a: Ast)
    requires
        a is Feedback,
    ensures
        compiled_well(c, comp_form(c, a), a),
    decreases a, 0int,
{
    if let Ast::Feedback { target, reward } = a {
        let known = *target is Ident && c.producers.contains_key((*target)->Ident_0);
        let (c1, t) = if known {
            (c, c.producers[(*target)->Ident_0])
        } else {
            comp(c, *target)
        };
        if !known {
            one_stands(c, *target);
        }
        let (c2, r) = comp(c1, *reward);
        one_stands(c1, *reward);
        let ops = seq![node_ref(t), node_ref(r)];
        let (d, id) = c2.put(OpCode::Feedback, ops);
        put_extends(c2, OpCode::Feedback, ops);
        if within(d) {
            extends_on(c1, c2, d);
            extends_on(c, c1, d);
            if bound_well(c) {
                stands_on(c2, d, r, *reward);
                assert(ref_stands(d.graph, d.slots, ops[1], *reward));
                if known {
                    was_bound_stays(c1, d, (*target)->Ident_0, Operand::NodeRef(t));
                    assert(ops[0] == Operand::NodeRef(t));
                } else {
                    stands_on(c1, d, t, *target);
                    assert(ref_stands(d.graph, d.slots, ops[0], *target));
                }
            }
        }
    }
}

proof fn builtin_stands(c: Compiling, a: Ast)
    requires
        a is Builtin,
    ensures
        compiled_well(c, comp_form(c, a), a),
    decreases a, 0int,
{
    if let Ast::Builtin { name, args } = a {
        if name == "lambert"@ {
            let (c1, i) = c.text("astro.lambertSolve"@);
            text_extends(c, "astro.lambertSolve"@);
            let (c2, n) = c1.put(OpCode::ConstStr, seq![Operand::StringRef(i)]);
            put_extends(c1, OpCode::ConstStr, seq![Operand::StringRef(i)]);
            let (c3, ids) = comp_all(c2, args);
            all_stand(c2, args);
            let ops = seq![node_ref(n)] + refs(ids);
            refs_join(seq![node_ref(n)], ids);
            let (d, id) = c3.put(OpCode::Capability, ops);
            put_extends(c3, OpCode::Capability, ops);
            if within(d) {
                extends_on(c2, c3, d);
                extends_on(c1, c2, d);
                extends_on(c, c1, d);
                if bound_well(c) {
                    each_on(c3, d, refs(ids), args);
                    assert(d.graph.nodes[n as int] == c2.graph.nodes[n as int]);
                    assert(d.graph.string_table[i as int] == c1.graph.string_table[i as int]);
                    assert(ops[0] == Operand::NodeRef(n));
                }
            }
        } else {
            let (c1, ids) = comp_all(c, args);
            all_stand(c, args);
            let (d, id) = c1.put(builtin_op(name), refs(ids));
            put_extends(c1, builtin_op(name), refs(ids));
            if within(d) {
                extends_on(c, c1, d);
                if bound_well(c) {
                    each_on(c1, d, refs(ids), args);
                }
            }
        }
    }
}

/// The graph of a program: its entry runs nodes that stand for the program's
/// trees, one for each and in their order.
pub proof fn programs_are_found_in_their_graphs(nodes: Seq<Ast>)
    requires
        comp_program(nothing_compiled(), nodes).nodes.len() <= u32::MAX,
        comp_program(nothing_compiled(), nodes).string_table.len() <= u32::MAX,
    ensures
        ({
            let g = comp_program(nothing_compiled(), nodes);
            &&& g.entry < g.nodes.len()
            &&& g.nodes[g.entry as int].op == OpCode::Sequence
            &&& exists|slots: Map<Seq<char>, u32>| #[trigger]
                each_stands(g, slots, g.nodes[g.entry as int].operands, nodes)
        }),
{
    let c = nothing_compiled();
    let (c1, ids) = comp_all(c, nodes);
    all_stand(c, nodes);
    let (c2, entry) = c1.put(OpCode::Sequence, refs(ids));
    put_extends(c1, OpCode::Sequence, refs(ids));
    let (c3, halt) = c2.put(OpCode::Halt, Seq::empty());
    put_extends(c2, OpCode::Halt, Seq::empty());
    let c4 = c3.edge(entry, halt, Real { bits: ONE });
    let g = comp_program(c, nodes);
    let d = Compiling { graph: g, ..c4 };
    assert(extends(c3, d));
    extends_on(c2, c3, d);
    extends_on(c1, c2, d);
    assert(bound_well(c));
    each_on(c1, d, refs(ids), nodes);
    assert(g.nodes[g.entry as int] == c2.graph.nodes[entry as int]);
    assert(each_stands(g, c4.slots, g.nodes[g.entry as int].operands, nodes));
}

/// A tree compiled on its own is found in its node, whatever was compiled before,
/// and what was compiled before stays as it was.
pub proof fn trees_are_found_in_their_nodes(c: Compiling, a: Ast)
    requires
        bound_well(c),
        within(comp(c, a).0),
    ensures
        stands(comp(c, a).0.graph, comp(c, a).0.slots, comp(c, a).1, a),
        extends(c, comp(c, a).0),
        bound_well(comp(c, a).0),
{
    one_stands(c, a);
}

/// Names have slots of their own, below the next free one.
pub open spec fn slots_apart(c: Compiling) -> bool {
    &&& forall|k: Seq<char>| #[trigger] c.slots.contains_key(k) ==> c.slots[k] < c.next
    &&& forall|j: Seq<char>, k: Seq<char>|
        #![trigger c.slots[j], c.slots[k]]
        c.slots.contains_key(j) && c.slots.contains_key(k) && j != k ==> c.slots[j] != c.slots[k]
}

/// A name keeps its slot, and different names have different slots, as long as
/// there are fewer names than slots.
pub proof fn names_have_slots_of_their_own(c: Compiling, a: Seq<char>, b: Seq<char>)
    requires
        slots_apart(c),
        c.next < u32::MAX - 1,
    ensures
        slots_apart(c.slot(a).0),
        c.slot(a).0.slot(a) == (c.slot(a).0, c.slot(a).1),
        a != b ==> c.slot(a).0.slot(b).1 != c.slot(a).1,
{
}

/// Feedback on a name goes to the node whose value was bound to it, not to one that
/// only loads it.
pub proof fn feedback_targets_what_was_bound(
    c: Compiling,
    name: Seq<char>,
    mutable: bool,
    ty: Option<crate::ast::Type>,
    value: Ast,
    reward: Ast,
)
    requires
        comp(c, value).0.graph.nodes.len() < u32::MAX,
        ({
            let c1 = comp(
                c,
                Ast::Bind { name, mutable, ty, value: Box::new(value) },
            ).0;
            comp(c1, reward).0.graph.nodes.len() < u32::MAX
        }),
    ensures
        ({
            let (c1, b) = comp(c, Ast::Bind { name, mutable, ty, value: Box::new(value) });
            let (c2, f) = comp(
                c1,
                Ast::Feedback { target: Box::new(Ast::Ident(name)), reward: Box::new(reward) },
            );
            &&& c1.graph.nodes[b as int].operands[1] == Operand::NodeRef(comp(c, value).1)
            &&& c2.graph.nodes[f as int].op == OpCode::Feedback
            &&& c2.graph.nodes[f as int].operands[0] == Operand::NodeRef(comp(c, value).1)
        }),
{
    let bound = Ast::Bind { name, mutable, ty, value: Box::new(value) };
    let (c1, b) = comp(c, bound);
    assert(comp(c, bound) == comp_form(c, bound));
    let fed = Ast::Feedback { target: Box::new(Ast::Ident(name)), reward: Box::new(reward) };
    assert(comp(c1, fed) == comp_form(c1, fed));
    assert(c1.producers.contains_key(name));
}

/// A branch has an edge to each of its paths, the first before the second, both of
/// the same weight.
pub proof fn branches_have_edges_to_their_paths(c: Compiling, x: u32, t: u32, e: u32)
    requires
        c.graph.nodes.len() < u32::MAX,
    ensures
        ({
            let (d, b) = comp_branch(c, x, t, e);
            let n = c.graph.edges.len() as int;
            &&& d.graph.edges.len() == n + 2
            &&& d.graph.edges[n].from == b && d.graph.edges[n].to == t
            &&& d.graph.edges[n + 1].from == b && d.graph.edges[n + 1].to == e
            &&& d.graph.edges[n].weight.bits == 0x3FE0_0000_0000_0000
            &&& d.graph.edges[n + 1].weight == d.graph.edges[n].weight
            &&& d.graph.edges[n].gate is None && d.graph.edges[n + 1].gate is None
        }),
{
}

} // verus!
