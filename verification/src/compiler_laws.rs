//! What every compiled graph keeps to.
use crate::ast::{Ast, ParamView};
use crate::graph::{Contract, GraphView, ImmValue, OpCode, Operand, WeightKind};
use crate::graph_compiler::{Compiling, HALF, TOLERANCE, arith_op, builtin_op, comp, comp_all, comp_branch, comp_form, comp_params, comp_program, node_ref, nothing_compiled, pipe_op, refs, shares};
use crate::number::{ONE, Real};
use vstd::prelude::*;
use vstd::utf8::*;

verus! {

/// An operand of node `i` points at an earlier node or an existing string.
pub open spec fn operand_sound(op: Operand, i: int, strings: nat) -> bool {
    match op {
        Operand::NodeRef(r) => r < i,
        Operand::StringRef(s) => s < strings,
        _ => true,
    }
}

pub open spec fn operands_sound(ops: Seq<Operand>, i: int, strings: nat) -> bool {
    forall|j: int| 0 <= j < ops.len() ==> operand_sound(#[trigger] ops[j], i, strings)
}

/// Each node has its position as id and sound operands; edges join nodes.
pub open spec fn graph_sound(g: GraphView) -> bool {
    &&& forall|i: int| 0 <= i < g.nodes.len() ==> (#[trigger] g.nodes[i]).id == i
    &&& forall|i: int|
        0 <= i < g.nodes.len() ==> operands_sound(
            (#[trigger] g.nodes[i]).operands,
            i,
            g.string_table.len(),
        )
    &&& forall|i: int|
        0 <= i < g.edges.len() ==> (#[trigger] g.edges[i]).from < g.nodes.len() && g.edges[i].to
            < g.nodes.len()
}

pub open spec fn sound(c: Compiling) -> bool {
    &&& graph_sound(c.graph)
    &&& forall|k: Seq<char>|
        c.producers.contains_key(k) ==> (#[trigger] c.producers[k]) < c.graph.nodes.len()
}

/// Ids and indices are within their type.
pub open spec fn within(c: Compiling) -> bool {
    c.graph.nodes.len() <= u32::MAX && c.graph.string_table.len() <= u32::MAX
}

pub open spec fn grows(a: Compiling, b: Compiling) -> bool {
    a.graph.nodes.len() <= b.graph.nodes.len() && a.graph.string_table.len()
        <= b.graph.string_table.len()
}

spec fn good(c: Compiling, r: (Compiling, u32)) -> bool {
    grows(c, r.0) && (sound(c) && within(r.0) ==> sound(r.0) && r.1 < r.0.graph.nodes.len())
}

spec fn ids_below(ids: Seq<u32>, n: nat) -> bool {
    forall|j: int| 0 <= j < ids.len() ==> (#[trigger] ids[j]) < n
}

proof fn put_keeps(c: Compiling, op: OpCode, ops: Seq<Operand>)
    ensures
        c.graph.nodes.len() < c.put(op, ops).0.graph.nodes.len(),
        grows(c, c.put(op, ops).0),
        sound(c) && within(c.put(op, ops).0) && operands_sound(
            ops,
            c.graph.nodes.len() as int,
            c.graph.string_table.len(),
        ) ==> sound(c.put(op, ops).0) && c.put(op, ops).1 == c.graph.nodes.len(),
{
}

proof fn slot_keeps(c: Compiling, name: Seq<char>)
    ensures
        c.slot(name).0.graph == c.graph,
        c.slot(name).0.producers == c.producers,
        sound(c) ==> sound(c.slot(name).0),
{
}

proof fn text_keeps(c: Compiling, s: Seq<char>)
    ensures
        grows(c, c.text(s).0),
        c.text(s).0.graph.string_table.len() == c.graph.string_table.len() + 1,
        sound(c) && within(c.text(s).0) ==> sound(c.text(s).0) && c.text(s).1
            == c.graph.string_table.len(),
{
    let d = c.text(s).0;
    if sound(c) {
        assert forall|i: int| 0 <= i < d.graph.nodes.len() implies operands_sound(
            (#[trigger] d.graph.nodes[i]).operands,
            i,
            d.graph.string_table.len(),
        ) by {
            let ops = c.graph.nodes[i].operands;
            assert(operands_sound(ops, i, c.graph.string_table.len()));
            assert forall|j: int| 0 <= j < ops.len() implies operand_sound(
                #[trigger] ops[j],
                i,
                d.graph.string_table.len(),
            ) by {
                assert(operand_sound(ops[j], i, c.graph.string_table.len()));
            }
        }
    }
}

proof fn weigh_keeps(c: Compiling, id: u32, w: Seq<Real>, k: WeightKind, t: Contract)
    requires
        id < c.graph.nodes.len(),
    ensures
        grows(c, c.weigh(id, w, k, t)),
        c.weigh(id, w, k, t).graph.nodes.len() == c.graph.nodes.len(),
        within(c) == within(c.weigh(id, w, k, t)),
        sound(c) ==> sound(c.weigh(id, w, k, t)),
{
    let d = c.weigh(id, w, k, t);
    if sound(c) {
        assert forall|i: int| 0 <= i < d.graph.nodes.len() implies operands_sound(
            (#[trigger] d.graph.nodes[i]).operands,
            i,
            d.graph.string_table.len(),
        ) by {
            assert(d.graph.nodes[i].operands == c.graph.nodes[i].operands);
        }
    }
}

/// References below the node count are sound operands.
proof fn refs_sound(ids: Seq<u32>, n: nat, strings: nat)
    requires
        ids_below(ids, n),
    ensures
        operands_sound(refs(ids), n as int, strings),
{
}

proof fn all_keeps(c: Compiling, s: Seq<Ast>)
    ensures
        grows(c, comp_all(c, s).0),
        sound(c) && within(comp_all(c, s).0) ==> sound(comp_all(c, s).0) && ids_below(
            comp_all(c, s).1,
            comp_all(c, s).0.graph.nodes.len(),
        ),
    decreases s, 0int,
{
    if s.len() > 0 {
        all_keeps(c, s.drop_last());
        comp_keeps(comp_all(c, s.drop_last()).0, s.last());
    }
}

proof fn params_keep(c: Compiling, params: Seq<ParamView>)
    ensures
        comp_params(c, params).0.graph == c.graph,
        comp_params(c, params).0.producers == c.producers,
        forall|j: int|
            0 <= j < comp_params(c, params).1.len() ==> (#[trigger] comp_params(c, params).1[j])
                is VarSlot,
        sound(c) ==> sound(comp_params(c, params).0),
    decreases params.len(),
{
    if params.len() > 0 {
        params_keep(c, params.drop_last());
    }
}

/// Compiling a tree keeps the graph sound and gives the id of one of its nodes.
proof fn comp_keeps(c: Compiling, a: Ast)
    ensures
        good(c, comp(c, a)),
    decreases a, 1int,
{
    assert(comp(c, a) == comp_form(c, a));
    match a {
        Ast::Bind { .. } => bind_keeps(c, a),
        Ast::Assign { .. } => assign_keeps(c, a),
        Ast::Op { .. } => op_keeps(c, a),
        Ast::If { .. } => if_keeps(c, a),
        Ast::While { .. } => while_keeps(c, a),
        Ast::ForEach { .. } => for_each_keeps(c, a),
        Ast::Repeat { .. } => repeat_keeps(c, a),
        Ast::Fn { .. } => fn_keeps(c, a),
        Ast::Call { .. } => call_keeps(c, a),
        Ast::Return(_) => return_keeps(c, a),
        Ast::Block(_) => block_keeps(c, a),
        Ast::Array(_) => array_keeps(c, a),
        Ast::Index { .. } => index_keeps(c, a),
        Ast::Range { .. } => range_keeps(c, a),
        Ast::Pipe { .. } => pipe_keeps(c, a),
        Ast::Adapt { .. } => adapt_keeps(c, a),
        Ast::Choice { .. } => choice_keeps(c, a),
        Ast::Guard { .. } => guard_keeps(c, a),
        Ast::Strategy { .. } => strategy_keeps(c, a),
        Ast::Feedback { .. } => feedback_keeps(c, a),
        Ast::Builtin { .. } => builtin_keeps(c, a),
        _ => {
            leaf_keeps(c, a);
        },
    }
}

proof fn leaf_keeps(c: Compiling, a: Ast)
    requires
        a is Int || a is Float || a is Str || a is Bool || a is Null || a is Ident,
    ensures
        good(c, comp_form(c, a)),
{
    match a {
        Ast::Int(n) => put_keeps(c, OpCode::ConstInt, seq![Operand::Immediate(ImmValue::Int(n))]),
        Ast::Float(f) => put_keeps(
            c,
            OpCode::ConstFloat,
            seq![Operand::Immediate(ImmValue::Float(f))],
        ),
        Ast::Str(s) => {
            let (c1, idx) = c.text(s);
            text_keeps(c, s);
            put_keeps(c1, OpCode::ConstStr, seq![Operand::StringRef(idx)]);
        },
        Ast::Bool(b) => put_keeps(c, OpCode::ConstBool, seq![Operand::Immediate(ImmValue::Bool(b))]),
        Ast::Null => put_keeps(c, OpCode::ConstNull, seq![Operand::Immediate(ImmValue::Null)]),
        Ast::Ident(name) => {
            let (c1, slot) = c.slot(name);
            slot_keeps(c, name);
            put_keeps(c1, OpCode::LoadVar, seq![Operand::VarSlot(slot)]);
        },
        _ => {},
    }
}

proof fn bind_keeps(c: Compiling, a: Ast)
    requires
        a is Bind,
    ensures
        good(c, comp_form(c, a)),
    decreases a, 0int,
{
    if let Ast::Bind { name, mutable, ty, value } = a {
        let (c1, v) = comp(c, *value);
        comp_keeps(c, *value);
        let (c2, slot) = c1.slot(name);
        slot_keeps(c1, name);
        let c3 = Compiling { producers: c2.producers.insert(name, v), ..c2 };
        put_keeps(c3, OpCode::StoreVar, seq![Operand::VarSlot(slot), node_ref(v)]);
    }
}

proof fn assign_keeps(c: Compiling, a: Ast)
    requires
        a is Assign,
    ensures
        good(c, comp_form(c, a)),
    decreases a, 0int,
{
    if let Ast::Assign { name, value } = a {
        let (c1, v) = comp(c, *value);
        comp_keeps(c, *value);
        let (c2, slot) = c1.slot(name);
        slot_keeps(c1, name);
        put_keeps(c2, OpCode::StoreVar, seq![Operand::VarSlot(slot), node_ref(v)]);
    }
}

proof fn op_keeps(c: Compiling, a: Ast)
    requires
        a is Op,
    ensures
        good(c, comp_form(c, a)),
    decreases a, 0int,
{
    if let Ast::Op { op, args } = a {
        let (c1, ids) = comp_all(c, args);
        all_keeps(c, args);
        if ids_below(ids, c1.graph.nodes.len()) {
            refs_sound(ids, c1.graph.nodes.len(), c1.graph.string_table.len());
        }
        put_keeps(c1, arith_op(op), refs(ids));
    }
}

proof fn if_keeps(c: Compiling, a: Ast)
    requires
        a is If,
    ensures
        good(c, comp_form(c, a)),
    decreases a, 0int,
{
    if let Ast::If { cond, then_branch, else_branch } = a {
        let (c1, x) = comp(c, *cond);
        comp_keeps(c, *cond);
        let (c2, t) = comp(c1, *then_branch);
        comp_keeps(c1, *then_branch);
        let (c3, e) = match else_branch {
            Some(b) => comp(c2, *b),
            None => c2.put(OpCode::ConstNull, seq![Operand::Immediate(ImmValue::Null)]),
        };
        match else_branch {
            Some(b) => comp_keeps(c2, *b),
            None => put_keeps(c2, OpCode::ConstNull, seq![Operand::Immediate(ImmValue::Null)]),
        }
        branch_keeps(c3, x, t, e);
    }
}

proof fn while_keeps(c: Compiling, a: Ast)
    requires
        a is While,
    ensures
        good(c, comp_form(c, a)),
    decreases a, 0int,
{
    if let Ast::While { cond, body } = a {
        let (c1, x) = comp(c, *cond);
        comp_keeps(c, *cond);
        let (c2, ids) = comp_all(c1, body);
        all_keeps(c1, body);
        if ids_below(ids, c2.graph.nodes.len()) {
            refs_sound(ids, c2.graph.nodes.len(), c2.graph.string_table.len());
        }
        put_keeps(c2, OpCode::Loop, seq![node_ref(x)] + refs(ids));
    }
}

proof fn for_each_keeps(c: Compiling, a: Ast)
    requires
        a is ForEach,
    ensures
        good(c, comp_form(c, a)),
    decreases a, 0int,
{
    if let Ast::ForEach { var, iterable, body } = a {
        let (c1, x) = comp(c, *iterable);
        comp_keeps(c, *iterable);
        let (c2, slot) = c1.slot(var);
        slot_keeps(c1, var);
        let (c3, ids) = comp_all(c2, body);
        all_keeps(c2, body);
        if ids_below(ids, c3.graph.nodes.len()) {
            refs_sound(ids, c3.graph.nodes.len(), c3.graph.string_table.len());
        }
        put_keeps(c3, OpCode::ForEach, seq![node_ref(x), Operand::VarSlot(slot)] + refs(ids));
    }
}

proof fn repeat_keeps(c: Compiling, a: Ast)
    requires
        a is Repeat,
    ensures
        good(c, comp_form(c, a)),
    decreases a, 0int,
{
    if let Ast::Repeat { count, body } = a {
        let (c1, x) = comp(c, *count);
        comp_keeps(c, *count);
        let (c2, ids) = comp_all(c1, body);
        all_keeps(c1, body);
        if ids_below(ids, c2.graph.nodes.len()) {
            refs_sound(ids, c2.graph.nodes.len(), c2.graph.string_table.len());
        }
        put_keeps(c2, OpCode::Repeat, seq![node_ref(x)] + refs(ids));
    }
}

proof fn fn_keeps(c: Compiling, a: Ast)
    requires
        a is Fn,
    ensures
        good(c, comp_form(c, a)),
    decreases a, 0int,
{
    if let Ast::Fn { name, params, ret, body, stateful } = a {
        let (c1, ids) = comp_all(c, body);
        all_keeps(c, body);
        let (c2, slots) = comp_params(c1, params);
        params_keep(c1, params);
        if ids_below(ids, c2.graph.nodes.len()) {
            refs_sound(ids, c2.graph.nodes.len(), c2.graph.string_table.len());
        }
        put_keeps(c2, OpCode::Define, slots + refs(ids));
        let (c3, f) = c2.put(OpCode::Define, slots + refs(ids));
        match name {
            Some(n) => {
                let (c4, slot) = c3.slot(n);
                slot_keeps(c3, n);
                put_keeps(c4, OpCode::StoreVar, seq![Operand::VarSlot(slot), node_ref(f)]);
            },
            None => {},
        }
    }
}

proof fn call_keeps(c: Compiling, a: Ast)
    requires
        a is Call,
    ensures
        good(c, comp_form(c, a)),
    decreases a, 0int,
{
    if let Ast::Call { callee, args } = a {
        let (c1, x) = comp(c, *callee);
        comp_keeps(c, *callee);
        let (c2, ids) = comp_all(c1, args);
        all_keeps(c1, args);
        if ids_below(ids, c2.graph.nodes.len()) {
            refs_sound(ids, c2.graph.nodes.len(), c2.graph.string_table.len());
        }
        put_keeps(c2, OpCode::Call, seq![node_ref(x)] + refs(ids));
    }
}

proof fn return_keeps(c: Compiling, a: Ast)
    requires
        a is Return,
    ensures
        good(c, comp_form(c, a)),
    decreases a, 0int,
{
    if let Ast::Return(inner) = a {
        let (c1, v) = comp(c, *inner);
        comp_keeps(c, *inner);
        put_keeps(c1, OpCode::Return, seq![node_ref(v)]);
    }
}

proof fn block_keeps(c: Compiling, a: Ast)
    requires
        a is Block,
    ensures
        good(c, comp_form(c, a)),
    decreases a, 0int,
{
    if let Ast::Block(items) = a {
        let (c1, ids) = comp_all(c, items);
        all_keeps(c, items);
        if ids_below(ids, c1.graph.nodes.len()) {
            refs_sound(ids, c1.graph.nodes.len(), c1.graph.string_table.len());
        }
        put_keeps(c1, OpCode::Sequence, refs(ids));
    }
}

proof fn array_keeps(c: Compiling, a: Ast)
    requires
        a is Array,
    ensures
        good(c, comp_form(c, a)),
    decreases a, 0int,
{
    if let Ast::Array(items) = a {
        let (c1, ids) = comp_all(c, items);
        all_keeps(c, items);
        if ids_below(ids, c1.graph.nodes.len()) {
            refs_sound(ids, c1.graph.nodes.len(), c1.graph.string_table.len());
        }
        put_keeps(c1, OpCode::Array, refs(ids));
    }
}

proof fn index_keeps(c: Compiling, a: Ast)
    requires
        a is Index,
    ensures
        good(c, comp_form(c, a)),
    decreases a, 0int,
{
    if let Ast::Index { object, index } = a {
        let (c1, x) = comp(c, *object);
        comp_keeps(c, *object);
        let (c2, y) = comp(c1, *index);
        comp_keeps(c1, *index);
        put_keeps(c2, OpCode::Index, seq![node_ref(x), node_ref(y)]);
    }
}

proof fn range_keeps(c: Compiling, a: Ast)
    requires
        a is Range,
    ensures
        good(c, comp_form(c, a)),
    decreases a, 0int,
{
    if let Ast::Range { start, end } = a {
        let (c1, x) = comp(c, *start);
        comp_keeps(c, *start);
        let (c2, y) = comp(c1, *end);
        comp_keeps(c1, *end);
        put_keeps(c2, OpCode::Range, seq![node_ref(x), node_ref(y)]);
    }
}

proof fn pipe_keeps(c: Compiling, a: Ast)
    requires
        a is Pipe,
    ensures
        good(c, comp_form(c, a)),
    decreases a, 0int,
{
    if let Ast::Pipe { kind, data, func, init } = a {
        let (c1, x) = comp(c, *data);
        comp_keeps(c, *data);
        let (c2, y) = comp(c1, *func);
        comp_keeps(c1, *func);
        match init {
            Some(i) => {
                let (c3, z) = comp(c2, *i);
                comp_keeps(c2, *i);
                put_keeps(c3, pipe_op(kind), seq![node_ref(x), node_ref(y), node_ref(z)]);
            },
            None => put_keeps(c2, pipe_op(kind), seq![node_ref(x), node_ref(y)]),
        }
    }
}

proof fn adapt_keeps(c: Compiling, a: Ast)
    requires
        a is Adapt,
    ensures
        good(c, comp_form(c, a)),
    decreases a, 0int,
{
    if let Ast::Adapt { target, body } = a {
        let (c1, ids) = comp_all(c, body);
        all_keeps(c, body);
        let (c2, slot) = c1.slot(target);
        slot_keeps(c1, target);
        if ids_below(ids, c2.graph.nodes.len()) {
            refs_sound(ids, c2.graph.nodes.len(), c2.graph.string_table.len());
        }
        put_keeps(c2, OpCode::Adapt, seq![Operand::VarSlot(slot)] + refs(ids));
    }
}

proof fn choice_keeps(c: Compiling, a: Ast)
    requires
        a is Choice,
    ensures
        good(c, comp_form(c, a)),
    decreases a, 0int,
{
    if let Ast::Choice { options } = a {
        let (c1, ids) = comp_all(c, options);
        all_keeps(c, options);
        if ids_below(ids, c1.graph.nodes.len()) {
            refs_sound(ids, c1.graph.nodes.len(), c1.graph.string_table.len());
        }
        put_keeps(c1, OpCode::AdaptiveChoice, refs(ids));
        let (c2, id) = c1.put(OpCode::AdaptiveChoice, refs(ids));
        if id < c2.graph.nodes.len() {
            weigh_keeps(c2, id, shares(ids.len()), WeightKind::Adaptive, c2.graph.nodes[id as int].contract);
        }
    }
}

proof fn guard_keeps(c: Compiling, a: Ast)
    requires
        a is Guard,
    ensures
        good(c, comp_form(c, a)),
    decreases a, 0int,
{
    if let Ast::Guard { assumption, fast_path, fallback } = a {
        let (c1, x) = comp(c, *assumption);
        comp_keeps(c, *assumption);
        let (c2, y) = comp(c1, *fast_path);
        comp_keeps(c1, *fast_path);
        let (c3, z) = comp(c2, *fallback);
        comp_keeps(c2, *fallback);
        put_keeps(c3, OpCode::Guard, seq![node_ref(x), node_ref(y), node_ref(z)]);
    }
}

proof fn strategy_keeps(c: Compiling, a: Ast)
    requires
        a is Strategy,
    ensures
        good(c, comp_form(c, a)),
    decreases a, 0int,
{
    if let Ast::Strategy { options } = a {
        let (c1, ids) = comp_all(c, options);
        all_keeps(c, options);
        if ids_below(ids, c1.graph.nodes.len()) {
            refs_sound(ids, c1.graph.nodes.len(), c1.graph.string_table.len());
        }
        put_keeps(c1, OpCode::Strategy, refs(ids));
        let (c2, id) = c1.put(OpCode::Strategy, refs(ids));
        if id < c2.graph.nodes.len() {
            weigh_keeps(c2, id, shares(ids.len()).push(Real { bits: TOLERANCE }), WeightKind::Strategy, Contract::WithinTolerance);
        }
    }
}

proof fn feedback_keeps(c: Compiling, a: Ast)
    requires
        a is Feedback,
    ensures
        good(c, comp_form(c, a)),
    decreases a, 0int,
{
    if let Ast::Feedback { target, reward } = a {
        let (c1, t) = if *target is Ident && c.producers.contains_key((*target)->Ident_0) {
            (c, c.producers[(*target)->Ident_0])
        } else {
            comp(c, *target)
        };
        if !(*target is Ident && c.producers.contains_key((*target)->Ident_0)) {
            comp_keeps(c, *target);
        }
        let (c2, r) = comp(c1, *reward);
        comp_keeps(c1, *reward);
        put_keeps(c2, OpCode::Feedback, seq![node_ref(t), node_ref(r)]);
    }
}

proof fn builtin_keeps(c: Compiling, a: Ast)
    requires
        a is Builtin,
    ensures
        good(c, comp_form(c, a)),
    decreases a, 0int,
{
    if let Ast::Builtin { name, args } = a {
        if name == "lambert"@ {
            let (c1, idx) = c.text("astro.lambertSolve"@);
            text_keeps(c, "astro.lambertSolve"@);
            put_keeps(c1, OpCode::ConstStr, seq![Operand::StringRef(idx)]);
            let (c2, n) = c1.put(OpCode::ConstStr, seq![Operand::StringRef(idx)]);
            let (c3, ids) = comp_all(c2, args);
            all_keeps(c2, args);
            if ids_below(ids, c3.graph.nodes.len()) {
                refs_sound(ids, c3.graph.nodes.len(), c3.graph.string_table.len());
            }
            put_keeps(c3, OpCode::Capability, seq![node_ref(n)] + refs(ids));
        } else {
            let (c1, ids) = comp_all(c, args);
            all_keeps(c, args);
            if ids_below(ids, c1.graph.nodes.len()) {
                refs_sound(ids, c1.graph.nodes.len(), c1.graph.string_table.len());
            }
            put_keeps(c1, builtin_op(name), refs(ids));
        }
    }
}

proof fn branch_keeps(c: Compiling, x: u32, t: u32, e: u32)
    ensures
        grows(c, comp_branch(c, x, t, e).0),
        sound(c) && within(comp_branch(c, x, t, e).0) && x < c.graph.nodes.len() && t
            < c.graph.nodes.len() && e < c.graph.nodes.len() ==> sound(comp_branch(c, x, t, e).0)
            && comp_branch(c, x, t, e).1 < comp_branch(c, x, t, e).0.graph.nodes.len(),
{
    let half = Real { bits: HALF };
    let ops = seq![node_ref(x), node_ref(t), node_ref(e)];
    put_keeps(c, OpCode::Branch, ops);
    let (c1, b) = c.put(OpCode::Branch, ops);
    let c2 = c1.edge(b, t, half).edge(b, e, half);
    let node = c2.graph.nodes[b as int];
    if b < c2.graph.nodes.len() {
        weigh_keeps(c2, b, seq![half, half], node.weight_kind, node.contract);
    }
}

/// A compiled program is sound: every node's operands point at earlier nodes
/// and existing strings, every edge joins two nodes, the entry is the
/// sequence over the program and the last node halts.
pub proof fn compiled_graph_is_sound(nodes: Seq<Ast>)
    requires
        comp_program(nothing_compiled(), nodes).nodes.len() <= u32::MAX,
        comp_program(nothing_compiled(), nodes).string_table.len() <= u32::MAX,
    ensures
        ({
            let g = comp_program(nothing_compiled(), nodes);
            &&& graph_sound(g)
            &&& g.nodes.len() >= 2
            &&& g.entry == g.nodes.len() - 2
            &&& g.nodes[g.entry as int].op == OpCode::Sequence
            &&& g.nodes.last().op == OpCode::Halt
        }),
{
    let c = nothing_compiled();
    all_keeps(c, nodes);
    let (c1, ids) = comp_all(c, nodes);
    put_keeps(c1, OpCode::Sequence, refs(ids));
    let (c2, entry) = c1.put(OpCode::Sequence, refs(ids));
    put_keeps(c2, OpCode::Halt, Seq::empty());
    let (c3, halt) = c2.put(OpCode::Halt, Seq::empty());
    let c4 = c3.edge(entry, halt, Real { bits: ONE });
    assert(c4.graph.nodes == comp_program(c, nodes).nodes);
    assert(c1.graph.nodes.len() <= u32::MAX);
    if ids_below(ids, c1.graph.nodes.len()) {
        refs_sound(ids, c1.graph.nodes.len(), c1.graph.string_table.len());
    }
}

} // verus!
