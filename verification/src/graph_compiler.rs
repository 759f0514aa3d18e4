//! Compiles program trees to graphs.
//!
//! Names become variable slots; every node of the tree becomes a node of the
//! graph, behind the nodes of its parts.
use crate::ast::{Ast, Node, OpKind, Param, ParamView, PipeKind, Program, ast, asts, param_views};
use crate::graph::{Contract, FORMAT_VERSION, GraphHeader, GraphView, ImmValue, NeuralGraph, NodeView, OpCode, Operand, WeightKind};
use crate::number::{ONE, Real, nearest_share_bits};
use crate::table::Table;
use crate::text::same;
use vstd::prelude::*;
use vstd::utf8::*;

verus! {

/// The bits of 0.5.
pub const HALF: u64 = 0x3FE0_0000_0000_0000;

/// The bits of 1e-6, the tolerance of a strategy.
pub const TOLERANCE: u64 = 0x3EB0_C6F7_A0B5_ED8D;

/// The most options whose equal share is told apart.
pub const SHARE_LIMIT: u64 = 0x20_0000_0000_0000;

pub struct GraphCompiler {
    graph: NeuralGraph,
    /// The variable slot of each name.
    var_map: Table<u32>,
    /// The graph node that produced the value bound to each name.
    var_node: Table<u32>,
    next_var_slot: u32,
}

/// The compiler's state.
pub struct Compiling {
    pub graph: GraphView,
    pub slots: Map<Seq<char>, u32>,
    pub producers: Map<Seq<char>, u32>,
    pub next: u32,
}

impl View for GraphCompiler {
    type V = Compiling;

    closed spec fn view(&self) -> Compiling {
        Compiling {
            graph: self.graph@,
            slots: self.var_map@,
            producers: self.var_node@,
            next: self.next_var_slot,
        }
    }
}

impl Compiling {
    /// The state with one more node, and the node's id.
    pub open spec fn put(self, op: OpCode, operands: Seq<Operand>) -> (Compiling, u32) {
        (
            Compiling { graph: self.graph.with_node(op, operands), ..self },
            self.graph.nodes.len() as u32,
        )
    }

    /// The slot of a name, a fresh one where it has none; slots wrap around.
    pub open spec fn slot(self, name: Seq<char>) -> (Compiling, u32) {
        if self.slots.contains_key(name) {
            (self, self.slots[name])
        } else {
            (
                Compiling {
                    slots: self.slots.insert(name, self.next),
                    next: if self.next == u32::MAX {
                        0
                    } else {
                        (self.next + 1) as u32
                    },
                    ..self
                },
                self.next,
            )
        }
    }

    /// The state with a string added to the table, and the string's index.
    pub open spec fn text(self, s: Seq<char>) -> (Compiling, u32) {
        (
            Compiling { graph: self.graph.with_string(encode_utf8(s)), ..self },
            self.graph.string_table.len() as u32,
        )
    }

    pub open spec fn edge(self, from: u32, to: u32, weight: Real) -> Compiling {
        Compiling { graph: self.graph.with_edge(from, to, weight), ..self }
    }

    /// The state with the weights and their meaning set on a node.
    pub open spec fn weigh(
        self,
        id: u32,
        weights: Seq<Real>,
        weight_kind: WeightKind,
        contract: Contract,
    ) -> Compiling {
        let node = NodeView { weights, weight_kind, contract, ..self.graph.nodes[id as int] };
        Compiling {
            graph: GraphView { nodes: self.graph.nodes.update(id as int, node), ..self.graph },
            ..self
        }
    }
}

pub open spec fn node_ref(id: u32) -> Operand {
    Operand::NodeRef(id)
}

pub open spec fn refs(ids: Seq<u32>) -> Seq<Operand> {
    ids.map_values(|id: u32| node_ref(id))
}

/// The equal share of each of `n` options.
pub open spec fn option_share(n: nat) -> Real {
    Real {
        bits: nearest_share_bits(
            if n > SHARE_LIMIT {
                SHARE_LIMIT as nat
            } else {
                n
            },
        ) as u64,
    }
}

pub open spec fn shares(n: nat) -> Seq<Real> {
    Seq::new(n, |i: int| option_share(n))
}

pub open spec fn arith_op(op: OpKind) -> OpCode {
    match op {
        OpKind::Add => OpCode::Add,
        OpKind::Sub => OpCode::Sub,
        OpKind::Mul => OpCode::Mul,
        OpKind::Div => OpCode::Div,
        OpKind::Mod => OpCode::Mod,
        OpKind::Neg => OpCode::Neg,
        OpKind::Eq => OpCode::Eq,
        OpKind::Neq => OpCode::Neq,
        OpKind::Lt => OpCode::Lt,
        OpKind::Gt => OpCode::Gt,
        OpKind::Lte => OpCode::Lte,
        OpKind::Gte => OpCode::Gte,
        OpKind::And => OpCode::And,
        OpKind::Or => OpCode::Or,
        OpKind::Not => OpCode::Not,
    }
}

pub open spec fn pipe_op(kind: PipeKind) -> OpCode {
    match kind {
        PipeKind::Pipe => OpCode::Pipe,
        PipeKind::Filter => OpCode::Filter,
        PipeKind::MapEach => OpCode::MapEach,
        PipeKind::Reduce => OpCode::Reduce,
    }
}

/// The operation of a builtin; an unknown one does nothing.
pub open spec fn builtin_op(name: Seq<char>) -> OpCode {
    if name == "p"@ {
        OpCode::Print
    } else if name == "r"@ {
        OpCode::ReadLine
    } else if name == "num"@ {
        OpCode::ParseNum
    } else if name == "split"@ {
        OpCode::Split
    } else if name == "str"@ {
        OpCode::ToString
    } else if name == "len"@ {
        OpCode::Length
    } else if name == "chars"@ {
        OpCode::Chars
    } else if name == "abs"@ {
        OpCode::Abs
    } else if name == "sin"@ {
        OpCode::Sin
    } else if name == "cos"@ {
        OpCode::Cos
    } else if name == "floor"@ {
        OpCode::Floor
    } else if name == "round"@ {
        OpCode::Round
    } else if name == "sqrt"@ {
        OpCode::Sqrt
    } else if name == "ln"@ {
        OpCode::Ln
    } else if name == "exp"@ {
        OpCode::Exp
    } else if name == "atan2"@ {
        OpCode::Atan2
    } else if name == "cap"@ {
        OpCode::Capability
    } else if name == "type"@ {
        OpCode::ToString
    } else {
        OpCode::Noop
    }
}

/// Compiles a list of trees: the state behind them, and their ids.
pub open spec fn comp_all(c: Compiling, s: Seq<Ast>) -> (Compiling, Seq<u32>)
    decreases s, 0int,
{
    if s.len() == 0 {
        (c, Seq::empty())
    } else {
        let (c1, ids) = comp_all(c, s.drop_last());
        let (c2, id) = comp(c1, s.last());
        (c2, ids.push(id))
    }
}

/// Compiles one tree: the state behind it, and its id.
pub open spec fn comp(c: Compiling, a: Ast) -> (Compiling, u32)
    decreases a, 1int,
{
    comp_form(c, a)
}

/// Compiles a parameter list: each parameter's slot.
pub open spec fn comp_params(c: Compiling, params: Seq<ParamView>) -> (Compiling, Seq<Operand>)
    decreases params.len(),
{
    if params.len() == 0 {
        (c, Seq::empty())
    } else {
        let (c1, ops) = comp_params(c, params.drop_last());
        let (c2, slot) = c1.slot(params.last().name);
        (c2, ops.push(Operand::VarSlot(slot)))
    }
}

pub open spec fn comp_form(c: Compiling, a: Ast) -> (Compiling, u32)
    decreases a, 0int,
{
    match a {
        Ast::Int(n) => c.put(OpCode::ConstInt, seq![Operand::Immediate(ImmValue::Int(n))]),
        Ast::Float(f) => c.put(OpCode::ConstFloat, seq![Operand::Immediate(ImmValue::Float(f))]),
        Ast::Str(s) => {
            let (c1, idx) = c.text(s);
            c1.put(OpCode::ConstStr, seq![Operand::StringRef(idx)])
        },
        Ast::Bool(b) => c.put(OpCode::ConstBool, seq![Operand::Immediate(ImmValue::Bool(b))]),
        Ast::Null => c.put(OpCode::ConstNull, seq![Operand::Immediate(ImmValue::Null)]),
        Ast::Ident(name) => {
            let (c1, slot) = c.slot(name);
            c1.put(OpCode::LoadVar, seq![Operand::VarSlot(slot)])
        },
        Ast::Bind { name, mutable, ty, value } => {
            let (c1, v) = comp(c, *value);
            let (c2, slot) = c1.slot(name);
            let c3 = Compiling { producers: c2.producers.insert(name, v), ..c2 };
            c3.put(OpCode::StoreVar, seq![Operand::VarSlot(slot), node_ref(v)])
        },
        Ast::Assign { name, value } => {
            let (c1, v) = comp(c, *value);
            let (c2, slot) = c1.slot(name);
            c2.put(OpCode::StoreVar, seq![Operand::VarSlot(slot), node_ref(v)])
        },
        Ast::Op { op, args } => {
            let (c1, ids) = comp_all(c, args);
            c1.put(arith_op(op), refs(ids))
        },
        Ast::If { cond, then_branch, else_branch } => {
            let (c1, x) = comp(c, *cond);
            let (c2, t) = comp(c1, *then_branch);
            let (c3, e) = match else_branch {
                Some(b) => comp(c2, *b),
                None => c2.put(OpCode::ConstNull, seq![Operand::Immediate(ImmValue::Null)]),
            };
            comp_branch(c3, x, t, e)
        },
        Ast::While { cond, body } => {
            let (c1, x) = comp(c, *cond);
            let (c2, ids) = comp_all(c1, body);
            c2.put(OpCode::Loop, seq![node_ref(x)] + refs(ids))
        },
        Ast::ForEach { var, iterable, body } => {
            let (c1, x) = comp(c, *iterable);
            let (c2, slot) = c1.slot(var);
            let (c3, ids) = comp_all(c2, body);
            c3.put(OpCode::ForEach, seq![node_ref(x), Operand::VarSlot(slot)] + refs(ids))
        },
        Ast::Repeat { count, body } => {
            let (c1, x) = comp(c, *count);
            let (c2, ids) = comp_all(c1, body);
            c2.put(OpCode::Repeat, seq![node_ref(x)] + refs(ids))
        },
        Ast::Fn { name, params, ret, body, stateful } => {
            let (c1, ids) = comp_all(c, body);
            let (c2, slots) = comp_params(c1, params);
            let (c3, f) = c2.put(OpCode::Define, slots + refs(ids));
            match name {
                Some(n) => {
                    let (c4, slot) = c3.slot(n);
                    c4.put(OpCode::StoreVar, seq![Operand::VarSlot(slot), node_ref(f)])
                },
                None => (c3, f),
            }
        },
        Ast::Call { callee, args } => {
            let (c1, f) = comp(c, *callee);
            let (c2, ids) = comp_all(c1, args);
            c2.put(OpCode::Call, seq![node_ref(f)] + refs(ids))
        },
        Ast::Return(inner) => {
            let (c1, v) = comp(c, *inner);
            c1.put(OpCode::Return, seq![node_ref(v)])
        },
        Ast::Block(items) => {
            let (c1, ids) = comp_all(c, items);
            c1.put(OpCode::Sequence, refs(ids))
        },
        Ast::Array(items) => {
            let (c1, ids) = comp_all(c, items);
            c1.put(OpCode::Array, refs(ids))
        },
        Ast::Index { object, index } => {
            let (c1, x) = comp(c, *object);
            let (c2, y) = comp(c1, *index);
            c2.put(OpCode::Index, seq![node_ref(x), node_ref(y)])
        },
        Ast::Range { start, end } => {
            let (c1, x) = comp(c, *start);
            let (c2, y) = comp(c1, *end);
            c2.put(OpCode::Range, seq![node_ref(x), node_ref(y)])
        },
        Ast::Pipe { kind, data, func, init } => {
            let (c1, x) = comp(c, *data);
            let (c2, y) = comp(c1, *func);
            match init {
                Some(i) => {
                    let (c3, z) = comp(c2, *i);
                    c3.put(pipe_op(kind), seq![node_ref(x), node_ref(y), node_ref(z)])
                },
                None => c2.put(pipe_op(kind), seq![node_ref(x), node_ref(y)]),
            }
        },
        Ast::Adapt { target, body } => {
            let (c1, ids) = comp_all(c, body);
            let (c2, slot) = c1.slot(target);
            c2.put(OpCode::Adapt, seq![Operand::VarSlot(slot)] + refs(ids))
        },
        Ast::Choice { options } => {
            let (c1, ids) = comp_all(c, options);
            let (c2, id) = c1.put(OpCode::AdaptiveChoice, refs(ids));
            (
                c2.weigh(id, shares(ids.len()), WeightKind::Adaptive, c2.graph.nodes[id as int].contract),
                id,
            )
        },
        Ast::Guard { assumption, fast_path, fallback } => {
            let (c1, x) = comp(c, *assumption);
            let (c2, y) = comp(c1, *fast_path);
            let (c3, z) = comp(c2, *fallback);
            c3.put(OpCode::Guard, seq![node_ref(x), node_ref(y), node_ref(z)])
        },
        Ast::Strategy { options } => {
            let (c1, ids) = comp_all(c, options);
            let (c2, id) = c1.put(OpCode::Strategy, refs(ids));
            (
                c2.weigh(
                    id,
                    shares(ids.len()).push(Real { bits: TOLERANCE }),
                    WeightKind::Strategy,
                    Contract::WithinTolerance,
                ),
                id,
            )
        },
        Ast::Feedback { target, reward } => {
            let (c1, t) = if *target is Ident && c.producers.contains_key((*target)->Ident_0) {
                (c, c.producers[(*target)->Ident_0])
            } else {
                comp(c, *target)
            };
            let (c2, r) = comp(c1, *reward);
            c2.put(OpCode::Feedback, seq![node_ref(t), node_ref(r)])
        },
        Ast::Builtin { name, args } => if name == "lambert"@ {
            let (c1, idx) = c.text("astro.lambertSolve"@);
            let (c2, n) = c1.put(OpCode::ConstStr, seq![Operand::StringRef(idx)]);
            let (c3, ids) = comp_all(c2, args);
            c3.put(OpCode::Capability, seq![node_ref(n)] + refs(ids))
        } else {
            let (c1, ids) = comp_all(c, args);
            c1.put(builtin_op(name), refs(ids))
        },
    }
}

/// A branch with evenly weighted paths.
pub open spec fn comp_branch(c: Compiling, x: u32, t: u32, e: u32) -> (Compiling, u32) {
    let half = Real { bits: HALF };
    let (c1, b) = c.put(OpCode::Branch, seq![node_ref(x), node_ref(t), node_ref(e)]);
    let c2 = c1.edge(b, t, half).edge(b, e, half);
    let node = c2.graph.nodes[b as int];
    (c2.weigh(b, seq![half, half], node.weight_kind, node.contract), b)
}

/// The state before anything is compiled.
pub open spec fn nothing_compiled() -> Compiling {
    Compiling {
        graph: GraphView {
            header: GraphHeader {
                version: FORMAT_VERSION,
                node_count: 0,
                edge_count: 0,
                state_size: 0,
                string_count: 0,
                flags: 0,
            },
            nodes: Seq::empty(),
            edges: Seq::empty(),
            string_table: Seq::empty(),
            state: Seq::empty(),
            entry: 0,
            journal: Seq::empty(),
        },
        slots: Map::empty(),
        producers: Map::empty(),
        next: 0,
    }
}

/// The graph of a program: its nodes, a sequence over the top-level ones as
/// the entry, and a halt behind it.
pub open spec fn comp_program(c: Compiling, nodes: Seq<Ast>) -> GraphView {
    let (c1, ids) = comp_all(c, nodes);
    let (c2, entry) = c1.put(OpCode::Sequence, refs(ids));
    let (c3, halt) = c2.put(OpCode::Halt, Seq::empty());
    let c4 = c3.edge(entry, halt, Real { bits: ONE });
    GraphView { entry, ..c4.graph }
}

fn arith_opcode(op: OpKind) -> (r: OpCode)
    ensures
        r == arith_op(op),
{
    match op {
        OpKind::Add => OpCode::Add,
        OpKind::Sub => OpCode::Sub,
        OpKind::Mul => OpCode::Mul,
        OpKind::Div => OpCode::Div,
        OpKind::Mod => OpCode::Mod,
        OpKind::Neg => OpCode::Neg,
        OpKind::Eq => OpCode::Eq,
        OpKind::Neq => OpCode::Neq,
        OpKind::Lt => OpCode::Lt,
        OpKind::Gt => OpCode::Gt,
        OpKind::Lte => OpCode::Lte,
        OpKind::Gte => OpCode::Gte,
        OpKind::And => OpCode::And,
        OpKind::Or => OpCode::Or,
        OpKind::Not => OpCode::Not,
    }
}

fn pipe_opcode(kind: PipeKind) -> (r: OpCode)
    ensures
        r == pipe_op(kind),
{
    match kind {
        PipeKind::Pipe => OpCode::Pipe,
        PipeKind::Filter => OpCode::Filter,
        PipeKind::MapEach => OpCode::MapEach,
        PipeKind::Reduce => OpCode::Reduce,
    }
}

fn builtin_opcode(name: &str) -> (r: OpCode)
    ensures
        r == builtin_op(name@),
{
    if same(name, "p") {
        OpCode::Print
    } else if same(name, "r") {
        OpCode::ReadLine
    } else if same(name, "num") {
        OpCode::ParseNum
    } else if same(name, "split") {
        OpCode::Split
    } else if same(name, "str") {
        OpCode::ToString
    } else if same(name, "len") {
        OpCode::Length
    } else if same(name, "chars") {
        OpCode::Chars
    } else if same(name, "abs") {
        OpCode::Abs
    } else if same(name, "sin") {
        OpCode::Sin
    } else if same(name, "cos") {
        OpCode::Cos
    } else if same(name, "floor") {
        OpCode::Floor
    } else if same(name, "round") {
        OpCode::Round
    } else if same(name, "sqrt") {
        OpCode::Sqrt
    } else if same(name, "ln") {
        OpCode::Ln
    } else if same(name, "exp") {
        OpCode::Exp
    } else if same(name, "atan2") {
        OpCode::Atan2
    } else if same(name, "cap") {
        OpCode::Capability
    } else if same(name, "type") {
        OpCode::ToString
    } else {
        OpCode::Noop
    }
}

fn one(a: Operand) -> (v: Vec<Operand>)
    ensures
        v@ == seq![a],
{
    let mut v: Vec<Operand> = Vec::new();
    v.push(a);
    v
}

fn two(a: Operand, b: Operand) -> (v: Vec<Operand>)
    ensures
        v@ == seq![a, b],
{
    let mut v: Vec<Operand> = Vec::new();
    v.push(a);
    v.push(b);
    v
}

fn three(a: Operand, b: Operand, c: Operand) -> (v: Vec<Operand>)
    ensures
        v@ == seq![a, b, c],
{
    let mut v: Vec<Operand> = Vec::new();
    v.push(a);
    v.push(b);
    v.push(c);
    v
}

fn low_bits_are_at_most(x: usize) -> (r: u32)
    ensures
        r == x as u32,
        r <= x,
{
    let r: u32 = x as u32;
    assert(x as u32 <= x) by (bit_vector);
    r
}

fn share_list(n: usize) -> (v: Vec<Real>)
    ensures
        v@ == shares(n as nat),
{
    let mut v: Vec<Real> = Vec::new();
    if n == 0 {
        return v;
    }
    let m: u64 = if n as u64 > SHARE_LIMIT {
        SHARE_LIMIT
    } else {
        n as u64
    };
    let w = Real::share(m);
    let mut i: usize = 0;
    while i < n
        invariant
            i <= n,
            w == option_share(n as nat),
            v@.len() == i,
            forall|j: int| 0 <= j < i ==> v@[j] == w,
        decreases n - i,
    {
        v.push(w);
        i = i + 1;
    }
    assert(v@ == shares(n as nat));
    v
}

impl GraphCompiler {
    /// The tables hold each name once.
    pub closed spec fn wf(&self) -> bool {
        self.var_map.wf() && self.var_node.wf()
    }

    /// A compiler that has compiled nothing.
    pub fn new() -> (c: Self)
        ensures
            c@ == nothing_compiled(),
            c.wf(),
    {
        GraphCompiler {
            graph: NeuralGraph::new(),
            var_map: Table::new(),
            var_node: Table::new(),
            next_var_slot: 0,
        }
    }

    /// Compiles a program.
    pub fn compile(self, program: &Program) -> (g: NeuralGraph)
        requires
            self.wf(),
        ensures
            g@ == comp_program(self@, asts(program.nodes@)),
    {
        let mut c = self;
        let top = c.compile_list(&program.nodes);
        let entry: u32 = c.add(OpCode::Sequence, top);
        let halt: u32 = c.add(OpCode::Halt, Vec::new());
        c.graph.add_edge(entry, halt, Real::one());
        c.graph.entry = entry;
        c.graph
    }

    fn add(&mut self, op: OpCode, operands: Vec<Operand>) -> (id: u32)
        requires
            old(self).wf(),
        ensures
            final(self).wf(),
            (final(self)@, id) == old(self)@.put(op, operands@),
            id < final(self)@.graph.nodes.len(),
            old(self)@.graph.nodes.len() == id as int || old(self)@.graph.nodes.len() > id,
    {
        let n: u32 = low_bits_are_at_most(self.graph.nodes.len());
        self.graph.add_node(op, operands)
    }

    fn get_or_create_var(&mut self, name: &str) -> (slot: u32)
        requires
            old(self).wf(),
        ensures
            final(self).wf(),
            (final(self)@, slot) == old(self)@.slot(name@),
    {
        match self.var_map.get(name) {
            Some(slot) => {
                return *slot;
            },
            None => {},
        }
        let slot: u32 = self.next_var_slot;
        self.next_var_slot = if slot == u32::MAX {
            0
        } else {
            slot + 1
        };
        self.var_map.insert(name.to_owned(), slot);
        slot
    }

    fn set_weights(&mut self, id: u32, weights: Vec<Real>, kind: WeightKind, contract: Contract)
        requires
            old(self).wf(),
            id < old(self)@.graph.nodes.len(),
        ensures
            final(self).wf(),
            final(self)@ == old(self)@.weigh(id, weights@, kind, contract),
    {
        let ghost before = self.graph.nodes@;
        let i: usize = id as usize;
        self.graph.nodes[i].weights = weights;
        self.graph.nodes[i].weight_kind = kind;
        self.graph.nodes[i].contract = contract;
        assert(self@.graph.nodes == old(self)@.weigh(id, weights@, kind, contract).graph.nodes);
    }

    fn compile_list(&mut self, nodes: &Vec<Node>) -> (ops: Vec<Operand>)
        requires
            old(self).wf(),
        ensures
            final(self).wf(),
            ({
                let (c, ids) = comp_all(old(self)@, asts(nodes@));
                final(self)@ == c && ops@ == refs(ids) && ids.len() == nodes@.len()
            }),
        decreases nodes, 2int,
    {
        let ghost start = self@;
        let ghost all = asts(nodes@);
        let mut ops: Vec<Operand> = Vec::new();
        let mut i: usize = 0;
        assert(all.take(0) == Seq::<Ast>::empty());
        assert(refs(Seq::<u32>::empty()) == Seq::<Operand>::empty());
        while i < nodes.len()
            invariant
                i <= nodes.len(),
                all == asts(nodes@),
                self.wf(),
                self@ == comp_all(start, all.take(i as int)).0,
                ops@ == refs(comp_all(start, all.take(i as int)).1),
                comp_all(start, all.take(i as int)).1.len() == i,
            decreases nodes.len() - i,
        {
            assert(decreases_to!(nodes => nodes@[i as int]));
            let id: u32 = self.compile_node(&nodes[i]);
            ops.push(Operand::NodeRef(id));
            proof {
                assert(all.take(i + 1).drop_last() == all.take(i as int));
                let ids = comp_all(start, all.take(i as int)).1;
                assert(refs(ids.push(id)) == refs(ids).push(node_ref(id)));
            }
            i = i + 1;
        }
        assert(all.take(i as int) == all);
        ops
    }

    /// `first` and the ids of the compiled nodes.
    fn compile_behind(&mut self, first: Operand, nodes: &Vec<Node>) -> (ops: Vec<Operand>)
        requires
            old(self).wf(),
        ensures
            final(self).wf(),
            ({
                let (c, ids) = comp_all(old(self)@, asts(nodes@));
                final(self)@ == c && ops@ == seq![first] + refs(ids)
            }),
        decreases nodes, 3int,
    {
        let mut rest = self.compile_list(nodes);
        let mut ops: Vec<Operand> = Vec::new();
        ops.push(first);
        ops.append(&mut rest);
        ops
    }

    fn compile_node(&mut self, node: &Node) -> (id: u32)
        requires
            old(self).wf(),
        ensures
            final(self).wf(),
            (final(self)@, id) == comp(old(self)@, ast(*node)),
        decreases node, 1int,
    {
        assert(comp(old(self)@, ast(*node)) == comp_form(old(self)@, ast(*node)));
        match node {
            Node::Int(n) => self.add(OpCode::ConstInt, one(Operand::Immediate(ImmValue::Int(*n)))),
            Node::Float(f) => self.add(OpCode::ConstFloat, one(Operand::Immediate(ImmValue::Float(*f)))),
            Node::Str(_) => self.compile_str_form(node),
            Node::Bool(b) => self.add(OpCode::ConstBool, one(Operand::Immediate(ImmValue::Bool(*b)))),
            Node::Null => self.add(OpCode::ConstNull, one(Operand::Immediate(ImmValue::Null))),
            Node::Ident(_) => self.compile_ident_form(node),
            Node::Bind { .. } => self.compile_bind_form(node),
            Node::Assign { .. } => self.compile_assign_form(node),
            Node::Op { .. } => self.compile_op_form(node),
            Node::If { .. } => self.compile_if_form(node),
            Node::While { .. } => self.compile_while_form(node),
            Node::ForEach { .. } => self.compile_for_each_form(node),
            Node::Repeat { .. } => self.compile_repeat_form(node),
            Node::Fn { .. } => self.compile_fn_form(node),
            Node::Call { .. } => self.compile_call_form(node),
            Node::Return(_) => self.compile_return_form(node),
            Node::Block(_) => self.compile_block_form(node),
            Node::Array(_) => self.compile_array_form(node),
            Node::Index { .. } => self.compile_index_form(node),
            Node::Range { .. } => self.compile_range_form(node),
            Node::Pipe { .. } => self.compile_pipe_form(node),
            Node::Adapt { .. } => self.compile_adapt_form(node),
            Node::Choice { .. } => self.compile_choice_form(node),
            Node::Guard { .. } => self.compile_guard_form(node),
            Node::Strategy { .. } => self.compile_strategy_form(node),
            Node::Feedback { .. } => self.compile_feedback_form(node),
            Node::Builtin { .. } => self.compile_builtin_form(node),
        }
    }

    fn compile_str_form(&mut self, node: &Node) -> (id: u32)
        requires
            old(self).wf(),
            *node is Str,
        ensures
            final(self).wf(),
            (final(self)@, id) == comp_form(old(self)@, ast(*node)),
        decreases node, 0int,
    {
        match node {
            Node::Str(s) => {
                let idx: u32 = self.graph.intern_string(s.as_str());
                self.add(OpCode::ConstStr, one(Operand::StringRef(idx)))
            },
            _ => 0,
        }
    }

    fn compile_ident_form(&mut self, node: &Node) -> (id: u32)
        requires
            old(self).wf(),
            *node is Ident,
        ensures
            final(self).wf(),
            (final(self)@, id) == comp_form(old(self)@, ast(*node)),
        decreases node, 0int,
    {
        match node {
            Node::Ident(name) => {
                let slot: u32 = self.get_or_create_var(name.as_str());
                self.add(OpCode::LoadVar, one(Operand::VarSlot(slot)))
            },
            _ => 0,
        }
    }

    fn compile_bind_form(&mut self, node: &Node) -> (id: u32)
        requires
            old(self).wf(),
            *node is Bind,
        ensures
            final(self).wf(),
            (final(self)@, id) == comp_form(old(self)@, ast(*node)),
        decreases node, 0int,
    {
        match node {
            Node::Bind { name, value, .. } => {
                let v: u32 = self.compile_node(value);
                let slot: u32 = self.get_or_create_var(name.as_str());
                self.var_node.insert(name.clone(), v);
                self.add(OpCode::StoreVar, two(Operand::VarSlot(slot), Operand::NodeRef(v)))
            },
            _ => 0,
        }
    }

    fn compile_assign_form(&mut self, node: &Node) -> (id: u32)
        requires
            old(self).wf(),
            *node is Assign,
        ensures
            final(self).wf(),
            (final(self)@, id) == comp_form(old(self)@, ast(*node)),
        decreases node, 0int,
    {
        match node {
            Node::Assign { name, value } => {
                let v: u32 = self.compile_node(value);
                let slot: u32 = self.get_or_create_var(name.as_str());
                self.add(OpCode::StoreVar, two(Operand::VarSlot(slot), Operand::NodeRef(v)))
            },
            _ => 0,
        }
    }

    fn compile_op_form(&mut self, node: &Node) -> (id: u32)
        requires
            old(self).wf(),
            *node is Op,
        ensures
            final(self).wf(),
            (final(self)@, id) == comp_form(old(self)@, ast(*node)),
        decreases node, 0int,
    {
        match node {
            Node::Op { op, args } => {
                let ops = self.compile_list(args);
                self.add(arith_opcode(*op), ops)
            },
            _ => 0,
        }
    }

    fn compile_if_form(&mut self, node: &Node) -> (id: u32)
        requires
            old(self).wf(),
            *node is If,
        ensures
            final(self).wf(),
            (final(self)@, id) == comp_form(old(self)@, ast(*node)),
        decreases node, 0int,
    {
        match node {
            Node::If { cond, then_branch, else_branch } => {
                let x: u32 = self.compile_node(cond);
                let t: u32 = self.compile_node(then_branch);
                let e: u32 = match else_branch {
                    Some(b) => self.compile_node(b),
                    None => self.add(OpCode::ConstNull, one(Operand::Immediate(ImmValue::Null))),
                };
                self.compile_branch(x, t, e)
            },
            _ => 0,
        }
    }

    fn compile_while_form(&mut self, node: &Node) -> (id: u32)
        requires
            old(self).wf(),
            *node is While,
        ensures
            final(self).wf(),
            (final(self)@, id) == comp_form(old(self)@, ast(*node)),
        decreases node, 0int,
    {
        match node {
            Node::While { cond, body } => {
                let x: u32 = self.compile_node(cond);
                let ops = self.compile_behind(Operand::NodeRef(x), body);
                self.add(OpCode::Loop, ops)
            },
            _ => 0,
        }
    }

    fn compile_for_each_form(&mut self, node: &Node) -> (id: u32)
        requires
            old(self).wf(),
            *node is ForEach,
        ensures
            final(self).wf(),
            (final(self)@, id) == comp_form(old(self)@, ast(*node)),
        decreases node, 0int,
    {
        match node {
            Node::ForEach { var, iterable, body } => {
                let x: u32 = self.compile_node(iterable);
                let slot: u32 = self.get_or_create_var(var.as_str());
                let mut rest = self.compile_list(body);
                let mut ops: Vec<Operand> = two(Operand::NodeRef(x), Operand::VarSlot(slot));
                ops.append(&mut rest);
                self.add(OpCode::ForEach, ops)
            },
            _ => 0,
        }
    }

    fn compile_repeat_form(&mut self, node: &Node) -> (id: u32)
        requires
            old(self).wf(),
            *node is Repeat,
        ensures
            final(self).wf(),
            (final(self)@, id) == comp_form(old(self)@, ast(*node)),
        decreases node, 0int,
    {
        match node {
            Node::Repeat { count, body } => {
                let x: u32 = self.compile_node(count);
                let ops = self.compile_behind(Operand::NodeRef(x), body);
                self.add(OpCode::Repeat, ops)
            },
            _ => 0,
        }
    }

    fn compile_fn_form(&mut self, node: &Node) -> (id: u32)
        requires
            old(self).wf(),
            *node is Fn,
        ensures
            final(self).wf(),
            (final(self)@, id) == comp_form(old(self)@, ast(*node)),
        decreases node, 0int,
    {
        match node {
            Node::Fn { name, params, body, .. } => {
                let mut rest = self.compile_list(body);
                let mut ops = self.compile_params(params);
                ops.append(&mut rest);
                let f: u32 = self.add(OpCode::Define, ops);
                match name {
                    Some(n) => {
                        let slot: u32 = self.get_or_create_var(n.as_str());
                        self.add(OpCode::StoreVar, two(Operand::VarSlot(slot), Operand::NodeRef(f)))
                    },
                    None => f,
                }
            },
            _ => 0,
        }
    }

    fn compile_call_form(&mut self, node: &Node) -> (id: u32)
        requires
            old(self).wf(),
            *node is Call,
        ensures
            final(self).wf(),
            (final(self)@, id) == comp_form(old(self)@, ast(*node)),
        decreases node, 0int,
    {
        match node {
            Node::Call { callee, args } => {
                let f: u32 = self.compile_node(callee);
                let ops = self.compile_behind(Operand::NodeRef(f), args);
                self.add(OpCode::Call, ops)
            },
            _ => 0,
        }
    }

    fn compile_return_form(&mut self, node: &Node) -> (id: u32)
        requires
            old(self).wf(),
            *node is Return,
        ensures
            final(self).wf(),
            (final(self)@, id) == comp_form(old(self)@, ast(*node)),
        decreases node, 0int,
    {
        match node {
            Node::Return(inner) => {
                let v: u32 = self.compile_node(inner);
                self.add(OpCode::Return, one(Operand::NodeRef(v)))
            },
            _ => 0,
        }
    }

    fn compile_block_form(&mut self, node: &Node) -> (id: u32)
        requires
            old(self).wf(),
            *node is Block,
        ensures
            final(self).wf(),
            (final(self)@, id) == comp_form(old(self)@, ast(*node)),
        decreases node, 0int,
    {
        match node {
            Node::Block(items) => {
                let ops = self.compile_list(items);
                self.add(OpCode::Sequence, ops)
            },
            _ => 0,
        }
    }

    fn compile_array_form(&mut self, node: &Node) -> (id: u32)
        requires
            old(self).wf(),
            *node is Array,
        ensures
            final(self).wf(),
            (final(self)@, id) == comp_form(old(self)@, ast(*node)),
        decreases node, 0int,
    {
        match node {
            Node::Array(items) => {
                let ops = self.compile_list(items);
                self.add(OpCode::Array, ops)
            },
            _ => 0,
        }
    }

    fn compile_index_form(&mut self, node: &Node) -> (id: u32)
        requires
            old(self).wf(),
            *node is Index,
        ensures
            final(self).wf(),
            (final(self)@, id) == comp_form(old(self)@, ast(*node)),
        decreases node, 0int,
    {
        match node {
            Node::Index { object, index } => {
                let x: u32 = self.compile_node(object);
                let y: u32 = self.compile_node(index);
                self.add(OpCode::Index, two(Operand::NodeRef(x), Operand::NodeRef(y)))
            },
            _ => 0,
        }
    }

    fn compile_range_form(&mut self, node: &Node) -> (id: u32)
        requires
            old(self).wf(),
            *node is Range,
        ensures
            final(self).wf(),
            (final(self)@, id) == comp_form(old(self)@, ast(*node)),
        decreases node, 0int,
    {
        match node {
            Node::Range { start, end } => {
                let x: u32 = self.compile_node(start);
                let y: u32 = self.compile_node(end);
                self.add(OpCode::Range, two(Operand::NodeRef(x), Operand::NodeRef(y)))
            },
            _ => 0,
        }
    }

    fn compile_pipe_form(&mut self, node: &Node) -> (id: u32)
        requires
            old(self).wf(),
            *node is Pipe,
        ensures
            final(self).wf(),
            (final(self)@, id) == comp_form(old(self)@, ast(*node)),
        decreases node, 0int,
    {
        match node {
            Node::Pipe { kind, data, func, init } => {
                let x: u32 = self.compile_node(data);
                let y: u32 = self.compile_node(func);
                match init {
                    Some(i) => {
                        let z: u32 = self.compile_node(i);
                        self.add(pipe_opcode(*kind), three(Operand::NodeRef(x), Operand::NodeRef(y), Operand::NodeRef(z)))
                    },
                    None => self.add(pipe_opcode(*kind), two(Operand::NodeRef(x), Operand::NodeRef(y))),
                }
            },
            _ => 0,
        }
    }

    fn compile_adapt_form(&mut self, node: &Node) -> (id: u32)
        requires
            old(self).wf(),
            *node is Adapt,
        ensures
            final(self).wf(),
            (final(self)@, id) == comp_form(old(self)@, ast(*node)),
        decreases node, 0int,
    {
        match node {
            Node::Adapt { target, body } => {
                let mut rest = self.compile_list(body);
                let slot: u32 = self.get_or_create_var(target.as_str());
                let mut ops: Vec<Operand> = one(Operand::VarSlot(slot));
                ops.append(&mut rest);
                self.add(OpCode::Adapt, ops)
            },
            _ => 0,
        }
    }

    fn compile_choice_form(&mut self, node: &Node) -> (id: u32)
        requires
            old(self).wf(),
            *node is Choice,
        ensures
            final(self).wf(),
            (final(self)@, id) == comp_form(old(self)@, ast(*node)),
        decreases node, 0int,
    {
        match node {
            Node::Choice { options } => {
                let ops = self.compile_list(options);
                let n: usize = options.len();
                let id: u32 = self.add(OpCode::AdaptiveChoice, ops);
                let contract = self.graph.nodes[id as usize].contract;
                self.set_weights(id, share_list(n), WeightKind::Adaptive, contract);
                id
            },
            _ => 0,
        }
    }

    fn compile_guard_form(&mut self, node: &Node) -> (id: u32)
        requires
            old(self).wf(),
            *node is Guard,
        ensures
            final(self).wf(),
            (final(self)@, id) == comp_form(old(self)@, ast(*node)),
        decreases node, 0int,
    {
        match node {
            Node::Guard { assumption, fast_path, fallback } => {
                let x: u32 = self.compile_node(assumption);
                let y: u32 = self.compile_node(fast_path);
                let z: u32 = self.compile_node(fallback);
                self.add(OpCode::Guard, three(Operand::NodeRef(x), Operand::NodeRef(y), Operand::NodeRef(z)))
            },
            _ => 0,
        }
    }

    fn compile_strategy_form(&mut self, node: &Node) -> (id: u32)
        requires
            old(self).wf(),
            *node is Strategy,
        ensures
            final(self).wf(),
            (final(self)@, id) == comp_form(old(self)@, ast(*node)),
        decreases node, 0int,
    {
        match node {
            Node::Strategy { options } => {
                let ops = self.compile_list(options);
                let n: usize = options.len();
                let id: u32 = self.add(OpCode::Strategy, ops);
                let mut weights = share_list(n);
                weights.push(Real { bits: TOLERANCE });
                self.set_weights(id, weights, WeightKind::Strategy, Contract::WithinTolerance);
                id
            },
            _ => 0,
        }
    }

    fn compile_feedback_form(&mut self, node: &Node) -> (id: u32)
        requires
            old(self).wf(),
            *node is Feedback,
        ensures
            final(self).wf(),
            (final(self)@, id) == comp_form(old(self)@, ast(*node)),
        decreases node, 0int,
    {
        match node {
            Node::Feedback { target, reward } => {
                let t: u32 = self.compile_target(target);
                let r: u32 = self.compile_node(reward);
                self.add(OpCode::Feedback, two(Operand::NodeRef(t), Operand::NodeRef(r)))
            },
            _ => 0,
        }
    }

    fn compile_builtin_form(&mut self, node: &Node) -> (id: u32)
        requires
            old(self).wf(),
            *node is Builtin,
        ensures
            final(self).wf(),
            (final(self)@, id) == comp_form(old(self)@, ast(*node)),
        decreases node, 0int,
    {
        match node {
            Node::Builtin { name, args } => {
                if same(name.as_str(), "lambert") {
                    let idx: u32 = self.graph.intern_string("astro.lambertSolve");
                    let n: u32 = self.add(OpCode::ConstStr, one(Operand::StringRef(idx)));
                    let ops = self.compile_behind(Operand::NodeRef(n), args);
                    self.add(OpCode::Capability, ops)
                } else {
                    let ops = self.compile_list(args);
                    self.add(builtin_opcode(name.as_str()), ops)
                }
            },
            _ => 0,
        }
    }

    fn compile_params(&mut self, params: &Vec<Param>) -> (ops: Vec<Operand>)
        requires
            old(self).wf(),
        ensures
            final(self).wf(),
            (final(self)@, ops@) == comp_params(old(self)@, param_views(params@)),
    {
        let ghost start = self@;
        let ghost all = param_views(params@);
        let mut ops: Vec<Operand> = Vec::new();
        let mut i: usize = 0;
        assert(all.take(0) == Seq::<ParamView>::empty());
        while i < params.len()
            invariant
                i <= params.len(),
                all == param_views(params@),
                self.wf(),
                (self@, ops@) == comp_params(start, all.take(i as int)),
            decreases params.len() - i,
        {
            let slot: u32 = self.get_or_create_var(params[i].name.as_str());
            ops.push(Operand::VarSlot(slot));
            assert(all.take(i + 1).drop_last() == all.take(i as int));
            i = i + 1;
        }
        assert(all.take(i as int) == all);
        ops
    }

    fn compile_branch(&mut self, x: u32, t: u32, e: u32) -> (id: u32)
        requires
            old(self).wf(),
        ensures
            final(self).wf(),
            (final(self)@, id) == comp_branch(old(self)@, x, t, e),
    {
        let half = Real { bits: HALF };
        let b: u32 = self.add(
            OpCode::Branch,
            three(Operand::NodeRef(x), Operand::NodeRef(t), Operand::NodeRef(e)),
        );
        self.graph.add_edge(b, t, half);
        self.graph.add_edge(b, e, half);
        let kind = self.graph.nodes[b as usize].weight_kind;
        let contract = self.graph.nodes[b as usize].contract;
        let mut weights: Vec<Real> = Vec::new();
        weights.push(half);
        weights.push(half);
        assert(weights@ == seq![half, half]);
        self.set_weights(b, weights, kind, contract);
        b
    }

    /// The node that feedback goes to: the producer of a bound name where
    /// there is one, else the compiled target.
    fn compile_target(&mut self, target: &Node) -> (id: u32)
        requires
            old(self).wf(),
        ensures
            final(self).wf(),
            (final(self)@, id) == ({
                let a = ast(*target);
                if a is Ident && old(self)@.producers.contains_key(a->Ident_0) {
                    (old(self)@, old(self)@.producers[a->Ident_0])
                } else {
                    comp(old(self)@, a)
                }
            }),
        decreases target, 2int,
    {
        match target {
            Node::Ident(name) => {
                match self.var_node.get(name.as_str()) {
                    Some(id) => {
                        return *id;
                    },
                    None => {},
                }
            },
            _ => {},
        }
        self.compile_node(target)
    }
}

} // verus!
