//! Which bytes stand for what in the files of programs and graphs.

use crate::ast::{Ast, OpKind, PipeKind};
use crate::binary::{enc, enc_all, enc_counted, enc_opt_node, enc_program, enc_str, op_kind_code, pipe_kind_code, tag_and_payload};
use crate::bytes::{from_le32, le32, le32_round_trip, le64, le_lengths};
use crate::graph::{Contract, Edge, GraphView, ImmValue, JournalEntry, MutationKind, NodeView, Objective, OpCode, Operand, WeightKind, contract_code, enc_edge, enc_edges, enc_entry, enc_graph, enc_head, enc_journal, enc_node, enc_nodes, enc_operand, enc_opt, enc_reals, enc_strings, mutation_code, objective_code, op_code, weight_kind_code};
use crate::number::Real;
use vstd::prelude::*;

verus! {

/// The operations in groups; each group has codes of its own, one after the other.
pub open spec fn group(k: int) -> (int, Seq<OpCode>) {
    if k == 0 {
        (
            0x01,
            seq![
                OpCode::ConstInt,
                OpCode::ConstFloat,
                OpCode::ConstStr,
                OpCode::ConstBool,
                OpCode::ConstNull,
                OpCode::LoadVar,
                OpCode::StoreVar,
            ],
        )
    } else if k == 1 {
        (
            0x10,
            seq![
                OpCode::Add,
                OpCode::Sub,
                OpCode::Mul,
                OpCode::Div,
                OpCode::Mod,
                OpCode::Neg,
            ],
        )
    } else if k == 2 {
        (
            0x20,
            seq![
                OpCode::Eq,
                OpCode::Neq,
                OpCode::Lt,
                OpCode::Gt,
                OpCode::Lte,
                OpCode::Gte,
            ],
        )
    } else if k == 3 {
        (0x30, seq![OpCode::And, OpCode::Or, OpCode::Not])
    } else if k == 4 {
        (
            0x40,
            seq![
                OpCode::Branch,
                OpCode::Merge,
                OpCode::Loop,
                OpCode::Sequence,
                OpCode::AdaptiveChoice,
                OpCode::Guard,
                OpCode::ForEach,
                OpCode::Repeat,
            ],
        )
    } else if k == 5 {
        (0x50, seq![OpCode::Define, OpCode::Call, OpCode::Return, OpCode::Lambda])
    } else if k == 6 {
        (
            0x60,
            seq![OpCode::Array, OpCode::Index, OpCode::Range, OpCode::Length, OpCode::Chars],
        )
    } else if k == 7 {
        (
            0x70,
            seq![
                OpCode::Print,
                OpCode::ReadLine,
                OpCode::ParseNum,
                OpCode::Split,
                OpCode::ToString,
                OpCode::Sin,
                OpCode::Cos,
                OpCode::Abs,
                OpCode::Floor,
                OpCode::Round,
                OpCode::Sqrt,
                OpCode::Ln,
                OpCode::Exp,
                OpCode::Atan2,
            ],
        )
    } else if k == 8 {
        (
            0x80,
            seq![
                OpCode::Adapt,
                OpCode::Weight,
                OpCode::Predict,
                OpCode::Feedback,
                OpCode::Spawn,
                OpCode::Prune,
                OpCode::Strategy,
            ],
        )
    } else if k == 9 {
        (0x90, seq![OpCode::Pipe, OpCode::Filter, OpCode::MapEach, OpCode::Reduce])
    } else if k == 10 {
        (0xA0, seq![OpCode::Capability])
    } else {
        (0xFE, seq![OpCode::Noop, OpCode::Halt])
    }
}

/// The codes of a group count up from its first.
pub proof fn codes_count_up_in_groups(k: int, i: int)
    requires
        0 <= k <= 11,
        0 <= i < group(k).1.len(),
    ensures
        op_code(group(k).1[i]) == group(k).0 + i,
{
}

/// The kinds of weights, contracts, objectives and mutations are numbered in their
/// order.
pub proof fn kinds_are_numbered(i: int)
    ensures
        ({
            let s = seq![
                WeightKind::Observational,
                WeightKind::Adaptive,
                WeightKind::TypeHint,
                WeightKind::Strategy,
                WeightKind::Decision,
            ];
            0 <= i < s.len() ==> weight_kind_code(s[i]) == i
        }),
        ({
            let s = seq![
                Contract::Unchecked,
                Contract::SameOutput,
                Contract::Validated,
                Contract::WithinTolerance,
            ];
            0 <= i < s.len() ==> contract_code(s[i]) == i
        }),
        ({
            let s = seq![
                Objective::General,
                Objective::Speed,
                Objective::Accuracy,
                Objective::Reliability,
                Objective::Cost,
                Objective::Risk,
                Objective::Confidence,
                Objective::Reward,
                Objective::MultiObjective,
            ];
            0 <= i < s.len() ==> objective_code(s[i]) == i
        }),
        ({
            let s = seq![
                MutationKind::WeightUpdate,
                MutationKind::TypeSpecialized,
                MutationKind::ConstantFolded,
                MutationKind::PathPruned,
                MutationKind::GuardInserted,
                MutationKind::NodeSpawned,
                MutationKind::FeedbackReceived,
                MutationKind::EvolutionStarted,
                MutationKind::ProposalAccepted,
                MutationKind::ProposalRejected,
                MutationKind::EvolutionCompleted,
            ];
            0 <= i < s.len() ==> mutation_code(s[i]) == i
        }),
        ({
            let s = seq![
                OpKind::Add,
                OpKind::Sub,
                OpKind::Mul,
                OpKind::Div,
                OpKind::Mod,
                OpKind::Eq,
                OpKind::Neq,
                OpKind::Lt,
                OpKind::Gt,
                OpKind::Lte,
                OpKind::Gte,
                OpKind::And,
                OpKind::Or,
                OpKind::Not,
                OpKind::Neg,
            ];
            0 <= i < s.len() ==> op_kind_code(s[i]) == i
        }),
        ({
            let s = seq![PipeKind::Pipe, PipeKind::Filter, PipeKind::MapEach, PipeKind::Reduce];
            0 <= i < s.len() ==> pipe_kind_code(s[i]) == i
        }),
{
}

/// A number is the sum of its bytes, each worth 256 times the one before.
pub proof fn bytes_add_up(v: u32, x: u64)
    ensures
        le32(v).len() == 4,
        le32(v)[0] + 0x100 * le32(v)[1] + 0x1_0000 * le32(v)[2] + 0x100_0000 * le32(v)[3] == v,
        le64(x).len() == 8,
        from_le32(le64(x), 0) + 0x1_0000_0000 * from_le32(le64(x), 4) == x,
{
    reveal(le32);
    reveal(le64);
    le_lengths(x, v);
    assert(v == v % 0x100 + ((v / 0x100) % 0x100) * 0x100 + ((v / 0x1_0000) % 0x100) * 0x1_0000 + ((
    v / 0x100_0000) % 0x100) * 0x100_0000);
    let lo = (x % 0x1_0000_0000) as u32;
    let hi = (x / 0x1_0000_0000) as u32;
    assert(le64(x).subrange(0, 4) =~= le32(lo));
    assert(le64(x).subrange(4, 8) =~= le32(hi));
    le32_round_trip(le64(x), 0, lo);
    le32_round_trip(le64(x), 4, hi);
}

/// A graph's file starts with four letters and its version; six numbers follow, and
/// then the strings.
pub proof fn graph_files_start_alike(g: GraphView)
    ensures
        ({
            let d = enc_graph(g);
            &&& d.len() >= 29
            &&& d.subrange(0, 4) == seq!['L' as u8, 'Y' as u8, 'C' as u8, 'N' as u8]
            &&& d[4] == g.header.version
            &&& d.subrange(5, 9) == le32(g.nodes.len() as u32)
            &&& d.subrange(9, 13) == le32(g.edges.len() as u32)
            &&& d.subrange(13, 17) == le32(g.state.len() as u32)
            &&& d.subrange(17, 21) == le32(g.string_table.len() as u32)
            &&& d.subrange(21, 25) == le32(g.header.flags)
            &&& d.subrange(25, 29) == le32(g.entry)
            &&& d.skip(29).take(enc_strings(g.string_table).len() as int) == enc_strings(
                g.string_table,
            )
        }),
{
    heads_have_their_places(g);
    let h = enc_head(g);
    let st = enc_strings(g.string_table);
    let rest = enc_nodes(g.nodes) + enc_edges(g.edges) + le32(g.state.len() as u32) + enc_reals(
        g.state,
    ) + le32(g.journal.len() as u32) + enc_journal(g.journal);
    let d = enc_graph(g);
    assert(d =~= h + st + rest);
    assert(d.subrange(0, 4) =~= h.subrange(0, 4));
    assert(d.subrange(5, 9) =~= h.subrange(5, 9));
    assert(d.subrange(9, 13) =~= h.subrange(9, 13));
    assert(d.subrange(13, 17) =~= h.subrange(13, 17));
    assert(d.subrange(17, 21) =~= h.subrange(17, 21));
    assert(d.subrange(21, 25) =~= h.subrange(21, 25));
    assert(d.subrange(25, 29) =~= h.subrange(25, 29));
    assert(d.skip(29).take(st.len() as int) =~= st);
}

proof fn heads_have_their_places(g: GraphView)
    ensures
        ({
            let d = enc_head(g);
            &&& d.len() == 29
            &&& d.subrange(0, 4) == seq!['L' as u8, 'Y' as u8, 'C' as u8, 'N' as u8]
            &&& d[4] == g.header.version
            &&& d.subrange(5, 9) == le32(g.nodes.len() as u32)
            &&& d.subrange(9, 13) == le32(g.edges.len() as u32)
            &&& d.subrange(13, 17) == le32(g.state.len() as u32)
            &&& d.subrange(17, 21) == le32(g.string_table.len() as u32)
            &&& d.subrange(21, 25) == le32(g.header.flags)
            &&& d.subrange(25, 29) == le32(g.entry)
        }),
{
    le_lengths(0, g.nodes.len() as u32);
    le_lengths(0, g.edges.len() as u32);
    le_lengths(0, g.state.len() as u32);
    le_lengths(0, g.string_table.len() as u32);
    le_lengths(0, g.header.flags);
    le_lengths(0, g.entry);
    let d = enc_head(g);
    assert(d.subrange(0, 4) =~= crate::graph::magic());
    assert(crate::graph::magic() =~= seq!['L' as u8, 'Y' as u8, 'C' as u8, 'N' as u8]);
    assert(d.subrange(5, 9) =~= le32(g.nodes.len() as u32));
    assert(d.subrange(9, 13) =~= le32(g.edges.len() as u32));
    assert(d.subrange(13, 17) =~= le32(g.state.len() as u32));
    assert(d.subrange(17, 21) =~= le32(g.string_table.len() as u32));
    assert(d.subrange(21, 25) =~= le32(g.header.flags));
    assert(d.subrange(25, 29) =~= le32(g.entry));
}

/// Where the parts of a node, an edge and an entry of the journal stand.
pub proof fn records_have_their_places(n: NodeView, e: Edge, j: JournalEntry)
    ensures
        ({
            let d = enc_node(n);
            let k = d.len();
            &&& d.subrange(0, 4) == le32(n.id)
            &&& d[4] == op_code(n.op)
            &&& d.subrange(5, 9) == le32(n.operands.len() as u32)
            &&& d[k - 1] == objective_code(n.objective)
            &&& d[k - 2] == contract_code(n.contract)
            &&& n.annotation is None ==> d[k - 3] == 0 && d[k - 4] == weight_kind_code(
                n.weight_kind,
            )
            &&& n.annotation is Some ==> d.subrange(k - 6, k - 2) == le32(n.annotation->Some_0)
                && d[k - 7] == 1 && d[k - 8] == weight_kind_code(n.weight_kind)
        }),
        ({
            let d = enc_edge(e);
            &&& d.subrange(0, 4) == le32(e.from)
            &&& d.subrange(4, 8) == le32(e.to)
            &&& d.subrange(8, 16) == le64(e.weight.bits)
            &&& e.gate is None ==> d.skip(16) == seq![0u8]
            &&& e.gate is Some ==> d.skip(16) == seq![1u8] + le32(e.gate->Some_0)
        }),
        ({
            let d = enc_entry(j);
            &&& d.len() == 17
            &&& d.subrange(0, 8) == le64(j.run_number)
            &&& d.subrange(8, 12) == le32(j.node_id)
            &&& d[12] == mutation_code(j.mutation)
            &&& d.subrange(13, 17) == le32(j.reason)
        }),
{
    le_lengths(e.weight.bits, n.id);
    le_lengths(j.run_number, n.operands.len() as u32);
    le_lengths(0, e.from);
    le_lengths(0, e.to);
    le_lengths(0, j.node_id);
    le_lengths(0, j.reason);
    if n.annotation is Some {
        le_lengths(0, n.annotation->Some_0);
    }
    let d = enc_node(n);
    let k = d.len();
    assert(d.subrange(0, 4) =~= le32(n.id));
    assert(d.subrange(5, 9) =~= le32(n.operands.len() as u32));
    if n.annotation is Some {
        assert(d.subrange(k - 6, k - 2) =~= le32(n.annotation->Some_0));
    }
    let x = enc_edge(e);
    assert(x.subrange(0, 4) =~= le32(e.from));
    assert(x.subrange(4, 8) =~= le32(e.to));
    assert(x.subrange(8, 16) =~= le64(e.weight.bits));
    assert(x.skip(16) =~= enc_opt(e.gate));
    let y = enc_entry(j);
    assert(y.subrange(0, 8) =~= le64(j.run_number));
    assert(y.subrange(8, 12) =~= le32(j.node_id));
    assert(y.subrange(13, 17) =~= le32(j.reason));
}

/// Operands begin with a tag, the number that they hold behind it.
pub proof fn operands_are_tagged(a: u32, n: i64, f: Real, b: bool)
    ensures
        enc_operand(Operand::NodeRef(a)) == seq![0x01u8] + le32(a),
        enc_operand(Operand::StateRef(a)) == seq![0x20u8] + le32(a),
        enc_operand(Operand::StringRef(a)) == seq![0x30u8] + le32(a),
        enc_operand(Operand::VarSlot(a)) == seq![0x40u8] + le32(a),
        enc_operand(Operand::Immediate(ImmValue::Int(n)))[0] == 0x10,
        enc_operand(Operand::Immediate(ImmValue::Int(n))).skip(1) == le64(n as u64),
        enc_operand(Operand::Immediate(ImmValue::Float(f))) == seq![0x11u8] + le64(f.bits),
        enc_operand(Operand::Immediate(ImmValue::Bool(b)))[0] == 0x12,
        enc_operand(Operand::Immediate(ImmValue::Bool(b)))[1] == 1 <==> b,
        enc_operand(Operand::Immediate(ImmValue::Null)) == seq![0x13u8],
{
    assert(enc_operand(Operand::Immediate(ImmValue::Int(n))).skip(1) =~= le64(n as u64));
}

/// A program's file starts with five letters, a zero and the version; the number of
/// its nodes follows.
pub proof fn program_files_start_alike(nodes: Seq<Ast>)
    ensures
        ({
            let d = enc_program(nodes);
            &&& d.subrange(0, 7) == seq![
                'L' as u8,
                'Y' as u8,
                'C' as u8,
                'A' as u8,
                'N' as u8,
                0u8,
                1u8,
            ]
            &&& d.subrange(7, 11) == le32(nodes.len() as u32)
            &&& d.skip(11) == enc_all(nodes)
        }),
{
    le_lengths(0, nodes.len() as u32);
    let d = enc_program(nodes);
    assert(d.subrange(0, 7) =~= seq![
        'L' as u8,
        'Y' as u8,
        'C' as u8,
        'A' as u8,
        'N' as u8,
        0u8,
        1u8,
    ]);
    assert(d.subrange(7, 11) =~= le32(nodes.len() as u32));
    assert(d.skip(11) =~= enc_all(nodes));
}

/// The first byte of a node tells what it is. Plain values are below 16, names that
/// are bound at 16 and 17, functions at 32 and 33, control from 48 on, lists from 64
/// on, and then operators, pipes, adaptations and builtins.
pub proof fn nodes_are_tagged(a: Ast)
    ensures
        enc(a).len() > 0,
        enc(a)[0] == 1 <==> a is Int,
        enc(a)[0] == 2 <==> a is Float,
        enc(a)[0] == 3 <==> a is Str,
        enc(a)[0] == 4 <==> a is Bool,
        enc(a)[0] == 5 <==> a is Null,
        enc(a)[0] == 6 <==> a is Ident,
        enc(a)[0] == 16 <==> a is Bind,
        enc(a)[0] == 17 <==> a is Assign,
        enc(a)[0] == 32 <==> a is Fn,
        enc(a)[0] == 33 <==> a is Call,
        enc(a)[0] == 48 <==> a is If,
        enc(a)[0] == 49 <==> a is While,
        enc(a)[0] == 50 <==> a is ForEach,
        enc(a)[0] == 51 <==> a is Repeat,
        enc(a)[0] == 52 <==> a is Return,
        enc(a)[0] == 53 <==> a is Block,
        enc(a)[0] == 64 <==> a is Array,
        enc(a)[0] == 65 <==> a is Index,
        enc(a)[0] == 66 <==> a is Range,
        enc(a)[0] == 80 <==> a is Op,
        enc(a)[0] == 96 <==> a is Pipe,
        enc(a)[0] == 112 <==> a is Adapt,
        enc(a)[0] == 128 <==> a is Builtin || a is Choice || a is Guard || a is Strategy
            || a is Feedback,
{
    assert(enc(a) == tag_and_payload(a));
}

/// The parts of a node follow each other as they are evaluated: a condition before
/// what it decides, a list before its index, a start before an end.
pub proof fn parts_are_written_in_order(x: Ast, y: Ast, z: Ast, s: Seq<Ast>, v: Seq<char>)
    ensures
        enc(Ast::Index { object: Box::new(x), index: Box::new(y) }) == seq![65u8] + enc(x) + enc(y),
        enc(Ast::Range { start: Box::new(x), end: Box::new(y) }) == seq![66u8] + enc(x) + enc(y),
        enc(Ast::Return(Box::new(x))) == seq![52u8] + enc(x),
        enc(Ast::While { cond: Box::new(x), body: s }) == seq![49u8] + enc(x) + enc_counted(s),
        enc(Ast::Repeat { count: Box::new(x), body: s }) == seq![51u8] + enc(x) + enc_counted(s),
        enc(Ast::Call { callee: Box::new(x), args: s }) == seq![33u8] + enc(x) + enc_counted(s),
        enc(Ast::ForEach { var: v, iterable: Box::new(x), body: s }) == seq![50u8] + enc_str(v)
            + enc(x) + enc_counted(s),
        enc(
            Ast::If {
                cond: Box::new(x),
                then_branch: Box::new(y),
                else_branch: Some(Box::new(z)),
            },
        ) == seq![48u8] + enc(x) + enc(y) + seq![1u8] + enc(z),
        enc(Ast::If { cond: Box::new(x), then_branch: Box::new(y), else_branch: None })
            == seq![48u8] + enc(x) + enc(y) + seq![0u8],
        enc_all(s.push(x)) == enc_all(s) + enc(x),
        enc_counted(s) == le32(s.len() as u32) + enc_all(s),
{
    assert(s.push(x).drop_last() =~= s);
    let a = Ast::If {
        cond: Box::new(x),
        then_branch: Box::new(y),
        else_branch: Some(Box::new(z)),
    };
    assert(enc(a) == tag_and_payload(a));
    assert(enc_opt_node(Some(Box::new(z))) == seq![1u8] + enc(z));
    assert(enc(a) =~= seq![48u8] + enc(x) + enc(y) + seq![1u8] + enc(z));
    let b = Ast::If { cond: Box::new(x), then_branch: Box::new(y), else_branch: None };
    assert(enc(b) == tag_and_payload(b));
    assert(enc_opt_node(None) == seq![0u8]);
}

} // verus!
