//! What writing a graph and reading it back gives.
use crate::bytes::{cat_assoc, le32, le32_round_trip, le64, le64_round_trip, le_lengths, lenient_u32, lenient_u64, lenient_u8, signed_bits_round_trip, split_at, stands_at};
use crate::graph::{Edge, FORMAT_VERSION, GraphHeader, GraphView, ImmValue, JournalEntry, NodeView, Operand, Parsed, contract_code, contract_of, dec_edge, dec_edges, dec_entry, dec_graph, dec_header, dec_journal, dec_list, dec_node, dec_node_tail, dec_nodes, dec_operand, dec_operands, dec_opt, dec_real, dec_reals, dec_string, dec_strings, dec_trailer, enc_edge, enc_edges, enc_entry, enc_graph, enc_head, enc_journal, enc_list, enc_node, enc_nodes, enc_operand, enc_operands, enc_opt, enc_reals, enc_string, enc_strings, magic, mutation_code, mutation_of, objective_code, objective_of, op_code, op_code_round_trip, weight_kind_code, weight_kind_of};
use crate::number::Real;
use vstd::prelude::*;
use vstd::utf8::*;

verus! {

proof fn read_byte(d: Seq<u8>, p: int, b: u8)
    requires
        stands_at(d, p, seq![b]),
    ensures
        lenient_u8(d, p) == (b, p + 1),
{
    assert(d.subrange(p, p + 1)[0] == d[p]);
}

proof fn read_word(d: Seq<u8>, p: int, v: u32)
    requires
        stands_at(d, p, le32(v)),
    ensures
        lenient_u32(d, p) == (v, p + 4),
        le32(v).len() == 4,
{
    le_lengths(0, v);
    le32_round_trip(d, p, v);
}

proof fn read_long(d: Seq<u8>, p: int, v: u64)
    requires
        stands_at(d, p, le64(v)),
    ensures
        lenient_u64(d, p) == (v, p + 8),
        le64(v).len() == 8,
{
    le_lengths(v, 0);
    le64_round_trip(d, p, v);
}

proof fn read_optional(d: Seq<u8>, p: int, v: Option<u32>)
    requires
        stands_at(d, p, enc_opt(v)),
    ensures
        dec_opt(d, p) == (v, p + enc_opt(v).len()),
{
    match v {
        Some(n) => {
            split_at(d, p, seq![1u8], le32(n));
            read_byte(d, p, 1);
            read_word(d, p + 1, n);
        },
        None => {
            read_byte(d, p, 0);
        },
    }
}

/// Items that are each read back are read back as a list.
proof fn read_list<T, U>(
    d: Seq<u8>,
    p: int,
    s: Seq<T>,
    enc: spec_fn(T) -> Seq<u8>,
    dec: spec_fn(Seq<u8>, int) -> Parsed<U>,
    back: spec_fn(T) -> U,
)
    requires
        stands_at(d, p, enc_list(s, enc)),
        forall|i: int, q: int|
            0 <= i < s.len() && #[trigger] stands_at(d, q, enc(s[i])) ==> dec(d, q) == Ok::<
                (U, int),
                Seq<char>,
            >((back(s[i]), q + enc(s[i]).len())),
    ensures
        dec_list(d, p, s.len(), dec) == Ok::<(Seq<U>, int), Seq<char>>(
            (s.map_values(back), p + enc_list(s, enc).len()),
        ),
    decreases s.len(),
{
    if s.len() == 0 {
        assert(s.map_values(back) == Seq::<U>::empty());
    } else {
        let front = s.drop_last();
        let last = s.len() - 1;
        assert(s.last() == s[last]);
        split_at(d, p, enc_list(front, enc), enc(s.last()));
        assert forall|i: int, q: int|
            0 <= i < front.len() && #[trigger] stands_at(d, q, enc(front[i])) implies dec(d, q)
            == Ok::<(U, int), Seq<char>>((back(front[i]), q + enc(front[i]).len())) by {
            assert(front[i] == s[i]);
            assert(stands_at(d, q, enc(s[i])));
        }
        read_list(d, p, front, enc, dec, back);
        assert(stands_at(d, p + enc_list(front, enc).len(), enc(s[last])));
        assert(s.map_values(back) == front.map_values(back).push(back(s[last])));
    }
}

proof fn read_operand(d: Seq<u8>, p: int, op: Operand)
    requires
        stands_at(d, p, enc_operand(op)),
    ensures
        dec_operand(d, p) == Ok::<(Operand, int), Seq<char>>((op, p + enc_operand(op).len())),
{
    match op {
        Operand::NodeRef(id) => {
            split_at(d, p, seq![0x01u8], le32(id));
            read_byte(d, p, 0x01);
            read_word(d, p + 1, id);
        },
        Operand::Immediate(ImmValue::Int(n)) => {
            split_at(d, p, seq![0x10u8], le64(n as u64));
            read_byte(d, p, 0x10);
            read_long(d, p + 1, n as u64);
            signed_bits_round_trip(n);
        },
        Operand::Immediate(ImmValue::Float(f)) => {
            split_at(d, p, seq![0x11u8], le64(f.bits));
            read_byte(d, p, 0x11);
            read_long(d, p + 1, f.bits);
        },
        Operand::Immediate(ImmValue::Bool(b)) => {
            let v: u8 = if b {
                1u8
            } else {
                0u8
            };
            assert(enc_operand(op) == seq![0x12u8] + seq![v]);
            split_at(d, p, seq![0x12u8], seq![v]);
            read_byte(d, p, 0x12);
            read_byte(d, p + 1, v);
        },
        Operand::Immediate(ImmValue::Null) => {
            read_byte(d, p, 0x13);
        },
        Operand::StateRef(idx) => {
            split_at(d, p, seq![0x20u8], le32(idx));
            read_byte(d, p, 0x20);
            read_word(d, p + 1, idx);
        },
        Operand::StringRef(idx) => {
            split_at(d, p, seq![0x30u8], le32(idx));
            read_byte(d, p, 0x30);
            read_word(d, p + 1, idx);
        },
        Operand::VarSlot(slot) => {
            split_at(d, p, seq![0x40u8], le32(slot));
            read_byte(d, p, 0x40);
            read_word(d, p + 1, slot);
        },
    }
}

proof fn read_operands(d: Seq<u8>, p: int, s: Seq<Operand>)
    requires
        stands_at(d, p, enc_operands(s)),
    ensures
        dec_operands(d, p, s.len()) == Ok::<(Seq<Operand>, int), Seq<char>>(
            (s, p + enc_operands(s).len()),
        ),
{
    let enc = |o: Operand| enc_operand(o);
    let dec = |d: Seq<u8>, p: int| dec_operand(d, p);
    let back = |o: Operand| o;
    assert forall|i: int, q: int|
        0 <= i < s.len() && #[trigger] stands_at(d, q, enc(s[i])) implies dec(d, q) == Ok::<
        (Operand, int),
        Seq<char>,
    >((back(s[i]), q + enc(s[i]).len())) by {
        read_operand(d, q, s[i]);
    }
    read_list(d, p, s, enc, dec, back);
    assert(s.map_values(back) == s);
}

proof fn read_reals(d: Seq<u8>, p: int, s: Seq<Real>)
    requires
        stands_at(d, p, enc_reals(s)),
    ensures
        dec_reals(d, p, s.len()) == Ok::<(Seq<Real>, int), Seq<char>>(
            (s, p + enc_reals(s).len()),
        ),
{
    let enc = |w: Real| le64(w.bits);
    let dec = |d: Seq<u8>, p: int| dec_real(d, p);
    let back = |w: Real| w;
    assert forall|i: int, q: int|
        0 <= i < s.len() && #[trigger] stands_at(d, q, enc(s[i])) implies dec(d, q) == Ok::<
        (Real, int),
        Seq<char>,
    >((back(s[i]), q + enc(s[i]).len())) by {
        read_long(d, q, s[i].bits);
    }
    read_list(d, p, s, enc, dec, back);
    assert(s.map_values(back) == s);
}

/// A node as it comes back from the file: the format has no code of its own
/// for decision weights, which are read as observational ones.
pub open spec fn node_back(n: NodeView) -> NodeView {
    NodeView { weight_kind: weight_kind_of(weight_kind_code(n.weight_kind)), ..n }
}

/// A graph as it comes back from the file: the header's counts are those of
/// the lists.
pub open spec fn graph_back(g: GraphView) -> GraphView {
    GraphView {
        header: GraphHeader {
            version: g.header.version,
            node_count: g.nodes.len() as u32,
            edge_count: g.edges.len() as u32,
            state_size: g.state.len() as u32,
            string_count: g.string_table.len() as u32,
            flags: g.header.flags,
        },
        nodes: g.nodes.map_values(|n: NodeView| node_back(n)),
        ..g
    }
}

/// Every list is short enough for its count field.
pub open spec fn counts_fit(g: GraphView) -> bool {
    &&& g.nodes.len() <= u32::MAX
    &&& g.edges.len() <= u32::MAX
    &&& g.state.len() <= u32::MAX
    &&& g.string_table.len() <= u32::MAX
    &&& g.journal.len() <= u32::MAX
    &&& forall|i: int|
        0 <= i < g.string_table.len() ==> (#[trigger] g.string_table[i]).len() <= u32::MAX
    &&& forall|i: int| 0 <= i < g.nodes.len() ==> node_fits(#[trigger] g.nodes[i])
}

pub open spec fn node_fits(n: NodeView) -> bool {
    n.operands.len() <= u32::MAX && n.weights.len() <= u32::MAX
}

proof fn read_node_tail(d: Seq<u8>, p: int, n: NodeView, a6: Seq<u8>)
    requires
        stands_at(
            d,
            p,
            a6 + le64(n.bias.bits) + le64(n.activation_count) + enc_opt(n.state_slot) + seq![
                weight_kind_code(n.weight_kind),
            ] + enc_opt(n.annotation) + seq![contract_code(n.contract)] + seq![
                objective_code(n.objective),
            ],
        ),
    ensures
        stands_at(d, p, a6),
        dec_node_tail(d, p + a6.len(), n.id, n.op, n.operands, n.weights) == (
            node_back(n),
            p + (a6 + le64(n.bias.bits) + le64(n.activation_count) + enc_opt(n.state_slot) + seq![
                weight_kind_code(n.weight_kind),
            ] + enc_opt(n.annotation) + seq![contract_code(n.contract)] + seq![
                objective_code(n.objective),
            ]).len(),
        ),
{
    let a7 = a6 + le64(n.bias.bits);
    let a8 = a7 + le64(n.activation_count);
    let a9 = a8 + enc_opt(n.state_slot);
    let a10 = a9 + seq![weight_kind_code(n.weight_kind)];
    let a11 = a10 + enc_opt(n.annotation);
    let a12 = a11 + seq![contract_code(n.contract)];
    split_at(d, p, a12, seq![objective_code(n.objective)]);
    split_at(d, p, a11, seq![contract_code(n.contract)]);
    split_at(d, p, a10, enc_opt(n.annotation));
    split_at(d, p, a9, seq![weight_kind_code(n.weight_kind)]);
    split_at(d, p, a8, enc_opt(n.state_slot));
    split_at(d, p, a7, le64(n.activation_count));
    split_at(d, p, a6, le64(n.bias.bits));
    read_long(d, p + a6.len(), n.bias.bits);
    read_long(d, p + a7.len(), n.activation_count);
    read_optional(d, p + a8.len(), n.state_slot);
    read_byte(d, p + a9.len(), weight_kind_code(n.weight_kind));
    read_optional(d, p + a10.len(), n.annotation);
    read_byte(d, p + a11.len(), contract_code(n.contract));
    read_byte(d, p + a12.len(), objective_code(n.objective));
    assert(contract_of(contract_code(n.contract)) == n.contract);
    assert(objective_of(objective_code(n.objective)) == n.objective);
}

proof fn read_node(d: Seq<u8>, p: int, n: NodeView)
    requires
        stands_at(d, p, enc_node(n)),
        node_fits(n),
    ensures
        dec_node(d, p) == Ok::<(NodeView, int), Seq<char>>((node_back(n), p + enc_node(n).len())),
{
    let a1 = le32(n.id);
    let a2 = a1 + seq![op_code(n.op)];
    let a3 = a2 + le32(n.operands.len() as u32);
    let a4 = a3 + enc_operands(n.operands);
    let a5 = a4 + le32(n.weights.len() as u32);
    let a6 = a5 + enc_reals(n.weights);
    read_node_tail(d, p, n, a6);
    split_at(d, p, a5, enc_reals(n.weights));
    split_at(d, p, a4, le32(n.weights.len() as u32));
    split_at(d, p, a3, enc_operands(n.operands));
    split_at(d, p, a2, le32(n.operands.len() as u32));
    split_at(d, p, a1, seq![op_code(n.op)]);
    read_word(d, p, n.id);
    read_byte(d, p + a1.len(), op_code(n.op));
    op_code_round_trip(n.op);
    read_word(d, p + a2.len(), n.operands.len() as u32);
    read_operands(d, p + a3.len(), n.operands);
    read_word(d, p + a4.len(), n.weights.len() as u32);
    read_reals(d, p + a5.len(), n.weights);
}

proof fn read_edge(d: Seq<u8>, p: int, e: Edge)
    requires
        stands_at(d, p, enc_edge(e)),
    ensures
        dec_edge(d, p) == Ok::<(Edge, int), Seq<char>>((e, p + enc_edge(e).len())),
{
    let a1 = le32(e.from);
    let a2 = a1 + le32(e.to);
    let a3 = a2 + le64(e.weight.bits);
    split_at(d, p, a3, enc_opt(e.gate));
    split_at(d, p, a2, le64(e.weight.bits));
    split_at(d, p, a1, le32(e.to));
    read_word(d, p, e.from);
    read_word(d, p + 4, e.to);
    read_long(d, p + 8, e.weight.bits);
    read_optional(d, p + 16, e.gate);
}

proof fn read_entry(d: Seq<u8>, p: int, e: JournalEntry)
    requires
        stands_at(d, p, enc_entry(e)),
    ensures
        dec_entry(d, p) == (e, p + 17),
        enc_entry(e).len() == 17,
{
    let a1 = le64(e.run_number);
    let a2 = a1 + le32(e.node_id);
    let a3 = a2 + seq![mutation_code(e.mutation)];
    split_at(d, p, a3, le32(e.reason));
    split_at(d, p, a2, seq![mutation_code(e.mutation)]);
    split_at(d, p, a1, le32(e.node_id));
    read_long(d, p, e.run_number);
    read_word(d, p + 8, e.node_id);
    read_byte(d, p + 12, mutation_code(e.mutation));
    read_word(d, p + 13, e.reason);
    assert(mutation_of(mutation_code(e.mutation)) == e.mutation);
}

proof fn read_journal(d: Seq<u8>, p: int, s: Seq<JournalEntry>)
    requires
        stands_at(d, p, enc_journal(s)),
    ensures
        dec_journal(d, p, s.len()) == (s, p + enc_journal(s).len()),
    decreases s.len(),
{
    let enc = |e: JournalEntry| enc_entry(e);
    if s.len() > 0 {
        let front = s.drop_last();
        split_at(d, p, enc_list(front, enc), enc(s.last()));
        read_journal(d, p, front);
        read_entry(d, p + enc_journal(front).len(), s.last());
        assert(front.push(s.last()) == s);
    }
}

proof fn read_string(d: Seq<u8>, p: int, s: Seq<u8>)
    requires
        stands_at(d, p, enc_string(s)),
        s.len() <= u32::MAX,
    ensures
        dec_string(d, p) == Ok::<(Seq<u8>, int), Seq<char>>((s, p + enc_string(s).len())),
{
    split_at(d, p, le32(s.len() as u32), s);
    read_word(d, p, s.len() as u32);
}

proof fn read_strings(d: Seq<u8>, p: int, s: Seq<Seq<u8>>)
    requires
        stands_at(d, p, enc_strings(s)),
        forall|i: int| 0 <= i < s.len() ==> (#[trigger] s[i]).len() <= u32::MAX,
    ensures
        dec_strings(d, p, s.len()) == Ok::<(Seq<Seq<u8>>, int), Seq<char>>(
            (s, p + enc_strings(s).len()),
        ),
{
    let enc = |x: Seq<u8>| enc_string(x);
    let dec = |d: Seq<u8>, p: int| dec_string(d, p);
    let back = |x: Seq<u8>| x;
    assert forall|i: int, q: int|
        0 <= i < s.len() && #[trigger] stands_at(d, q, enc(s[i])) implies dec(d, q) == Ok::<
        (Seq<u8>, int),
        Seq<char>,
    >((back(s[i]), q + enc(s[i]).len())) by {
        read_string(d, q, s[i]);
    }
    read_list(d, p, s, enc, dec, back);
    assert(s.map_values(back) == s);
}

proof fn read_nodes(d: Seq<u8>, p: int, s: Seq<NodeView>)
    requires
        stands_at(d, p, enc_nodes(s)),
        forall|i: int| 0 <= i < s.len() ==> node_fits(#[trigger] s[i]),
    ensures
        dec_nodes(d, p, s.len()) == Ok::<(Seq<NodeView>, int), Seq<char>>(
            (s.map_values(|n: NodeView| node_back(n)), p + enc_nodes(s).len()),
        ),
{
    let enc = |n: NodeView| enc_node(n);
    let dec = |d: Seq<u8>, p: int| dec_node(d, p);
    let back = |n: NodeView| node_back(n);
    assert forall|i: int, q: int|
        0 <= i < s.len() && #[trigger] stands_at(d, q, enc(s[i])) implies dec(d, q) == Ok::<
        (NodeView, int),
        Seq<char>,
    >((back(s[i]), q + enc(s[i]).len())) by {
        read_node(d, q, s[i]);
    }
    read_list(d, p, s, enc, dec, back);
}

proof fn read_edges(d: Seq<u8>, p: int, s: Seq<Edge>)
    requires
        stands_at(d, p, enc_edges(s)),
    ensures
        dec_edges(d, p, s.len()) == Ok::<(Seq<Edge>, int), Seq<char>>(
            (s, p + enc_edges(s).len()),
        ),
{
    let enc = |e: Edge| enc_edge(e);
    let dec = |d: Seq<u8>, p: int| dec_edge(d, p);
    let back = |e: Edge| e;
    assert forall|i: int, q: int|
        0 <= i < s.len() && #[trigger] stands_at(d, q, enc(s[i])) implies dec(d, q) == Ok::<
        (Edge, int),
        Seq<char>,
    >((back(s[i]), q + enc(s[i]).len())) by {
        read_edge(d, q, s[i]);
    }
    read_list(d, p, s, enc, dec, back);
    assert(s.map_values(back) == s);
}

proof fn read_head(d: Seq<u8>, g: GraphView)
    requires
        stands_at(d, 0, enc_head(g)),
        g.header.version == FORMAT_VERSION,
        counts_fit(g),
    ensures
        d.len() >= 29,
        enc_head(g).len() == 29,
        d.subrange(0, 4) == magic(),
        d[4] == FORMAT_VERSION,
        dec_header(d, 5) == (graph_back(g).header, g.entry, 29int),
{
    let a0 = magic();
    let a1 = a0 + seq![g.header.version];
    let a2 = a1 + le32(g.nodes.len() as u32);
    let a3 = a2 + le32(g.edges.len() as u32);
    let a4 = a3 + le32(g.state.len() as u32);
    let a5 = a4 + le32(g.string_table.len() as u32);
    let a6 = a5 + le32(g.header.flags);
    split_at(d, 0, a6, le32(g.entry));
    split_at(d, 0, a5, le32(g.header.flags));
    split_at(d, 0, a4, le32(g.string_table.len() as u32));
    split_at(d, 0, a3, le32(g.state.len() as u32));
    split_at(d, 0, a2, le32(g.edges.len() as u32));
    split_at(d, 0, a1, le32(g.nodes.len() as u32));
    split_at(d, 0, a0, seq![g.header.version]);
    read_byte(d, 4, g.header.version);
    read_word(d, 5, g.nodes.len() as u32);
    read_word(d, 9, g.edges.len() as u32);
    read_word(d, 13, g.state.len() as u32);
    read_word(d, 17, g.string_table.len() as u32);
    read_word(d, 21, g.header.flags);
    read_word(d, 25, g.entry);
}

spec fn through_nodes(g: GraphView) -> Seq<u8> {
    enc_head(g) + enc_strings(g.string_table) + enc_nodes(g.nodes)
}

spec fn trailer(g: GraphView) -> Seq<u8> {
    le32(g.state.len() as u32) + enc_reals(g.state) + le32(g.journal.len() as u32) + enc_journal(
        g.journal,
    )
}

proof fn read_trailer(d: Seq<u8>, p: int, g: GraphView)
    requires
        stands_at(d, p, trailer(g)),
        counts_fit(g),
    ensures
        dec_trailer(
            d,
            p,
            graph_back(g).header,
            g.entry,
            g.string_table,
            graph_back(g).nodes,
            g.edges,
        ) == Ok::<GraphView, Seq<char>>(graph_back(g)),
{
    let a4 = le32(g.state.len() as u32);
    let a5 = a4 + enc_reals(g.state);
    let a6 = a5 + le32(g.journal.len() as u32);
    split_at(d, p, a6, enc_journal(g.journal));
    split_at(d, p, a5, le32(g.journal.len() as u32));
    split_at(d, p, a4, enc_reals(g.state));
    read_word(d, p, g.state.len() as u32);
    read_reals(d, p + a4.len(), g.state);
    read_word(d, p + a5.len(), g.journal.len() as u32);
    read_journal(d, p + a6.len(), g.journal);
}

proof fn layout(g: GraphView)
    ensures
        enc_graph(g) == through_nodes(g) + enc_edges(g.edges) + trailer(g),
{
    let a3 = through_nodes(g) + enc_edges(g.edges);
    let b1 = le32(g.state.len() as u32);
    let b2 = enc_reals(g.state);
    let b3 = le32(g.journal.len() as u32);
    let b4 = enc_journal(g.journal);
    cat_assoc(a3, b1, b2);
    cat_assoc(a3, b1 + b2, b3);
    cat_assoc(a3, b1 + b2 + b3, b4);
}

/// Writing a graph and reading the bytes gives the graph back, up to the
/// header's counts, which become the true ones, and decision weights, which
/// become observational ones.
#[verifier::spinoff_prover]
#[verifier::rlimit(60)]
pub proof fn bytes_round_trip(g: GraphView)
    requires
        g.header.version == FORMAT_VERSION,
        counts_fit(g),
    ensures
        dec_graph(enc_graph(g)) == Ok::<GraphView, Seq<char>>(graph_back(g)),
{
    let d = enc_graph(g);
    let a0 = enc_head(g);
    let a1 = a0 + enc_strings(g.string_table);
    let a2 = a1 + enc_nodes(g.nodes);
    let a3 = a2 + enc_edges(g.edges);
    layout(g);
    assert(d.subrange(0, d.len() as int) == d);
    split_at(d, 0, a3, trailer(g));
    split_at(d, 0, a2, enc_edges(g.edges));
    split_at(d, 0, a1, enc_nodes(g.nodes));
    split_at(d, 0, a0, enc_strings(g.string_table));
    read_head(d, g);
    read_strings(d, a0.len() as int, g.string_table);
    read_nodes(d, a1.len() as int, g.nodes);
    read_edges(d, a2.len() as int, g.edges);
    read_trailer(d, a3.len() as int, g);
}

/// A graph that has been read once is read back unchanged ever after.
pub proof fn bytes_are_stable(g: GraphView)
    requires
        g.header.version == FORMAT_VERSION,
        counts_fit(g),
    ensures
        dec_graph(enc_graph(graph_back(g))) == Ok::<GraphView, Seq<char>>(graph_back(g)),
{
    let b = graph_back(g);
    assert(counts_fit(b));
    bytes_round_trip(b);
    assert(graph_back(b).nodes == b.nodes);
}

/// A string that was put into the table is found at its index.
pub proof fn interned_string_is_found(g: GraphView, s: Seq<char>)
    requires
        g.string_table.len() < u32::MAX,
    ensures
        g.with_string(encode_utf8(s)).string_at(g.string_table.len() as u32) == s,
{
    encode_utf8_valid_utf8(s);
    encode_utf8_decode_utf8(s);
}

} // verus!
