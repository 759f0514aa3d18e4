//! A program as JSON text, for inspection.
use crate::capabilities::{entry_json, entry_named, get, names, spec_json};
use crate::capability_list::listing;
use crate::graph::{Edge, GraphNode, GraphView, ImmValue, JournalEntry, NeuralGraph, NodeView, OpCode, Operand};
use crate::message::{Part, Piece, fixed, message_parts, number_list, parts_assoc, say, say_fixed, say_list, say_number, t};
use crate::number::{ONE, Real};
use crate::parse::chars_of;
use crate::real_constants::R_2_0;
use crate::reports::{capabilities_used_by_graph, is_called, kind_of_weights, mutation_name, mutation_word, op_name, op_word, weight_kind_name};
use crate::strings::{cat2, cat3, cat5, char_count};
use crate::table::precedes;
use crate::text::{dec, dec_nat, push_i64, u64_text};
use crate::values::texts;
use vstd::prelude::*;
use vstd::string::StringExecFns;

verus! {

/// `s` with a backslash before each quotation mark.
pub open spec fn quote_escaped(s: Seq<char>) -> Seq<char>
    decreases s.len(),
{
    if s.len() == 0 {
        s
    } else if s.last() == '"' {
        quote_escaped(s.drop_last()).push('\\').push('"')
    } else {
        quote_escaped(s.drop_last()).push(s.last())
    }
}

pub fn escape_quotes(s: &str) -> (r: String)
    ensures
        r@ == quote_escaped(s@),
{
    let v = chars_of(s);
    let mut r = String::new();
    let mut i: usize = 0;
    assert(v@.take(0) == Seq::<char>::empty());
    while i < v.len()
        invariant
            i <= v.len(),
            r@ == quote_escaped(v@.take(i as int)),
        decreases v.len() - i,
    {
        assert(v@.take(i + 1).drop_last() == v@.take(i as int));
        if v[i] == '"' {
            r.push('\\');
        }
        r.push(v[i]);
        i = i + 1;
    }
    assert(v@.take(i as int) == v@);
    r
}

/// The names that a program's capabilities have, in order.
pub open spec fn is_used_list(g: GraphView, used: Seq<Seq<char>>) -> bool {
    &&& forall|i: int, j: int|
        0 <= i < j < used.len() ==> precedes(#[trigger] used[i], #[trigger] used[j])
    &&& forall|name: Seq<char>|
        is_called(g, g.nodes.len() as int, name) <==> used.contains(name)
}

/// A comma, unless the item is the last, and the end of the line.
pub open spec fn line_end(i: int, n: int) -> Seq<char> {
    if i < n - 1 {
        ",\n"@
    } else {
        "\n"@
    }
}

fn line_end_text(i: usize, n: usize) -> (s: &'static str)
    requires
        i < n,
    ensures
        s@ == line_end(i as int, n as int),
{
    if i < n - 1 {
        ",\n"
    } else {
        "\n"
    }
}

pub open spec fn capability_text(name: Seq<char>) -> Seq<char> {
    match entry_named(listing(), name) {
        Some(e) => entry_json(e, 4),
        None => "    {\"name\": \""@ + quote_escaped(name) + "\", \"known\": false}"@,
    }
}

pub open spec fn capability_lines(used: Seq<Seq<char>>, n: int) -> Seq<char>
    decreases n,
{
    if n <= 0 {
        Seq::empty()
    } else {
        capability_lines(used, n - 1) + capability_text(used[n - 1]) + line_end(
            n - 1,
            used.len() as int,
        )
    }
}

fn capability_lines_text(used: &Vec<String>) -> (s: String)
    ensures
        s@ == capability_lines(texts(used@), used@.len() as int),
{
    let ghost all = texts(used@);
    let mut s = String::new();
    let mut i: usize = 0;
    while i < used.len()
        invariant
            i <= used.len(),
            all == texts(used@),
            s@ == capability_lines(all, i as int),
        decreases used.len() - i,
    {
        assert(all[i as int] == used@[i as int]@);
        let name = used[i].as_str();
        let one = match get(name) {
            Some(spec) => spec_json(&spec, 4),
            None => cat3(
                "    {\"name\": \"",
                escape_quotes(name).as_str(),
                "\", \"known\": false}",
            ),
        };
        s.append(one.as_str());
        s.append(line_end_text(i, used.len()));
        i = i + 1;
    }
    s
}

/// How many of the first `n` nodes are live.
pub open spec fn live_count(s: Seq<NodeView>, n: int) -> int
    decreases n,
{
    if n <= 0 {
        0
    } else {
        live_count(s, n - 1) + (if s[n - 1].op != OpCode::Noop {
            1int
        } else {
            0
        })
    }
}

proof fn live_count_bounds(s: Seq<NodeView>, n: int, m: int)
    requires
        0 <= n <= m <= s.len(),
    ensures
        0 <= live_count(s, n) <= n,
        live_count(s, n) <= live_count(s, m),
    decreases m,
{
    if n < m {
        live_count_bounds(s, n, m - 1);
    } else if n > 0 {
        live_count_bounds(s, n - 1, n - 1);
    }
}

/// The number of live nodes.
pub fn count_live(g: &NeuralGraph) -> (n: usize)
    ensures
        n == live_count(g@.nodes, g@.nodes.len() as int),
{
    let mut n: usize = 0;
    let mut i: usize = 0;
    while i < g.nodes.len()
        invariant
            i <= g.nodes.len(),
            g@.nodes.len() == g.nodes@.len(),
            n == live_count(g@.nodes, i as int),
            n <= i,
        decreases g.nodes.len() - i,
    {
        assert(g@.nodes[i as int] == g.nodes@[i as int]@);
        if g.nodes[i].op != OpCode::Noop {
            n = n + 1;
        }
        i = i + 1;
    }
    n
}

/// An operand as JSON.
pub open spec fn operand_parts(g: GraphView, op: Operand) -> Seq<Part> {
    match op {
        Operand::NodeRef(id) => t("{\"ref\": "@ + dec_nat(id as nat) + "}"@),
        Operand::Immediate(ImmValue::Int(n)) => t("{\"int\": "@ + dec(n as int) + "}"@),
        Operand::Immediate(ImmValue::Float(f)) => t("{\"float\": "@) + seq![Part::Number(f)] + t(
            "}"@,
        ),
        Operand::Immediate(ImmValue::Bool(b)) => t(
            if b {
                "{\"bool\": true}"@
            } else {
                "{\"bool\": false}"@
            },
        ),
        Operand::Immediate(ImmValue::Null) => t("\"null\""@),
        Operand::StateRef(i) => t("{\"state\": "@ + dec_nat(i as nat) + "}"@),
        Operand::StringRef(i) => t("{\"str\": \""@ + quote_escaped(g.string_at(i)) + "\"}"@),
        Operand::VarSlot(i) => t("{\"var\": "@ + dec_nat(i as nat) + "}"@),
    }
}

fn say_operand(out: &mut Vec<Piece>, g: &NeuralGraph, op: &Operand)
    ensures
        message_parts(final(out)@) == message_parts(old(out)@) + operand_parts(g@, *op),
{
    broadcast use parts_assoc;

    match op {
        Operand::NodeRef(id) => say(
            out,
            cat3("{\"ref\": ", u64_text(*id as u64).as_str(), "}").as_str(),
        ),
        Operand::Immediate(ImmValue::Int(n)) => {
            let mut s = String::new();
            push_i64(&mut s, *n);
            assert(s@ =~= dec(*n as int));
            say(out, cat3("{\"int\": ", s.as_str(), "}").as_str());
        },
        Operand::Immediate(ImmValue::Float(f)) => {
            say(out, "{\"float\": ");
            say_number(out, *f);
            say(out, "}");
        },
        Operand::Immediate(ImmValue::Bool(b)) => say(
            out,
            if *b {
                "{\"bool\": true}"
            } else {
                "{\"bool\": false}"
            },
        ),
        Operand::Immediate(ImmValue::Null) => say(out, "\"null\""),
        Operand::StateRef(i) => say(
            out,
            cat3("{\"state\": ", u64_text(*i as u64).as_str(), "}").as_str(),
        ),
        Operand::StringRef(i) => {
            let s = g.get_string(*i);
            say(out, cat3("{\"str\": \"", escape_quotes(s.as_str()).as_str(), "\"}").as_str());
        },
        Operand::VarSlot(i) => say(
            out,
            cat3("{\"var\": ", u64_text(*i as u64).as_str(), "}").as_str(),
        ),
    }
}

/// Operands with commas between them.
pub open spec fn operands_parts(g: GraphView, s: Seq<Operand>) -> Seq<Part>
    decreases s.len(),
{
    if s.len() == 0 {
        Seq::empty()
    } else if s.len() == 1 {
        operand_parts(g, s[0])
    } else {
        operands_parts(g, s.drop_last()) + t(", "@) + operand_parts(g, s.last())
    }
}

fn say_operands(out: &mut Vec<Piece>, g: &NeuralGraph, v: &Vec<Operand>)
    ensures
        message_parts(final(out)@) == message_parts(old(out)@) + operands_parts(g@, v@),
{
    let ghost before = message_parts(out@);
    if v.len() == 0 {
        assert(before + Seq::<Part>::empty() =~= before);
        return ;
    }
    say_operand(out, g, &v[0]);
    let mut i: usize = 1;
    assert(v@.take(1)[0] == v@[0]);
    while i < v.len()
        invariant
            1 <= i <= v.len(),
            message_parts(out@) == before + operands_parts(g@, v@.take(i as int)),
        decreases v.len() - i,
    {
        broadcast use parts_assoc;

        assert(v@.take(i + 1).drop_last() =~= v@.take(i as int));
        say(out, ", ");
        say_operand(out, g, &v[i]);
        i = i + 1;
    }
    assert(v@.take(i as int) =~= v@);
}

pub open spec fn hint_word(bias: Real) -> Seq<char> {
    if bias.same_value(Real { bits: ONE }) {
        "\"int\""@
    } else if bias.same_value(Real { bits: R_2_0 }) {
        "\"float\""@
    } else {
        "\"unknown\""@
    }
}

/// The meaning that is noted of a node.
pub open spec fn meaning(g: GraphView, n: NodeView) -> Seq<char> {
    match n.annotation {
        Some(i) => g.string_at(i),
        None => Seq::empty(),
    }
}

pub open spec fn weights_parts(n: NodeView) -> Seq<Part> {
    if n.weights.len() > 0 {
        t(", \"weights\": ["@) + number_list(n.weights, 4) + t(
            "], \"weight_kind\": \""@ + kind_of_weights(n.weight_kind) + "\""@,
        )
    } else {
        Seq::empty()
    }
}

pub open spec fn hint_parts(n: NodeView) -> Seq<Part> {
    if !n.bias.same_value(Real { bits: 0 }) {
        t(", \"type_hint\": "@ + hint_word(n.bias))
    } else {
        Seq::empty()
    }
}

pub open spec fn meaning_parts(g: GraphView, n: NodeView) -> Seq<Part> {
    if meaning(g, n).len() > 0 {
        t(", \"meaning\": \""@ + quote_escaped(meaning(g, n)) + "\""@)
    } else {
        Seq::empty()
    }
}

pub open spec fn inputs_parts(g: GraphView, n: NodeView) -> Seq<Part> {
    if n.operands.len() > 0 {
        t(", \"operands\": ["@) + operands_parts(g, n.operands) + t("]"@)
    } else {
        Seq::empty()
    }
}

/// A node as JSON.
#[verifier::opaque]
pub open spec fn node_parts(g: GraphView, n: NodeView) -> Seq<Part> {
    t(
        "    {\"id\": "@ + dec_nat(n.id as nat) + ", \"op\": \""@ + op_word(n.op)
            + "\", \"fired\": "@ + dec_nat(n.activation_count as nat),
    ) + weights_parts(n) + hint_parts(n) + meaning_parts(g, n) + inputs_parts(g, n) + t("}"@)
}

fn say_node_middle(out: &mut Vec<Piece>, g: &NeuralGraph, n: &GraphNode)
    ensures
        message_parts(final(out)@) == message_parts(old(out)@) + (hint_parts(n@) + meaning_parts(
            g@,
            n@,
        )),
{
    broadcast use parts_assoc;

    let ghost before = message_parts(out@);
    assert(before + Seq::<Part>::empty() =~= before);
    if !n.bias.eq_value(Real::zero()) {
        let word = if n.bias.eq_value(Real::one()) {
            "\"int\""
        } else if n.bias.eq_value(Real { bits: R_2_0 }) {
            "\"float\""
        } else {
            "\"unknown\""
        };
        say(out, cat2(", \"type_hint\": ", word).as_str());
    }
    let ghost so_far = message_parts(out@);
    assert(so_far + Seq::<Part>::empty() =~= so_far);
    let m = match n.annotation {
        Some(i) => g.get_string(i),
        None => String::new(),
    };
    if char_count(m.as_str()) > 0 {
        say(
            out,
            cat3(", \"meaning\": \"", escape_quotes(m.as_str()).as_str(), "\"").as_str(),
        );
    }
}

fn say_node(out: &mut Vec<Piece>, g: &NeuralGraph, n: &GraphNode)
    ensures
        message_parts(final(out)@) == message_parts(old(out)@) + node_parts(g@, n@),
{
    broadcast use parts_assoc;

    proof {
        reveal(node_parts);
    }
    let mut head = cat5(
        "    {\"id\": ",
        u64_text(n.id as u64).as_str(),
        ", \"op\": \"",
        op_name(n.op),
        "\", \"fired\": ",
    );
    head.append(u64_text(n.activation_count).as_str());
    say(out, head.as_str());
    let ghost so_far = message_parts(out@);
    assert(so_far + Seq::<Part>::empty() =~= so_far);
    if n.weights.len() > 0 {
        say(out, ", \"weights\": [");
        say_list(out, &n.weights, 4);
        say(
            out,
            cat3("], \"weight_kind\": \"", weight_kind_name(n.weight_kind), "\"").as_str(),
        );
    }
    say_node_middle(out, g, n);
    let ghost so_far = message_parts(out@);
    assert(so_far + Seq::<Part>::empty() =~= so_far);
    if n.operands.len() > 0 {
        say(out, ", \"operands\": [");
        say_operands(out, g, &n.operands);
        say(out, "]");
    }
    say(out, "}");
}

/// The live ones of the first `n` nodes as JSON.
pub open spec fn nodes_parts(g: GraphView, n: int) -> Seq<Part>
    decreases n,
{
    if n <= 0 {
        Seq::empty()
    } else if g.nodes[n - 1].op == OpCode::Noop {
        nodes_parts(g, n - 1)
    } else {
        nodes_parts(g, n - 1) + node_parts(g, g.nodes[n - 1]) + t(
            line_end(live_count(g.nodes, n - 1), live_count(g.nodes, g.nodes.len() as int)),
        )
    }
}

fn say_nodes(out: &mut Vec<Piece>, g: &NeuralGraph)
    ensures
        message_parts(final(out)@) == message_parts(old(out)@) + nodes_parts(
            g@,
            g@.nodes.len() as int,
        ),
{
    let ghost before = message_parts(out@);
    let live: usize = count_live(g);
    let mut seen: usize = 0;
    let mut i: usize = 0;
    assert(before + Seq::<Part>::empty() =~= before);
    while i < g.nodes.len()
        invariant
            i <= g.nodes.len(),
            g@.nodes.len() == g.nodes@.len(),
            live == live_count(g@.nodes, g@.nodes.len() as int),
            seen == live_count(g@.nodes, i as int),
            seen <= i,
            message_parts(out@) == before + nodes_parts(g@, i as int),
        decreases g.nodes.len() - i,
    {
        broadcast use parts_assoc;

        assert(g@.nodes[i as int] == g.nodes@[i as int]@);
        if g.nodes[i].op != OpCode::Noop {
            proof {
                live_count_bounds(g@.nodes, i + 1, g@.nodes.len() as int);
            }
            say_node(out, g, &g.nodes[i]);
            say(out, line_end_text(seen, live));
            seen = seen + 1;
        }
        i = i + 1;
    }
}

/// An edge as JSON.
pub open spec fn edge_parts(e: Edge, i: int, n: int) -> Seq<Part> {
    t(
        "    {\"from\": "@ + dec_nat(e.from as nat) + ", \"to\": "@ + dec_nat(e.to as nat)
            + ", \"weight\": "@,
    ) + fixed(e.weight, 4) + t(
        (match e.gate {
            Some(gate) => ", \"gate\": "@ + dec_nat(gate as nat) + "}"@,
            None => "}"@,
        }) + line_end(i, n),
    )
}

pub open spec fn edges_parts(s: Seq<Edge>, n: int) -> Seq<Part>
    decreases n,
{
    if n <= 0 {
        Seq::empty()
    } else {
        edges_parts(s, n - 1) + edge_parts(s[n - 1], n - 1, s.len() as int)
    }
}

fn say_edges(out: &mut Vec<Piece>, s: &Vec<Edge>)
    ensures
        message_parts(final(out)@) == message_parts(old(out)@) + edges_parts(
            s@,
            s@.len() as int,
        ),
{
    let ghost before = message_parts(out@);
    let mut i: usize = 0;
    assert(before + Seq::<Part>::empty() =~= before);
    while i < s.len()
        invariant
            i <= s.len(),
            message_parts(out@) == before + edges_parts(s@, i as int),
        decreases s.len() - i,
    {
        broadcast use parts_assoc;

        let e = s[i];
        say(
            out,
            cat5(
                "    {\"from\": ",
                u64_text(e.from as u64).as_str(),
                ", \"to\": ",
                u64_text(e.to as u64).as_str(),
                ", \"weight\": ",
            ).as_str(),
        );
        say_fixed(out, e.weight, 4);
        let mut tail = match e.gate {
            Some(gate) => cat3(", \"gate\": ", u64_text(gate as u64).as_str(), "}"),
            None => String::from_str("}"),
        };
        tail.append(line_end_text(i, s.len()));
        say(out, tail.as_str());
        i = i + 1;
    }
}

/// A journal entry as JSON.
pub open spec fn entry_text(g: GraphView, e: JournalEntry, i: int, n: int) -> Seq<char> {
    let reason = g.string_at(e.reason);
    "    {\"run\": "@ + dec_nat(e.run_number as nat) + ", \"node\": "@ + dec_nat(e.node_id as nat)
        + ", \"mutation\": \""@ + mutation_word(e.mutation) + "\""@ + (if e.reason != u32::MAX
        && reason.len() > 0 {
        ", \"reason\": \""@ + quote_escaped(reason) + "\""@
    } else {
        Seq::empty()
    }) + "}"@ + line_end(i, n)
}

pub open spec fn journal_parts(g: GraphView, n: int) -> Seq<Part>
    decreases n,
{
    if n <= 0 {
        Seq::empty()
    } else {
        journal_parts(g, n - 1) + t(
            entry_text(g, g.journal[n - 1], n - 1, g.journal.len() as int),
        )
    }
}

fn say_journal(out: &mut Vec<Piece>, g: &NeuralGraph)
    ensures
        message_parts(final(out)@) == message_parts(old(out)@) + journal_parts(
            g@,
            g@.journal.len() as int,
        ),
{
    let ghost before = message_parts(out@);
    let mut i: usize = 0;
    assert(before + Seq::<Part>::empty() =~= before);
    while i < g.journal.len()
        invariant
            i <= g.journal.len(),
            message_parts(out@) == before + journal_parts(g@, i as int),
        decreases g.journal.len() - i,
    {
        broadcast use parts_assoc;

        let e = g.journal[i];
        let mut s = cat5(
            "    {\"run\": ",
            u64_text(e.run_number).as_str(),
            ", \"node\": ",
            u64_text(e.node_id as u64).as_str(),
            ", \"mutation\": \"",
        );
        s.append(mutation_name(e.mutation));
        s.append("\"");
        let ghost so_far = s@;
        assert(so_far + Seq::<char>::empty() =~= so_far);
        let reason = g.get_string(e.reason);
        if e.reason != u32::MAX && char_count(reason.as_str()) > 0 {
            let r = cat3(", \"reason\": \"", escape_quotes(reason.as_str()).as_str(), "\"");
            s.append(r.as_str());
        }
        s.append("}");
        s.append(line_end_text(i, g.journal.len()));
        assert(s@ =~= entry_text(g@, e, i as int, g@.journal.len() as int));
        say(out, s.as_str());
        i = i + 1;
    }
}

/// The head of the inspection: counts, and the capabilities that are used.
pub open spec fn head_text(g: GraphView, used: Seq<Seq<char>>) -> Seq<char> {
    "{\n  \"format\": \"lycan-graph-v"@ + dec_nat(g.header.version as nat) + "\",\n  \"entry\": "@
        + dec_nat(g.entry as nat) + ",\n  \"total_nodes\": "@ + dec_nat(g.nodes.len())
        + ",\n  \"live_nodes\": "@ + dec_nat(
        live_count(g.nodes, g.nodes.len() as int) as nat,
    ) + ",\n  \"edges\": "@ + dec_nat(g.edges.len()) + ",\n  \"strings\": "@ + dec_nat(
        g.string_table.len(),
    ) + ",\n  \"journal_entries\": "@ + dec_nat(g.journal.len())
        + ",\n  \"capabilities_used\": [\n"@ + capability_lines(used, used.len() as int)
        + "  ],\n  \"nodes\": [\n"@
}

/// A program as JSON text.
pub open spec fn inspection(g: GraphView, used: Seq<Seq<char>>) -> Seq<Part> {
    t(head_text(g, used)) + nodes_parts(g, g.nodes.len() as int) + t("  ],\n  \"edges\": [\n"@)
        + edges_parts(g.edges, g.edges.len() as int) + t("  ],\n  \"journal\": [\n"@)
        + journal_parts(g, g.journal.len() as int) + t("  ]\n}\n"@)
}

fn head_of(g: &NeuralGraph, used: &Vec<String>) -> (s: String)
    ensures
        s@ == head_text(g@, texts(used@)),
{
    let mut s = cat2(
        "{\n  \"format\": \"lycan-graph-v",
        u64_text(g.header.version as u64).as_str(),
    );
    s.append("\",\n  \"entry\": ");
    s.append(u64_text(g.entry as u64).as_str());
    s.append(",\n  \"total_nodes\": ");
    s.append(u64_text(g.nodes.len() as u64).as_str());
    s.append(",\n  \"live_nodes\": ");
    s.append(u64_text(count_live(g) as u64).as_str());
    s.append(",\n  \"edges\": ");
    s.append(u64_text(g.edges.len() as u64).as_str());
    s.append(",\n  \"strings\": ");
    s.append(u64_text(g.string_table.len() as u64).as_str());
    s.append(",\n  \"journal_entries\": ");
    s.append(u64_text(g.journal.len() as u64).as_str());
    s.append(",\n  \"capabilities_used\": [\n");
    s.append(capability_lines_text(used).as_str());
    s.append("  ],\n  \"nodes\": [\n");
    proof {
        assert(g@.nodes.len() == g.nodes@.len());
        assert(g@.string_table.len() == g.string_table@.len());
        assert(texts(used@).len() == used@.len());
    }
    s
}

/// A program as JSON text.
pub fn inspect_json(g: &NeuralGraph) -> (out: Vec<Piece>)
    ensures
        exists|used: Seq<Seq<char>>| #[trigger]
            is_used_list(g@, used) && message_parts(out@) == inspection(g@, used),
{
    broadcast use parts_assoc;

    let used = capabilities_used_by_graph(g);
    let ghost names = texts(used@);
    assert forall|i: int, j: int| 0 <= i < j < names.len() implies precedes(
        #[trigger] names[i],
        #[trigger] names[j],
    ) by {
        assert(precedes(used@[i]@, used@[j]@));
    }
    assert(is_used_list(g@, names));
    let mut out: Vec<Piece> = Vec::new();
    let ghost empty = Seq::<Part>::empty();
    assert(message_parts(out@) =~= empty);
    say(&mut out, head_of(g, &used).as_str());
    say_nodes(&mut out, g);
    say(&mut out, "  ],\n  \"edges\": [\n");
    say_edges(&mut out, &g.edges);
    say(&mut out, "  ],\n  \"journal\": [\n");
    say_journal(&mut out, g);
    say(&mut out, "  ]\n}\n");
    assert(empty + inspection(g@, names) =~= inspection(g@, names));
    out
}

} // verus!
