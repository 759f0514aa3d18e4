//! Changes to a program from outside: feedback, and weights of another program.
use crate::graph::{Contract, GraphNode, GraphView, JournalEntry, MutationKind, NeuralGraph, NodeView, Objective, OpCode};
use crate::inspect::{escape_quotes, quote_escaped};
use crate::message::{Part, Piece, fixed, message_parts, number_list, parts_assoc, say, say_fixed, say_list, t};
use crate::number::{Real, cut_to};
use crate::reports::{op_name, op_word, option_count, weight_at};
use crate::run_model::is_decision;
use crate::strings::{cat3, cat4, cat5};
use crate::text::{dec, dec_nat, digit, hex_byte, u64_text};
use crate::weighing::{is_positive, positive, rewarded_weights, scale_weights, scaled_weights, weigh_reward};
use vstd::prelude::*;
use vstd::string::StringExecFns;

verus! {

// Feedback

/// Why feedback on an option of a node is refused.
pub open spec fn node_fault(g: GraphView, node_id: u32, option: int) -> Option<Seq<char>> {
    if node_id >= g.nodes.len() {
        Some("node #"@ + dec_nat(node_id as nat) + " does not exist"@)
    } else {
        let n = g.nodes[node_id as int];
        if !is_decision(n.op) {
            Some(
                "node #"@ + dec_nat(node_id as nat) + " is "@ + op_word(n.op)
                    + ", not Strategy/AdaptiveChoice"@,
            )
        } else if option >= option_count(n) {
            Some(
                "option "@ + dec(option) + " out of range (node has "@ + dec(
                    option_count(n) as int,
                ) + " options)"@,
            )
        } else {
            None
        }
    }
}

/// Checks feedback on an option of a node, and gives the number of options.
pub fn check_feedback(g: &NeuralGraph, node_id: u32, option: usize) -> (r: Result<usize, String>)
    ensures
        match node_fault(g@, node_id, option as int) {
            Some(e) => r is Err && r->Err_0@ == e,
            None => r is Ok && r->Ok_0 == option_count(g@.nodes[node_id as int]) && option
                < r->Ok_0,
        },
{
    let id = u64_text(node_id as u64);
    assert(g@.nodes.len() == g.nodes@.len());
    if (node_id as usize) >= g.nodes.len() {
        return Err(cat3("node #", id.as_str(), " does not exist"));
    }
    let n = &g.nodes[node_id as usize];
    assert(g@.nodes[node_id as int] == n@);
    if !(n.op == OpCode::Strategy || n.op == OpCode::AdaptiveChoice) {
        return Err(
            cat5(
                "node #",
                id.as_str(),
                " is ",
                op_name(n.op),
                ", not Strategy/AdaptiveChoice",
            ),
        );
    }
    let many: usize = if n.contract == Contract::WithinTolerance && n.weights.len() > 1 {
        n.weights.len() - 1
    } else {
        n.weights.len()
    };
    if option >= many {
        return Err(
            cat5(
                "option ",
                u64_text(option as u64).as_str(),
                " out of range (node has ",
                u64_text(many as u64).as_str(),
                " options)",
            ),
        );
    }
    Ok(many)
}

/// The place in the state where an option's tries are counted; the right ones
/// two places on.
pub open spec fn count_place(g: GraphView, node_id: u32, option: int) -> Option<int> {
    match g.nodes[node_id as int].state_slot {
        Some(slot) => if slot + option * 3 + 2 < g.state.len() {
            Some(slot + option * 3)
        } else {
            None
        },
        None => None,
    }
}

/// The place in the state where an option's tries are counted.
pub fn find_count_place(g: &NeuralGraph, node_id: u32, option: usize) -> (r: Option<usize>)
    requires
        node_id < g@.nodes.len(),
    ensures
        match count_place(g@, node_id, option as int) {
            Some(i) => r is Some && r->Some_0 == i && i + 2 < g@.state.len(),
            None => r is None,
        },
{
    assert(g@.nodes[node_id as int] == g.nodes@[node_id as int]@);
    match g.nodes[node_id as usize].state_slot {
        Some(slot) => {
            let base: u128 = slot as u128 + option as u128 * 3;
            if base + 2 < g.state.len() as u128 {
                Some(base as usize)
            } else {
                None
            }
        },
        None => None,
    }
}

/// The first weights replaced by others.
pub open spec fn reweighted(w: Seq<Real>, first: Seq<Real>) -> Seq<Real> {
    Seq::new(
        w.len(),
        |i: int|
            if i < first.len() {
                first[i]
            } else {
                w[i]
            },
    )
}

/// A node with other weights in front.
pub open spec fn node_reweighted(n: NodeView, first: Seq<Real>) -> NodeView {
    NodeView { weights: reweighted(n.weights, first), ..n }
}

/// The state with an option's counts: its tries, and the right ones where they
/// grew.
pub open spec fn recounted(s: Seq<Real>, at: Option<int>, tries: Real, right: Option<Real>) -> Seq<
    Real,
> {
    match at {
        Some(i) => {
            let t = s.update(i, tries);
            match right {
                Some(r) => t.update(i + 2, r),
                None => t,
            }
        },
        None => s,
    }
}

/// The program after feedback.
pub open spec fn after_feedback(
    g: GraphView,
    node_id: u32,
    option: int,
    weights: Seq<Real>,
    tries: Real,
    right: Option<Real>,
) -> GraphView {
    let nodes = g.nodes.update(
        node_id as int,
        node_reweighted(g.nodes[node_id as int], weights),
    );
    GraphView {
        nodes,
        state: recounted(g.state, count_place(g, node_id, option), tries, right),
        journal: g.journal.push(
            JournalEntry {
                run_number: if g.entry < g.nodes.len() {
                    g.nodes[g.entry as int].activation_count
                } else {
                    0
                },
                node_id,
                mutation: MutationKind::FeedbackReceived,
                reason: u32::MAX,
            },
        ),
        ..g
    }
}

/// What the host computes for a reward: where each weight of the options could
/// move up and down, the sum of the moved weights and each divided by it, and the
/// option's tries and right ones with one more.
#[derive(Debug)]
pub struct RewardNumbers {
    pub reward: Real,
    pub raised: Vec<Real>,
    pub lowered: Vec<Real>,
    pub sum: Real,
    pub shares: Vec<Real>,
    pub tries: Real,
    pub right: Real,
}

/// The program after a reward for an option: the option's weight is raised and the
/// others are lowered, all within their limits and scaled to a sum of one; the
/// option has one more try, and one more right one where the reward is positive.
pub open spec fn after_reward(
    g: GraphView,
    node_id: u32,
    option: int,
    n: RewardNumbers,
) -> GraphView {
    let front = g.nodes[node_id as int].weights.take(n.shares@.len() as int);
    after_feedback(
        g,
        node_id,
        option,
        scaled_weights(
            rewarded_weights(front, option, n.raised@, n.lowered@),
            n.sum,
            n.shares@,
        ),
        n.tries,
        if positive(n.reward) {
            Some(n.right)
        } else {
            None
        },
    )
}

/// Gives a program feedback: a reward moves the weights of a node's options and
/// the counts of the option, and leaves a line in the journal.
pub fn give_feedback(g: &mut NeuralGraph, node_id: u32, option: usize, numbers: RewardNumbers)
    requires
        node_id < old(g)@.nodes.len(),
        numbers.shares@.len() <= old(g)@.nodes[node_id as int].weights.len(),
        numbers.raised@.len() == numbers.shares@.len(),
        numbers.lowered@.len() == numbers.shares@.len(),
    ensures
        final(g)@ == after_reward(old(g)@, node_id, option as int, numbers),
{
    assert(g@.nodes[node_id as int] == g.nodes@[node_id as int]@);
    let n: usize = numbers.shares.len();
    let mut front: Vec<Real> = Vec::new();
    let mut i: usize = 0;
    while i < n
        invariant
            i <= n,
            node_id < g.nodes@.len(),
            n <= g.nodes@[node_id as int].weights@.len(),
            front@ == g.nodes@[node_id as int].weights@.take(i as int),
        decreases n - i,
    {
        front.push(g.nodes[node_id as usize].weights[i]);
        i = i + 1;
        assert(g.nodes@[node_id as int].weights@.take(i as int) == g.nodes@[node_id as int].weights@.take(
            i - 1,
        ).push(g.nodes@[node_id as int].weights@[i - 1]));
    }
    let moved = weigh_reward(&front, option, &numbers.raised, &numbers.lowered);
    let right = if is_positive(numbers.reward) {
        Some(numbers.right)
    } else {
        None
    };
    let weights = scale_weights(moved, numbers.sum, numbers.shares);
    set_feedback(g, node_id, option, &weights, numbers.tries, right);
}

/// Sets the weights of a node's options and the counts of one, and adds a line to
/// the journal.
fn set_feedback(
    g: &mut NeuralGraph,
    node_id: u32,
    option: usize,
    weights: &Vec<Real>,
    tries: Real,
    right: Option<Real>,
)
    requires
        node_id < old(g)@.nodes.len(),
        weights@.len() <= old(g)@.nodes[node_id as int].weights.len(),
    ensures
        final(g)@ == after_feedback(
            old(g)@,
            node_id,
            option as int,
            weights@,
            tries,
            right,
        ),
{
    let ghost start = g@;
    let at: usize = node_id as usize;
    assert(start.nodes[node_id as int] == g.nodes@[node_id as int]@);
    assert(start.nodes.len() == g.nodes@.len());
    let place = find_count_place(g, node_id, option);
    let run: u64 = if (g.entry as usize) < g.nodes.len() {
        assert(start.nodes[g.entry as int] == g.nodes@[g.entry as int]@);
        g.nodes[g.entry as usize].activation_count
    } else {
        0
    };
    let mut w: Vec<Real> = Vec::new();
    let mut i: usize = 0;
    let ghost before = g.nodes@[at as int].weights@;
    while i < g.nodes[at].weights.len()
        invariant
            i <= before.len(),
            at < g.nodes@.len(),
            before == g.nodes@[at as int].weights@,
            w@.len() == i,
            forall|k: int| 0 <= k < i ==> w@[k] == reweighted(before, weights@)[k],
        decreases before.len() - i,
    {
        w.push(
            if i < weights.len() {
                weights[i]
            } else {
                g.nodes[at].weights[i]
            },
        );
        i = i + 1;
    }
    assert(w@ =~= reweighted(before, weights@));
    g.nodes[at].weights = w;
    if let Some(p) = place {
        let len: usize = g.state.len();
        assert(p + 2 < len);
        g.state.set(p, tries);
        if let Some(r) = right {
            g.state.set(p + 2, r);
        }
    }
    g.journal.push(
        JournalEntry {
            run_number: run,
            node_id,
            mutation: MutationKind::FeedbackReceived,
            reason: u32::MAX,
        },
    );
    proof {
        let want = after_feedback(start, node_id, option as int, weights@, tries, right);
        assert(g@.nodes =~= want.nodes);
        assert(g@.state =~= want.state);
        assert(g@ =~= want);
    }
}

/// Feedback on one node leaves all others as they are.
pub proof fn feedback_touches_one_node(
    g: GraphView,
    node_id: u32,
    option: int,
    weights: Seq<Real>,
    tries: Real,
    right: Option<Real>,
    other: int,
)
    requires
        node_id < g.nodes.len(),
        0 <= other < g.nodes.len(),
        other != node_id,
    ensures
        after_feedback(g, node_id, option, weights, tries, right).nodes[other] == g.nodes[other],
        after_feedback(g, node_id, option, weights, tries, right).nodes.len() == g.nodes.len(),
        after_feedback(g, node_id, option, weights, tries, right).string_table == g.string_table,
        after_feedback(g, node_id, option, weights, tries, right).edges == g.edges,
{
}

// Weights of another program

/// A node whose weights another may take over: it does the same with as many
/// inputs and weights, and has fired more often.
pub open spec fn can_teach(from: NodeView, to: NodeView) -> bool {
    &&& from.op == to.op
    &&& from.operands.len() == to.operands.len()
    &&& from.weights.len() == to.weights.len()
    &&& from.activation_count > to.activation_count
}

/// The first node from `i` on that can teach another; the number of nodes where
/// there is none.
pub open spec fn teacher_place(s: Seq<NodeView>, to: NodeView, i: int) -> int
    decreases s.len() - i,
{
    if i >= s.len() || can_teach(s[i], to) {
        i
    } else {
        teacher_place(s, to, i + 1)
    }
}

/// The node of a program that can teach another; none where the other has no
/// weights.
pub fn find_teacher(source: &NeuralGraph, to: &GraphNode) -> (r: Option<usize>)
    ensures
        ({
            let at = teacher_place(source@.nodes, to@, 0);
            if to@.weights.len() > 0 && at < source@.nodes.len() {
                r is Some && r->Some_0 == at && can_teach(source@.nodes[at], to@)
            } else {
                r is None
            }
        }),
{
    if to.weights.len() == 0 {
        return None;
    }
    let mut i: usize = 0;
    while i < source.nodes.len()
        invariant
            i <= source.nodes.len(),
            source@.nodes.len() == source.nodes@.len(),
            to@.weights.len() > 0,
            teacher_place(source@.nodes, to@, 0) == teacher_place(source@.nodes, to@, i as int),
        decreases source.nodes.len() - i,
    {
        assert(source@.nodes[i as int] == source.nodes@[i as int]@);
        let n = &source.nodes[i];
        if n.op == to.op && n.operands.len() == to.operands.len() && n.weights.len()
            == to.weights.len() && n.activation_count > to.activation_count {
            return Some(i);
        }
        i = i + 1;
    }
    None
}

/// Gives a node the blended weights and the hint of its teacher.
pub fn teach(g: &mut NeuralGraph, at: usize, blended: Vec<Real>, bias: Real)
    requires
        at < old(g)@.nodes.len(),
    ensures
        final(g)@ == (GraphView {
            nodes: old(g)@.nodes.update(
                at as int,
                NodeView { weights: blended@, bias, ..old(g)@.nodes[at as int] },
            ),
            ..old(g)@
        }),
{
    let ghost start = g@;
    assert(start.nodes[at as int] == g.nodes@[at as int]@);
    g.nodes[at].weights = blended;
    g.nodes[at].bias = bias;
    proof {
        let want = GraphView {
            nodes: start.nodes.update(
                at as int,
                NodeView { weights: blended@, bias, ..start.nodes[at as int] },
            ),
            ..start
        };
        assert(g@.nodes =~= want.nodes);
        assert(g@ =~= want);
    }
}

// What a run decided

pub open spec fn objective_word(o: Objective) -> Seq<char> {
    match o {
        Objective::Speed => "speed"@,
        Objective::Accuracy => "accuracy"@,
        Objective::Reliability => "reliability"@,
        Objective::Cost => "cost"@,
        Objective::Risk => "risk"@,
        Objective::Confidence => "confidence"@,
        Objective::Reward => "reward"@,
        Objective::MultiObjective => "multi"@,
        Objective::General => "general"@,
    }
}

fn objective_name(o: Objective) -> (s: &'static str)
    ensures
        s@ == objective_word(o),
{
    match o {
        Objective::Speed => "speed",
        Objective::Accuracy => "accuracy",
        Objective::Reliability => "reliability",
        Objective::Cost => "cost",
        Objective::Risk => "risk",
        Objective::Confidence => "confidence",
        Objective::Reward => "reward",
        Objective::MultiObjective => "multi",
        Objective::General => "general",
    }
}

/// What a node decided, as JSON text.
pub open spec fn decided_parts(n: NodeView, result: Seq<char>) -> Seq<Part> {
    let chosen = cut_to(n.bias, usize::MAX as nat);
    t(
        "  {\n    \"node_id\": "@ + dec_nat(n.id as nat) + ",\n    \"chosen_option\": "@ + dec_nat(
            chosen,
        ) + ",\n    \"confidence\": "@,
    ) + fixed(weight_at(n.weights, chosen as int), 4) + t(
        ",\n    \"objective\": \""@ + objective_word(n.objective) + "\",\n    \"weights\": ["@,
    ) + number_list(n.weights.take(option_count(n) as int), 4) + t(
        "],\n    \"activations\": "@ + dec_nat(n.activation_count as nat)
            + ",\n    \"result\": \""@ + quote_escaped(result) + "\"\n  }"@,
    )
}

fn say_decided(out: &mut Vec<Piece>, n: &GraphNode, result: &str)
    ensures
        message_parts(final(out)@) == message_parts(old(out)@) + decided_parts(n@, result@),
{
    broadcast use parts_assoc;

    let chosen: usize = n.bias.to_usize();
    say(
        out,
        cat5(
            "  {\n    \"node_id\": ",
            u64_text(n.id as u64).as_str(),
            ",\n    \"chosen_option\": ",
            u64_text(chosen as u64).as_str(),
            ",\n    \"confidence\": ",
        ).as_str(),
    );
    let confidence = if chosen < n.weights.len() {
        n.weights[chosen]
    } else {
        Real::zero()
    };
    say_fixed(out, confidence, 4);
    say(
        out,
        cat3(
            ",\n    \"objective\": \"",
            objective_name(n.objective),
            "\",\n    \"weights\": [",
        ).as_str(),
    );
    let many: usize = if n.contract == Contract::WithinTolerance && n.weights.len() > 1 {
        n.weights.len() - 1
    } else {
        n.weights.len()
    };
    let mut w: Vec<Real> = Vec::new();
    let mut i: usize = 0;
    while i < many
        invariant
            i <= many <= n.weights@.len(),
            w@ == n.weights@.take(i as int),
        decreases many - i,
    {
        w.push(n.weights[i]);
        i = i + 1;
        assert(n.weights@.take(i as int) =~= n.weights@.take(i - 1).push(n.weights@[i - 1]));
    }
    say_list(out, &w, 4);
    say(
        out,
        cat5(
            "],\n    \"activations\": ",
            u64_text(n.activation_count).as_str(),
            ",\n    \"result\": \"",
            escape_quotes(result).as_str(),
            "\"\n  }",
        ).as_str(),
    );
}

/// A decision that was made in a run.
pub open spec fn decided(n: NodeView) -> bool {
    is_decision(n.op) && n.activation_count > 0
}

/// How many of the first `n` nodes decided.
pub open spec fn decided_count(s: Seq<NodeView>, n: int) -> int
    decreases n,
{
    if n <= 0 {
        0
    } else {
        decided_count(s, n - 1) + (if decided(s[n - 1]) {
            1int
        } else {
            0
        })
    }
}

/// What the first `n` nodes decided, with commas between.
pub open spec fn decided_list(s: Seq<NodeView>, n: int, result: Seq<char>) -> Seq<Part>
    decreases n,
{
    if n <= 0 {
        Seq::empty()
    } else if !decided(s[n - 1]) {
        decided_list(s, n - 1, result)
    } else if decided_count(s, n - 1) == 0 {
        decided_parts(s[n - 1], result)
    } else {
        decided_list(s, n - 1, result) + t(",\n"@) + decided_parts(s[n - 1], result)
    }
}

proof fn decided_bounds(s: Seq<NodeView>, n: int, r: Seq<char>)
    requires
        0 <= n,
    ensures
        0 <= decided_count(s, n) <= n,
        decided_count(s, n) == 0 ==> decided_list(s, n, r) == Seq::<Part>::empty(),
    decreases n,
{
    if n > 0 {
        decided_bounds(s, n - 1, r);
    }
}

/// What a run decided, as JSON text: one decision, or a list of them.
pub open spec fn decisions_text(g: GraphView, result: Seq<char>) -> Seq<Part> {
    let n = g.nodes.len() as int;
    let list = decided_list(g.nodes, n, result);
    if decided_count(g.nodes, n) == 1 {
        list
    } else {
        t("["@) + list + t("]"@)
    }
}

/// What a run decided, as JSON text; `result` is the text of its result.
pub fn decisions_report(g: &NeuralGraph, result: &str) -> (out: Vec<Piece>)
    ensures
        message_parts(out@) == decisions_text(g@, result@),
{
    let ghost nodes = g@.nodes;
    let mut count: usize = 0;
    let mut i: usize = 0;
    while i < g.nodes.len()
        invariant
            i <= g.nodes.len(),
            nodes == g@.nodes,
            nodes.len() == g.nodes@.len(),
            count == decided_count(nodes, i as int),
            count <= i,
        decreases g.nodes.len() - i,
    {
        assert(nodes[i as int] == g.nodes@[i as int]@);
        let n = &g.nodes[i];
        if (n.op == OpCode::Strategy || n.op == OpCode::AdaptiveChoice) && n.activation_count > 0 {
            count = count + 1;
        }
        i = i + 1;
    }
    let mut out: Vec<Piece> = Vec::new();
    let ghost empty = Seq::<Part>::empty();
    assert(message_parts(out@) =~= empty);
    if count != 1 {
        say(&mut out, "[");
    }
    let ghost head = message_parts(out@);
    let mut seen: usize = 0;
    let mut k: usize = 0;
    assert(head + empty =~= head);
    while k < g.nodes.len()
        invariant
            k <= g.nodes.len(),
            nodes == g@.nodes,
            nodes.len() == g.nodes@.len(),
            seen == decided_count(nodes, k as int),
            seen <= k,
            message_parts(out@) == head + decided_list(nodes, k as int, result@),
        decreases g.nodes.len() - k,
    {
        broadcast use parts_assoc;

        assert(nodes[k as int] == g.nodes@[k as int]@);
        let n = &g.nodes[k];
        if (n.op == OpCode::Strategy || n.op == OpCode::AdaptiveChoice) && n.activation_count > 0 {
            proof {
                decided_bounds(nodes, k as int, result@);
                assert(head + Seq::<Part>::empty() =~= head);
            }
            if seen > 0 {
                say(&mut out, ",\n");
            }
            say_decided(&mut out, n, result);
            seen = seen + 1;
        }
        k = k + 1;
    }
    if count != 1 {
        say(&mut out, "]");
    }
    assert(message_parts(out@) =~= decisions_text(g@, result@));
    out
}

// Bytes

/// One line of a dump: the place, up to sixteen bytes in digits, and those that
/// are characters.
pub open spec fn dump_line(place: Seq<char>, b: Seq<u8>) -> Seq<char> {
    place + "  "@ + dump_digits(b, 16) + " |"@ + dump_chars(b, b.len() as int) + "|"@
}

/// The first `n` of sixteen places for bytes, in digits or blank.
pub open spec fn dump_digits(b: Seq<u8>, n: int) -> Seq<char>
    decreases n,
{
    if n <= 0 {
        Seq::empty()
    } else {
        dump_digits(b, n - 1) + (if n <= b.len() {
            hex_byte(b[n - 1]) + (if n == 8 {
                "  "@
            } else {
                " "@
            })
        } else {
            "   "@
        })
    }
}

/// The first `n` bytes as characters; a dot for what is none.
pub open spec fn dump_chars(b: Seq<u8>, n: int) -> Seq<char>
    decreases n,
{
    if n <= 0 {
        Seq::empty()
    } else {
        dump_chars(b, n - 1).push(
            if 32 <= b[n - 1] <= 126 {
                b[n - 1] as char
            } else {
                '.'
            },
        )
    }
}

/// One line of a dump of up to sixteen bytes; `place` is where they stand, in
/// eight digits.
pub fn dump_text(place: &str, b: &[u8]) -> (s: String)
    requires
        b@.len() <= 16,
    ensures
        s@ == dump_line(place@, b@),
{
    let mut digits = String::new();
    let mut i: usize = 0;
    while i < 16
        invariant
            i <= 16,
            b@.len() <= 16,
            digits@ == dump_digits(b@, i as int),
        decreases 16 - i,
    {
        let ghost before = digits@;
        if i < b.len() {
            digits.push(digit(b[i] / 16));
            digits.push(digit(b[i] % 16));
            if i == 7 {
                digits.append("  ");
            } else {
                digits.append(" ");
            }
            assert(digits@ =~= before + (hex_byte(b@[i as int]) + (if i == 7 {
                "  "@
            } else {
                " "@
            })));
        } else {
            digits.append("   ");
        }
        i = i + 1;
    }
    let mut chars = String::new();
    let mut k: usize = 0;
    while k < b.len()
        invariant
            k <= b.len(),
            chars@ == dump_chars(b@, k as int),
        decreases b.len() - k,
    {
        if 32 <= b[k] && b[k] <= 126 {
            chars.push(b[k] as char);
        } else {
            chars.push('.');
        }
        k = k + 1;
    }
    let mut s = cat4(place, "  ", digits.as_str(), " |");
    s.append(chars.as_str());
    s.append("|");
    s
}

} // verus!
