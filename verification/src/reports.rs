//! Reports on what a program has learned.
use crate::evolution_loop::{push_padded, zero_padded};
use crate::graph::{Contract, GraphNode, GraphView, MutationKind, NeuralGraph, NodeView, OpCode, Operand, WeightKind};
use crate::graph_executor::stats_from;
use crate::message::{Part, Piece, fixed, message_parts, number_list, parts_assoc, ratio, say, say_fixed, say_list, say_ratio, t};
use crate::number::{ONE, Real, real_of_int};
use crate::real_constants::{R_0_7, R_0_9, R_1000000_0, R_100_0};
use crate::run_model::{OptionStats, is_decision, read_stats};
use crate::strings::{cat3, cat5};
use crate::table::{Table, entries_are_the_map, precedes};
use crate::text::{dec_nat, u64_text};
use crate::values::texts;
use vstd::prelude::*;
use vstd::string::StringExecFns;

verus! {

/// The name of the variant.
pub open spec fn op_word(v: OpCode) -> Seq<char> {
    match v {
        OpCode::ConstInt => "ConstInt"@,
        OpCode::ConstFloat => "ConstFloat"@,
        OpCode::ConstStr => "ConstStr"@,
        OpCode::ConstBool => "ConstBool"@,
        OpCode::ConstNull => "ConstNull"@,
        OpCode::LoadVar => "LoadVar"@,
        OpCode::StoreVar => "StoreVar"@,
        OpCode::Add => "Add"@,
        OpCode::Sub => "Sub"@,
        OpCode::Mul => "Mul"@,
        OpCode::Div => "Div"@,
        OpCode::Mod => "Mod"@,
        OpCode::Neg => "Neg"@,
        OpCode::Eq => "Eq"@,
        OpCode::Neq => "Neq"@,
        OpCode::Lt => "Lt"@,
        OpCode::Gt => "Gt"@,
        OpCode::Lte => "Lte"@,
        OpCode::Gte => "Gte"@,
        OpCode::And => "And"@,
        OpCode::Or => "Or"@,
        OpCode::Not => "Not"@,
        OpCode::Branch => "Branch"@,
        OpCode::Merge => "Merge"@,
        OpCode::Loop => "Loop"@,
        OpCode::Sequence => "Sequence"@,
        OpCode::ForEach => "ForEach"@,
        OpCode::Repeat => "Repeat"@,
        OpCode::AdaptiveChoice => "AdaptiveChoice"@,
        OpCode::Guard => "Guard"@,
        OpCode::Define => "Define"@,
        OpCode::Call => "Call"@,
        OpCode::Return => "Return"@,
        OpCode::Lambda => "Lambda"@,
        OpCode::Array => "Array"@,
        OpCode::Index => "Index"@,
        OpCode::Range => "Range"@,
        OpCode::Length => "Length"@,
        OpCode::Chars => "Chars"@,
        OpCode::Print => "Print"@,
        OpCode::ReadLine => "ReadLine"@,
        OpCode::ParseNum => "ParseNum"@,
        OpCode::Split => "Split"@,
        OpCode::ToString => "ToString"@,
        OpCode::Sin => "Sin"@,
        OpCode::Cos => "Cos"@,
        OpCode::Abs => "Abs"@,
        OpCode::Floor => "Floor"@,
        OpCode::Round => "Round"@,
        OpCode::Sqrt => "Sqrt"@,
        OpCode::Ln => "Ln"@,
        OpCode::Exp => "Exp"@,
        OpCode::Atan2 => "Atan2"@,
        OpCode::Adapt => "Adapt"@,
        OpCode::Weight => "Weight"@,
        OpCode::Predict => "Predict"@,
        OpCode::Feedback => "Feedback"@,
        OpCode::Spawn => "Spawn"@,
        OpCode::Prune => "Prune"@,
        OpCode::Strategy => "Strategy"@,
        OpCode::Pipe => "Pipe"@,
        OpCode::Filter => "Filter"@,
        OpCode::MapEach => "Map"@,
        OpCode::Reduce => "Reduce"@,
        OpCode::Capability => "Capability"@,
        OpCode::Noop => "Noop"@,
        OpCode::Halt => "Halt"@,
    }
}

/// The name of the variant.
pub fn op_name(v: OpCode) -> (s: &'static str)
    ensures
        s@ == op_word(v),
{
    match v {
        OpCode::ConstInt => "ConstInt",
        OpCode::ConstFloat => "ConstFloat",
        OpCode::ConstStr => "ConstStr",
        OpCode::ConstBool => "ConstBool",
        OpCode::ConstNull => "ConstNull",
        OpCode::LoadVar => "LoadVar",
        OpCode::StoreVar => "StoreVar",
        OpCode::Add => "Add",
        OpCode::Sub => "Sub",
        OpCode::Mul => "Mul",
        OpCode::Div => "Div",
        OpCode::Mod => "Mod",
        OpCode::Neg => "Neg",
        OpCode::Eq => "Eq",
        OpCode::Neq => "Neq",
        OpCode::Lt => "Lt",
        OpCode::Gt => "Gt",
        OpCode::Lte => "Lte",
        OpCode::Gte => "Gte",
        OpCode::And => "And",
        OpCode::Or => "Or",
        OpCode::Not => "Not",
        OpCode::Branch => "Branch",
        OpCode::Merge => "Merge",
        OpCode::Loop => "Loop",
        OpCode::Sequence => "Sequence",
        OpCode::ForEach => "ForEach",
        OpCode::Repeat => "Repeat",
        OpCode::AdaptiveChoice => "AdaptiveChoice",
        OpCode::Guard => "Guard",
        OpCode::Define => "Define",
        OpCode::Call => "Call",
        OpCode::Return => "Return",
        OpCode::Lambda => "Lambda",
        OpCode::Array => "Array",
        OpCode::Index => "Index",
        OpCode::Range => "Range",
        OpCode::Length => "Length",
        OpCode::Chars => "Chars",
        OpCode::Print => "Print",
        OpCode::ReadLine => "ReadLine",
        OpCode::ParseNum => "ParseNum",
        OpCode::Split => "Split",
        OpCode::ToString => "ToString",
        OpCode::Sin => "Sin",
        OpCode::Cos => "Cos",
        OpCode::Abs => "Abs",
        OpCode::Floor => "Floor",
        OpCode::Round => "Round",
        OpCode::Sqrt => "Sqrt",
        OpCode::Ln => "Ln",
        OpCode::Exp => "Exp",
        OpCode::Atan2 => "Atan2",
        OpCode::Adapt => "Adapt",
        OpCode::Weight => "Weight",
        OpCode::Predict => "Predict",
        OpCode::Feedback => "Feedback",
        OpCode::Spawn => "Spawn",
        OpCode::Prune => "Prune",
        OpCode::Strategy => "Strategy",
        OpCode::Pipe => "Pipe",
        OpCode::Filter => "Filter",
        OpCode::MapEach => "Map",
        OpCode::Reduce => "Reduce",
        OpCode::Capability => "Capability",
        OpCode::Noop => "Noop",
        OpCode::Halt => "Halt",
    }
}

/// The name of the variant.
pub open spec fn mutation_word(v: MutationKind) -> Seq<char> {
    match v {
        MutationKind::WeightUpdate => "WeightUpdate"@,
        MutationKind::TypeSpecialized => "TypeSpecialized"@,
        MutationKind::ConstantFolded => "ConstantFolded"@,
        MutationKind::PathPruned => "PathPruned"@,
        MutationKind::GuardInserted => "GuardInserted"@,
        MutationKind::NodeSpawned => "NodeSpawned"@,
        MutationKind::FeedbackReceived => "FeedbackReceived"@,
        MutationKind::EvolutionStarted => "EvolutionStarted"@,
        MutationKind::ProposalAccepted => "ProposalAccepted"@,
        MutationKind::ProposalRejected => "ProposalRejected"@,
        MutationKind::EvolutionCompleted => "EvolutionCompleted"@,
    }
}

/// The name of the variant.
pub fn mutation_name(v: MutationKind) -> (s: &'static str)
    ensures
        s@ == mutation_word(v),
{
    match v {
        MutationKind::WeightUpdate => "WeightUpdate",
        MutationKind::TypeSpecialized => "TypeSpecialized",
        MutationKind::ConstantFolded => "ConstantFolded",
        MutationKind::PathPruned => "PathPruned",
        MutationKind::GuardInserted => "GuardInserted",
        MutationKind::NodeSpawned => "NodeSpawned",
        MutationKind::FeedbackReceived => "FeedbackReceived",
        MutationKind::EvolutionStarted => "EvolutionStarted",
        MutationKind::ProposalAccepted => "ProposalAccepted",
        MutationKind::ProposalRejected => "ProposalRejected",
        MutationKind::EvolutionCompleted => "EvolutionCompleted",
    }
}

/// The name of the variant.
pub open spec fn kind_of_weights(v: WeightKind) -> Seq<char> {
    match v {
        WeightKind::Observational => "observational"@,
        WeightKind::Adaptive => "adaptive"@,
        WeightKind::TypeHint => "type_hint"@,
        WeightKind::Strategy => "strategy"@,
        WeightKind::Decision => "decision"@,
    }
}

/// The name of the variant.
pub fn weight_kind_name(v: WeightKind) -> (s: &'static str)
    ensures
        s@ == kind_of_weights(v),
{
    match v {
        WeightKind::Observational => "observational",
        WeightKind::Adaptive => "adaptive",
        WeightKind::TypeHint => "type_hint",
        WeightKind::Strategy => "strategy",
        WeightKind::Decision => "decision",
    }
}

/// A number with zeros in front up to a width.
pub fn padded_text(n: u64, width: usize) -> (s: String)
    ensures
        s@ == zero_padded(n as nat, width as nat),
{
    let mut s = String::new();
    push_padded(&mut s, n, width);
    assert(s@ =~= zero_padded(n as nat, width as nat));
    s
}

// Learning

/// How many options a decision has: the last weight of one with a tolerance is
/// the tolerance.
pub open spec fn option_count(n: NodeView) -> nat {
    if n.contract == Contract::WithinTolerance && n.weights.len() > 1 {
        (n.weights.len() - 1) as nat
    } else {
        n.weights.len()
    }
}

/// The first item with the least time.
pub open spec fn quickest(list: Seq<usize>, times: Seq<Real>) -> usize
    decreases list.len(),
{
    if list.len() <= 1 {
        list[0]
    } else {
        let best = quickest(list.drop_last(), times);
        if times[list.last() as int].below(times[best as int]) {
            list.last()
        } else {
            best
        }
    }
}

/// The last item with the greatest time.
pub open spec fn slowest(list: Seq<usize>, times: Seq<Real>) -> usize
    decreases list.len(),
{
    if list.len() <= 1 {
        list[0]
    } else {
        let best = slowest(list.drop_last(), times);
        if times[list.last() as int].below(times[best as int]) {
            best
        } else {
            list.last()
        }
    }
}

fn extremes(list: &Vec<usize>, times: &Vec<Real>) -> (r: (usize, usize))
    requires
        list@.len() > 0,
        forall|i: int| 0 <= i < list@.len() ==> #[trigger] list@[i] < times@.len(),
    ensures
        r.0 == quickest(list@, times@),
        r.1 == slowest(list@, times@),
        r.0 < times@.len(),
        r.1 < times@.len(),
{
    let mut quick: usize = list[0];
    let mut slow: usize = list[0];
    let mut i: usize = 1;
    assert(list@.take(1)[0] == list@[0]);
    while i < list.len()
        invariant
            1 <= i <= list.len(),
            forall|i: int| 0 <= i < list@.len() ==> #[trigger] list@[i] < times@.len(),
            quick == quickest(list@.take(i as int), times@),
            slow == slowest(list@.take(i as int), times@),
            quick < times@.len(),
            slow < times@.len(),
        decreases list.len() - i,
    {
        assert(list@.take(i + 1).drop_last() =~= list@.take(i as int));
        let x: usize = list[i];
        if times[x].lt(times[quick]) {
            quick = x;
        }
        if !times[x].lt(times[slow]) {
            slow = x;
        }
        i = i + 1;
    }
    assert(list@.take(i as int) =~= list@);
    (quick, slow)
}

/// The options that were right each time that they were tried, before `n`.
pub open spec fn right_options(s: Seq<OptionStats>, n: int) -> Seq<usize>
    decreases n,
{
    if n <= 0 {
        Seq::empty()
    } else if s[n - 1].tries > 0 && s[n - 1].correct == s[n - 1].tries {
        right_options(s, n - 1).push((n - 1) as usize)
    } else {
        right_options(s, n - 1)
    }
}

pub open spec fn all_tried(s: Seq<OptionStats>) -> bool {
    forall|i: int| 0 <= i < s.len() ==> (#[trigger] s[i]).tries > 0
}

/// The numbers below `n`.
pub open spec fn below_list(n: nat) -> Seq<usize> {
    Seq::new(n, |i: int| i as usize)
}

/// The weight of an option, or zero.
pub open spec fn weight_at(w: Seq<Real>, i: int) -> Real {
    if 0 <= i < w.len() {
        w[i]
    } else {
        Real { bits: 0 }
    }
}

fn weight_of(w: &Vec<Real>, i: usize) -> (r: Real)
    ensures
        r == weight_at(w@, i as int),
{
    if i < w.len() {
        w[i]
    } else {
        Real::zero()
    }
}

pub open spec fn opt_line(head: Seq<char>, i: usize, tail: Seq<char>) -> Seq<char> {
    head + dec_nat(i as nat) + tail
}

fn opt_line_text(head: &str, i: usize, tail: &str) -> (s: String)
    ensures
        s@ == opt_line(head@, i, tail@),
{
    cat3(head, u64_text(i as u64).as_str(), tail)
}

/// Which option wins, and by how much.
#[verifier::opaque]
pub open spec fn winner_parts(right: Seq<usize>, times: Seq<Real>, weights: Seq<Real>) -> Seq<Part> {
    let all = below_list(times.len());
    let best = quickest(right, times);
    let slow = slowest(right, times);
    let first = quickest(all, times);
    let last = slowest(all, times);
    t("\n  verdict"@) + t(
        opt_line(
            ":\n    winner: option "@,
            best,
            "\n    reason: fastest fully-correct option\n    correct-speedup: "@,
        ),
    ) + (if (Real { bits: 0 }).below(times[best as int]) {
        ratio(times[slow as int], times[best as int], Real { bits: ONE }, 1)
    } else {
        fixed(Real { bits: ONE }, 1)
    }) + t(opt_line("x faster than option "@, slow, "\n"@)) + (if best != first {
        t(
            opt_line(
                "    rejected-fastest: option "@,
                first,
                " was faster but not consistently correct\n"@,
            ),
        )
    } else {
        Seq::empty()
    }) + (if last != slow {
        t(opt_line("    slowest-overall: option "@, last, "\n"@))
    } else {
        Seq::empty()
    }) + t("    confidence: "@) + ratio(
        weight_at(weights, best as int),
        Real { bits: ONE },
        Real { bits: R_100_0 },
        1,
    ) + t("%\n\n"@)
}

/// The verdict on the options of a decision, given their mean times.
#[verifier::opaque]
pub open spec fn verdict_parts(s: Seq<OptionStats>, times: Seq<Real>, weights: Seq<Real>) -> Seq<
    Part,
> {
    let right = right_options(s, s.len() as int);
    if !all_tried(s) {
        t("\n  verdict"@) + t(": still exploring (not all options tried)\n\n"@)
    } else if right.len() == 0 {
        t("\n  verdict"@) + t(": no fully correct option yet\n\n"@)
    } else {
        winner_parts(right, times, weights)
    }
}

proof fn right_options_are_options(s: Seq<OptionStats>, n: int)
    requires
        0 <= n <= s.len(),
        s.len() <= usize::MAX,
    ensures
        forall|i: int| 0 <= i < right_options(s, n).len() ==> #[trigger] right_options(s, n)[i] < n,
    decreases n,
{
    if n > 0 {
        right_options_are_options(s, n - 1);
        let r = right_options(s, n);
        let front = right_options(s, n - 1);
        assert forall|i: int| 0 <= i < r.len() implies #[trigger] r[i] < n by {
            if i < front.len() {
                assert(r[i] == front[i]);
            }
        }
    }
}

fn say_winner(out: &mut Vec<Piece>, right: &Vec<usize>, times: &Vec<Real>, weights: &Vec<Real>)
    requires
        right@.len() > 0,
        times@.len() > 0,
        forall|i: int| 0 <= i < right@.len() ==> #[trigger] right@[i] < times@.len(),
    ensures
        message_parts(final(out)@) == message_parts(old(out)@) + winner_parts(
            right@,
            times@,
            weights@,
        ),
{
    broadcast use parts_assoc;

    proof {
        reveal(winner_parts);
    }
    let mut all: Vec<usize> = Vec::new();
    let mut k: usize = 0;
    while k < times.len()
        invariant
            k <= times.len(),
            all@.len() == k,
            forall|j: int| 0 <= j < k ==> #[trigger] all@[j] == j,
        decreases times.len() - k,
    {
        all.push(k);
        k = k + 1;
    }
    assert(all@ =~= below_list(times@.len()));
    let (best, slow) = extremes(right, times);
    let (first, last) = extremes(&all, times);
    say(out, "\n  verdict");
    say(
        out,
        opt_line_text(
            ":\n    winner: option ",
            best,
            "\n    reason: fastest fully-correct option\n    correct-speedup: ",
        ).as_str(),
    );
    if Real::zero().lt(times[best]) {
        say_ratio(out, times[slow], times[best], Real::one(), 1);
    } else {
        say_fixed(out, Real::one(), 1);
    }
    say(out, opt_line_text("x faster than option ", slow, "\n").as_str());
    let ghost so_far = message_parts(out@);
    assert(so_far + Seq::<Part>::empty() =~= so_far);
    if best != first {
        say(
            out,
            opt_line_text(
                "    rejected-fastest: option ",
                first,
                " was faster but not consistently correct\n",
            ).as_str(),
        );
    }
    let ghost so_far = message_parts(out@);
    assert(so_far + Seq::<Part>::empty() =~= so_far);
    if last != slow {
        say(out, opt_line_text("    slowest-overall: option ", last, "\n").as_str());
    }
    say(out, "    confidence: ");
    say_ratio(out, weight_of(weights, best), Real::one(), Real { bits: R_100_0 }, 1);
    say(out, "%\n\n");
}

fn say_verdict(out: &mut Vec<Piece>, s: &Vec<OptionStats>, times: &Vec<Real>, weights: &Vec<Real>)
    requires
        times@.len() == s@.len(),
    ensures
        message_parts(final(out)@) == message_parts(old(out)@) + verdict_parts(
            s@,
            times@,
            weights@,
        ),
{
    broadcast use parts_assoc;

    proof {
        reveal(verdict_parts);
    }
    let mut right: Vec<usize> = Vec::new();
    let mut i: usize = 0;
    while i < s.len()
        invariant
            i <= s.len(),
            *out == *old(out),
            forall|k: int| 0 <= k < i ==> (#[trigger] s@[k]).tries > 0,
            right@ == right_options(s@, i as int),
        decreases s.len() - i,
    {
        broadcast use parts_assoc;

        proof {
            reveal(verdict_parts);
        }
        if s[i].tries == 0 {
            assert(!all_tried(s@));
            say(out, "\n  verdict");
            say(out, ": still exploring (not all options tried)\n\n");
            return ;
        }
        if s[i].correct == s[i].tries {
            right.push(i);
        }
        i = i + 1;
    }
    proof {
        right_options_are_options(s@, s@.len() as int);
    }
    if right.len() == 0 {
        say(out, "\n  verdict");
        say(out, ": no fully correct option yet\n\n");
        return ;
    }
    proof {
        if s@.len() == 0 {
            assert(right_options(s@, 0).len() == 0);
        }
    }
    say_winner(out, &right, times, weights);
}

pub open spec fn weight_mark(w: Real) -> Seq<char> {
    if (Real { bits: R_0_9 }).below(w) {
        " <- WINNER\n"@
    } else if (Real { bits: R_0_7 }).below(w) {
        " <- leading\n"@
    } else {
        "\n"@
    }
}

/// What is known of one option.
#[verifier::opaque]
pub open spec fn option_parts(s: OptionStats, i: int, weight: Real) -> Seq<Part> {
    let avg: int = if s.tries > 0 {
        s.total_ns as int / s.tries as int
    } else {
        0
    };
    t(
        "  option "@ + dec_nat(i as nat) + ":\n    tried:    "@ + dec_nat(s.tries as nat)
            + " times\n    avg time: "@,
    ) + ratio(real_of_int(avg), Real { bits: R_1000000_0 }, Real { bits: ONE }, 3) + t(
        "ms\n    correct:  "@ + dec_nat(s.correct as nat) + "/"@ + dec_nat(s.tries as nat) + " ("@,
    ) + (if s.tries > 0 {
        ratio(
            real_of_int(s.correct as int),
            real_of_int(s.tries as int),
            Real { bits: R_100_0 },
            0,
        )
    } else {
        fixed(Real { bits: 0 }, 0)
    }) + t("%)\n    weight:   "@) + fixed(weight, 4) + t(weight_mark(weight))
}

fn say_option(out: &mut Vec<Piece>, s: &OptionStats, i: usize, weight: Real)
    ensures
        message_parts(final(out)@) == message_parts(old(out)@) + option_parts(
            *s,
            i as int,
            weight,
        ),
{
    broadcast use parts_assoc;

    proof {
        reveal(option_parts);
    }
    let avg: u128 = if s.tries > 0 {
        s.total_ns / s.tries as u128
    } else {
        0
    };
    let tries = u64_text(s.tries);
    say(
        out,
        cat5(
            "  option ",
            u64_text(i as u64).as_str(),
            ":\n    tried:    ",
            tries.as_str(),
            " times\n    avg time: ",
        ).as_str(),
    );
    say_ratio(out, Real::of_u128(avg), Real { bits: R_1000000_0 }, Real::one(), 3);
    say(
        out,
        cat5(
            "ms\n    correct:  ",
            u64_text(s.correct).as_str(),
            "/",
            tries.as_str(),
            " (",
        ).as_str(),
    );
    if s.tries > 0 {
        say_ratio(
            out,
            Real::of_u64(s.correct),
            Real::of_u64(s.tries),
            Real { bits: R_100_0 },
            0,
        );
    } else {
        say_fixed(out, Real::zero(), 0);
    }
    say(out, "%)\n    weight:   ");
    say_fixed(out, weight, 4);
    if (Real { bits: R_0_9 }).lt(weight) {
        say(out, " <- WINNER\n");
    } else if (Real { bits: R_0_7 }).lt(weight) {
        say(out, " <- leading\n");
    } else {
        say(out, "\n");
    }
}

/// What is known of the first `n` options.
pub open spec fn options_parts(s: Seq<OptionStats>, weights: Seq<Real>, n: int) -> Seq<Part>
    decreases n,
{
    if n <= 0 {
        Seq::empty()
    } else {
        options_parts(s, weights, n - 1) + option_parts(s[n - 1], n - 1, weight_at(weights, n - 1))
    }
}

/// The report on one decision under the number by which it is listed. Times count
/// where its state holds statistics.
pub open spec fn decision_parts(g: GraphView, id: u32, n: NodeView, times: Seq<Real>) -> Seq<Part> {
    let head = t(
        "  "@ + op_word(n.op) + " #"@ + zero_padded(id as nat, 4) + " ("@ + kind_of_weights(
            n.weight_kind,
        ) + ")\n  fired: "@ + dec_nat(n.activation_count as nat) + " times\n  weights: ["@,
    ) + number_list(n.weights, 4) + t("]\n"@);
    match n.state_slot {
        Some(slot) => {
            let s = read_stats(g.state, slot, option_count(n));
            head + t("\n"@) + options_parts(s, n.weights, s.len() as int) + verdict_parts(
                s,
                times,
                n.weights,
            )
        },
        None => head + t("\n"@),
    }
}

fn say_decision(
    out: &mut Vec<Piece>,
    g: &NeuralGraph,
    id: u32,
    n: &GraphNode,
    times: &Vec<Real>,
)
    requires
        n.state_slot is Some ==> times@.len() == option_count(n@),
    ensures
        message_parts(final(out)@) == message_parts(old(out)@) + decision_parts(
            g@,
            id,
            n@,
            times@,
        ),
{
    broadcast use parts_assoc;

    let ghost before = message_parts(out@);
    let mut head = cat5(
        "  ",
        op_name(n.op),
        " #",
        padded_text(id as u64, 4).as_str(),
        " (",
    );
    head.append(weight_kind_name(n.weight_kind));
    head.append(")\n  fired: ");
    head.append(u64_text(n.activation_count).as_str());
    head.append(" times\n  weights: [");
    say(out, head.as_str());
    say_list(out, &n.weights, 4);
    say(out, "]\n");
    say(out, "\n");
    match n.state_slot {
        Some(slot) => {
            let many: usize = if n.contract == Contract::WithinTolerance && n.weights.len() > 1 {
                n.weights.len() - 1
            } else {
                n.weights.len()
            };
            let s = stats_from(&g.state, slot, many);
            let ghost so_far = message_parts(out@);
            assert(so_far + Seq::<Part>::empty() =~= so_far);
            let mut i: usize = 0;
            while i < s.len()
                invariant
                    i <= s.len(),
                    message_parts(out@) == so_far + options_parts(s@, n.weights@, i as int),
                decreases s.len() - i,
            {
                broadcast use parts_assoc;

                say_option(out, &s[i], i, weight_of(&n.weights, i));
                i = i + 1;
            }
            say_verdict(out, &s, times, &n.weights);
        },
        None => {},
    }
}

/// The decisions among the nodes, by their numbers.
pub open spec fn decision_ids(s: Seq<NodeView>) -> Seq<u32>
    decreases s.len(),
{
    if s.len() == 0 {
        Seq::empty()
    } else if is_decision(s.last().op) {
        decision_ids(s.drop_last()).push(s.last().id)
    } else {
        decision_ids(s.drop_last())
    }
}

/// The numbers of the decisions of a program.
pub fn strategy_nodes(g: &NeuralGraph) -> (r: Vec<u32>)
    ensures
        r@ == decision_ids(g@.nodes),
{
    let ghost all = g@.nodes;
    let mut r: Vec<u32> = Vec::new();
    let mut i: usize = 0;
    assert(all.take(0) =~= Seq::<NodeView>::empty());
    while i < g.nodes.len()
        invariant
            i <= g.nodes.len(),
            all == g@.nodes,
            r@ == decision_ids(all.take(i as int)),
        decreases g.nodes.len() - i,
    {
        assert(all.take(i + 1).drop_last() =~= all.take(i as int));
        assert(all[i as int] == g.nodes@[i as int]@);
        if g.nodes[i].op == OpCode::Strategy || g.nodes[i].op == OpCode::AdaptiveChoice {
            r.push(g.nodes[i].id);
        }
        i = i + 1;
    }
    assert(all.take(i as int) =~= all);
    r
}

/// The statistics that the state of a program holds for a decision.
pub fn decision_stats(g: &NeuralGraph, id: u32) -> (r: Option<Vec<OptionStats>>)
    requires
        id < g@.nodes.len(),
    ensures
        match g@.nodes[id as int].state_slot {
            Some(slot) => r is Some && r->Some_0@ == read_stats(
                g@.state,
                slot,
                option_count(g@.nodes[id as int]),
            ),
            None => r is None,
        },
{
    let n = &g.nodes[id as usize];
    assert(g@.nodes[id as int] == n@);
    match n.state_slot {
        Some(slot) => {
            let many: usize = if n.contract == Contract::WithinTolerance && n.weights.len() > 1 {
                n.weights.len() - 1
            } else {
                n.weights.len()
            };
            Some(stats_from(&g.state, slot, many))
        },
        None => None,
    }
}

/// The times fit the decisions: one for each option that has statistics.
pub open spec fn times_fit(g: GraphView, ids: Seq<u32>, times: Seq<Vec<Real>>) -> bool {
    &&& times.len() == ids.len()
    &&& forall|k: int|
        0 <= k < ids.len() ==> (#[trigger] ids[k]) < g.nodes.len() && (g.nodes[ids[k] as int].state_slot
            is Some ==> times[k]@.len() == option_count(g.nodes[ids[k] as int]))
}

/// The reports on the first `n` decisions.
pub open spec fn decisions_parts(
    g: GraphView,
    ids: Seq<u32>,
    times: Seq<Vec<Real>>,
    n: int,
) -> Seq<Part>
    decreases n,
{
    if n <= 0 {
        Seq::empty()
    } else {
        decisions_parts(g, ids, times, n - 1) + decision_parts(
            g,
            ids[n - 1],
            g.nodes[ids[n - 1] as int],
            times[n - 1]@,
        )
    }
}

/// The report on what a program has learned; nothing where it decides nothing.
/// `times` holds the mean time of each option of each decision.
pub fn learn_report(g: &NeuralGraph, times: &Vec<Vec<Real>>) -> (r: Option<Vec<Piece>>)
    requires
        times_fit(g@, decision_ids(g@.nodes), times@),
    ensures
        ({
            let ids = decision_ids(g@.nodes);
            if ids.len() == 0 {
                r is None
            } else {
                r is Some && message_parts(r->Some_0@) == t(
                    "\n=== LYCAN LEARNING REPORT ===\n\n"@,
                ) + decisions_parts(g@, ids, times@, ids.len() as int)
            }
        }),
{
    let ids = strategy_nodes(g);
    if ids.len() == 0 {
        return None;
    }
    let mut out: Vec<Piece> = Vec::new();
    say(&mut out, "\n=== LYCAN LEARNING REPORT ===\n\n");
    let ghost head = t("\n=== LYCAN LEARNING REPORT ===\n\n"@);
    let mut i: usize = 0;
    assert(message_parts(out@) =~= head + Seq::<Part>::empty());
    while i < ids.len()
        invariant
            i <= ids.len(),
            times_fit(g@, ids@, times@),
            message_parts(out@) == head + decisions_parts(g@, ids@, times@, i as int),
        decreases ids.len() - i,
    {
        broadcast use parts_assoc;

        assert(ids@[i as int] < g@.nodes.len());
        let node = &g.nodes[ids[i] as usize];
        assert(g@.nodes[ids@[i as int] as int] == node@);
        say_decision(&mut out, g, ids[i], node, &times[i]);
        i = i + 1;
    }
    Some(out)
}

/// The winner is an option that was right each time that it was tried, and no
/// such option is quicker.
pub proof fn winners_are_right(s: Seq<OptionStats>, times: Seq<Real>)
    requires
        times.len() == s.len(),
        s.len() <= usize::MAX,
        right_options(s, s.len() as int).len() > 0,
        forall|i: int| 0 <= i < times.len() ==> !(#[trigger] times[i]).spec_is_nan(),
    ensures
        ({
            let right = right_options(s, s.len() as int);
            let best = quickest(right, times);
            &&& best < s.len()
            &&& s[best as int].tries > 0
            &&& s[best as int].correct == s[best as int].tries
            &&& forall|k: int|
                0 <= k < right.len() ==> !times[(#[trigger] right[k]) as int].below(
                    times[best as int],
                )
        }),
{
    let right = right_options(s, s.len() as int);
    right_options_are_options(s, s.len() as int);
    right_options_are_right(s, s.len() as int);
    quickest_is_least(right, times);
}

proof fn right_options_are_right(s: Seq<OptionStats>, n: int)
    requires
        0 <= n <= s.len(),
        s.len() <= usize::MAX,
    ensures
        forall|i: int|
            0 <= i < right_options(s, n).len() ==> {
                let k = #[trigger] right_options(s, n)[i];
                k < n && s[k as int].tries > 0 && s[k as int].correct == s[k as int].tries
            },
    decreases n,
{
    if n > 0 {
        right_options_are_right(s, n - 1);
        let r = right_options(s, n);
        let front = right_options(s, n - 1);
        assert forall|i: int| 0 <= i < r.len() implies {
            let k = #[trigger] r[i];
            k < n && s[k as int].tries > 0 && s[k as int].correct == s[k as int].tries
        } by {
            if i < front.len() {
                assert(r[i] == front[i]);
            }
        }
    }
}

proof fn quickest_is_least(list: Seq<usize>, times: Seq<Real>)
    requires
        list.len() > 0,
        forall|i: int| 0 <= i < list.len() ==> #[trigger] list[i] < times.len(),
        forall|i: int| 0 <= i < times.len() ==> !(#[trigger] times[i]).spec_is_nan(),
    ensures
        list.contains(quickest(list, times)),
        forall|k: int|
            0 <= k < list.len() ==> !times[(#[trigger] list[k]) as int].below(
                times[quickest(list, times) as int],
            ),
    decreases list.len(),
{
    if list.len() > 1 {
        let front = list.drop_last();
        assert forall|i: int| 0 <= i < front.len() implies #[trigger] front[i] < times.len() by {
            assert(front[i] == list[i]);
        }
        quickest_is_least(front, times);
        let best = quickest(front, times);
        let j = choose|j: int| 0 <= j < front.len() && front[j] == best;
        assert(list[j] == best);
        let q = quickest(list, times);
        assert(list[list.len() - 1] == list.last());
        assert(!times[best as int].spec_is_nan());
        assert(!times[list.last() as int].spec_is_nan());
        assert forall|k: int| 0 <= k < list.len() implies !times[(
        #[trigger] list[k]) as int].below(times[q as int]) by {
            if k < front.len() {
                assert(front[k] == list[k]);
                assert(!times[front[k] as int].below(times[best as int]));
            }
            assert(!times[list[k] as int].spec_is_nan());
        }
    } else {
        assert(list[0] == quickest(list, times));
    }
}

// Capabilities

/// The name of the capability that an operand gives.
pub open spec fn capability_named(g: GraphView, op: Operand) -> Option<Seq<char>> {
    match op {
        Operand::StringRef(i) => Some(g.string_at(i)),
        Operand::NodeRef(id) => if id < g.nodes.len() && g.nodes[id as int].op == OpCode::ConstStr
            && g.nodes[id as int].operands.len() > 0 {
            match g.nodes[id as int].operands[0] {
                Operand::StringRef(i) => Some(g.string_at(i)),
                _ => None,
            }
        } else {
            None
        },
        _ => None,
    }
}

/// The name of the capability that an operand gives.
pub fn capability_name_from_operand(g: &NeuralGraph, operand: &Operand) -> (r: Option<String>)
    ensures
        match capability_named(g@, *operand) {
            Some(n) => r is Some && r->Some_0@ == n,
            None => r is None,
        },
{
    match operand {
        Operand::StringRef(i) => Some(g.get_string(*i)),
        Operand::NodeRef(id) => {
            if (*id as usize) < g.nodes.len() {
                let node = &g.nodes[*id as usize];
                assert(g@.nodes[*id as int] == node@);
                if node.op == OpCode::ConstStr && node.operands.len() > 0 {
                    return match node.operands[0] {
                        Operand::StringRef(i) => Some(g.get_string(i)),
                        _ => None,
                    };
                }
            }
            None
        },
        _ => None,
    }
}

/// The name of the capability that a node calls.
pub open spec fn called_by(g: GraphView, n: NodeView) -> Option<Seq<char>> {
    if n.op == OpCode::Capability && n.operands.len() > 0 {
        capability_named(g, n.operands[0])
    } else {
        None
    }
}

/// A name that one of the first `n` nodes calls.
pub open spec fn is_called(g: GraphView, n: int, name: Seq<char>) -> bool {
    exists|i: int| 0 <= i < n && called_by(g, #[trigger] g.nodes[i]) == Some(name)
}

/// The names of all capabilities that a program calls, in order, each once.
pub fn capabilities_used_by_graph(g: &NeuralGraph) -> (r: Vec<String>)
    ensures
        forall|i: int, j: int|
            0 <= i < j < r@.len() ==> precedes((#[trigger] r@[i])@, (#[trigger] r@[j])@),
        forall|name: Seq<char>|
            is_called(g@, g@.nodes.len() as int, name) <==> texts(r@).contains(name),
{
    let mut found: Table<()> = Table::new();
    let mut i: usize = 0;
    assert(forall|name: Seq<char>| !is_called(g@, 0, name));
    while i < g.nodes.len()
        invariant
            i <= g.nodes.len(),
            g@.nodes.len() == g.nodes@.len(),
            found.wf(),
            found.sorted(),
            forall|name: Seq<char>| is_called(g@, i as int, name) <==> found@.contains_key(name),
        decreases g.nodes.len() - i,
    {
        let ghost before = found@;
        assert(g@.nodes[i as int] == g.nodes@[i as int]@);
        let node = &g.nodes[i];
        let mut called: Option<String> = None;
        if node.op == OpCode::Capability && node.operands.len() > 0 {
            called = capability_name_from_operand(g, &node.operands[0]);
        }
        let ghost c = called_by(g@, g@.nodes[i as int]);
        if let Some(name) = called {
            found.insert_sorted(name, ());
        }
        proof {
            assert forall|name: Seq<char>|
                is_called(g@, i + 1, name) <==> found@.contains_key(name) by {
                if is_called(g@, i + 1, name) {
                    let j = choose|j: int|
                        0 <= j < i + 1 && called_by(g@, #[trigger] g@.nodes[j]) == Some(name);
                    if j < i {
                        assert(is_called(g@, i as int, name));
                    }
                }
                if found@.contains_key(name) {
                    if before.contains_key(name) {
                        assert(is_called(g@, i as int, name));
                        let j = choose|j: int|
                            0 <= j < i && called_by(g@, #[trigger] g@.nodes[j]) == Some(name);
                        assert(called_by(g@, g@.nodes[j]) == Some(name));
                    } else {
                        assert(called_by(g@, g@.nodes[i as int]) == Some(name));
                    }
                }
            }
        }
        i = i + 1;
    }
    let mut r: Vec<String> = Vec::new();
    let mut k: usize = 0;
    while k < found.entries.len()
        invariant
            k <= found.entries.len(),
            r@.len() == k,
            forall|j: int| 0 <= j < k ==> (#[trigger] r@[j])@ == found.entries@[j].0@,
        decreases found.entries.len() - k,
    {
        r.push(found.entries[k].0.clone());
        k = k + 1;
    }
    proof {
        assert forall|i: int, j: int| 0 <= i < j < r@.len() implies precedes(
            (#[trigger] r@[i])@,
            (#[trigger] r@[j])@,
        ) by {
            assert(precedes(found.entries@[i].0@, found.entries@[j].0@));
        }
        entries_are_the_map(found.entries@);
        assert forall|name: Seq<char>|
            is_called(g@, g@.nodes.len() as int, name) <==> texts(r@).contains(name) by {
            if found@.contains_key(name) {
                let j = choose|j: int|
                    0 <= j < found.entries@.len() && (#[trigger] found.entries@[j]).0@ == name;
                assert(texts(r@)[j] == name);
            }
            if texts(r@).contains(name) {
                let j = choose|j: int| 0 <= j < texts(r@).len() && texts(r@)[j] == name;
                assert(found.entries@[j].0@ == name);
                assert(found@.contains_key(found.entries@[j].0@));
            }
        }
    }
    r
}

} // verus!
