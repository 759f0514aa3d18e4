//! A summary of what a program has become.
use crate::evolution_loop::zero_padded;
use crate::graph::{GraphNode, NeuralGraph, NodeView, OpCode, WeightKind};
use crate::message::{Part, Piece, message_parts, number_list, parts_assoc, say, say_list, t};
use crate::number::Real;
use crate::real_constants::{R_0_1, R_0_8, R_0_9, R_0_95};
use crate::reports::padded_text;
use crate::strings::{cat5, char_count};
use crate::text::{dec_nat, u64_text};
use vstd::prelude::*;
use vstd::string::StringExecFns;

verus! {

/// `n` blanks.
pub open spec fn spaces(n: int) -> Seq<char> {
    Seq::new(
        if n > 0 {
            n as nat
        } else {
            0
        },
        |i: int| ' ',
    )
}

fn push_spaces(s: &mut String, n: usize)
    ensures
        final(s)@ == old(s)@ + spaces(n as int),
{
    let ghost before = s@;
    let mut i: usize = 0;
    assert(before + spaces(0) =~= before);
    while i < n
        invariant
            i <= n,
            s@ == before + spaces(i as int),
        decreases n - i,
    {
        s.push(' ');
        i = i + 1;
        assert(before + spaces(i as int) =~= (before + spaces(i - 1)).push(' '));
    }
}

/// `s` with blanks behind it up to a width.
pub open spec fn left_aligned(s: Seq<char>, width: int) -> Seq<char> {
    s + spaces(width - s.len())
}

/// `s` with blanks in front of it up to a width.
pub open spec fn right_aligned(s: Seq<char>, width: int) -> Seq<char> {
    spaces(width - s.len()) + s
}

pub fn align_left(s: &str, width: usize) -> (r: String)
    ensures
        r@ == left_aligned(s@, width as int),
{
    let n: usize = char_count(s);
    let mut r = String::from_str(s);
    if n < width {
        push_spaces(&mut r, width - n);
    } else {
        assert(r@ =~= left_aligned(s@, width as int));
    }
    r
}

pub fn align_right(s: &str, width: usize) -> (r: String)
    ensures
        r@ == right_aligned(s@, width as int),
{
    let n: usize = char_count(s);
    let mut r = String::new();
    if n < width {
        push_spaces(&mut r, width - n);
    }
    r.append(s);
    assert(r@ =~= right_aligned(s@, width as int));
    r
}

/// A node that chooses between paths.
pub open spec fn is_branch(op: OpCode) -> bool {
    op == OpCode::Branch || op == OpCode::AdaptiveChoice || op == OpCode::Strategy
}

/// A weight is above a bound.
pub open spec fn some_above(w: Seq<Real>, bound: Real) -> bool {
    exists|i: int| 0 <= i < w.len() && bound.below(#[trigger] w[i])
}

/// A weight is above nine tenths or below one tenth.
pub open spec fn leans(w: Seq<Real>) -> bool {
    exists|i: int|
        0 <= i < w.len() && ((Real { bits: R_0_9 }).below(#[trigger] w[i]) || w[i].below(
            Real { bits: R_0_1 },
        ))
}

fn check_above(w: &Vec<Real>, bound: Real) -> (b: bool)
    ensures
        b == some_above(w@, bound),
{
    let mut i: usize = 0;
    while i < w.len()
        invariant
            i <= w.len(),
            forall|k: int| 0 <= k < i ==> !bound.below(#[trigger] w@[k]),
        decreases w.len() - i,
    {
        if bound.lt(w[i]) {
            assert(bound.below(w@[i as int]));
            return true;
        }
        i = i + 1;
    }
    false
}

fn check_leans(w: &Vec<Real>) -> (b: bool)
    ensures
        b == leans(w@),
{
    let mut i: usize = 0;
    while i < w.len()
        invariant
            i <= w.len(),
            forall|k: int|
                0 <= k < i ==> !((Real { bits: R_0_9 }).below(#[trigger] w@[k]) || w@[k].below(
                    Real { bits: R_0_1 },
                )),
        decreases w.len() - i,
    {
        if (Real { bits: R_0_9 }).lt(w[i]) || w[i].lt(Real { bits: R_0_1 }) {
            assert((Real { bits: R_0_9 }).below(w@[i as int]) || w@[i as int].below(
                Real { bits: R_0_1 },
            ));
            return true;
        }
        i = i + 1;
    }
    false
}

/// What is counted of the nodes.
pub struct Tally {
    pub live: int,
    pub fired: int,
    pub most: int,
    pub hinted: int,
    pub branches: int,
    pub leaning: int,
}

/// The counts of the first `n` nodes.
pub open spec fn tally(s: Seq<NodeView>, n: int) -> Tally
    decreases n,
{
    if n <= 0 {
        Tally { live: 0, fired: 0, most: 0, hinted: 0, branches: 0, leaning: 0 }
    } else {
        let c = tally(s, n - 1);
        let x = s[n - 1];
        Tally {
            live: c.live + (if x.op != OpCode::Noop {
                1int
            } else {
                0
            }),
            fired: c.fired + x.activation_count,
            most: if x.activation_count > c.most {
                x.activation_count as int
            } else {
                c.most
            },
            hinted: c.hinted + (if !x.bias.same_value(Real { bits: 0 }) {
                1int
            } else {
                0
            }),
            branches: c.branches + (if is_branch(x.op) {
                1int
            } else {
                0
            }),
            leaning: c.leaning + (if is_branch(x.op) && leans(x.weights) {
                1int
            } else {
                0
            }),
        }
    }
}

/// The counts of a program's nodes.
#[derive(Clone, Copy, Debug)]
pub struct Counts {
    pub live: u64,
    pub fired: u128,
    pub most: u64,
    pub hinted: u64,
    pub branches: u64,
    pub leaning: u64,
}

/// Counts a program's nodes.
pub fn count_nodes(g: &NeuralGraph) -> (c: Counts)
    ensures
        ({
            let t = tally(g@.nodes, g@.nodes.len() as int);
            &&& c.live == t.live
            &&& c.fired == t.fired
            &&& c.most == t.most
            &&& c.hinted == t.hinted
            &&& c.branches == t.branches
            &&& c.leaning == t.leaning
        }),
{
    let mut c = Counts { live: 0, fired: 0, most: 0, hinted: 0, branches: 0, leaning: 0 };
    let mut i: usize = 0;
    while i < g.nodes.len()
        invariant
            i <= g.nodes.len(),
            g@.nodes.len() == g.nodes@.len(),
            ({
                let t = tally(g@.nodes, i as int);
                &&& c.live == t.live
                &&& c.fired == t.fired
                &&& c.most == t.most
                &&& c.hinted == t.hinted
                &&& c.branches == t.branches
                &&& c.leaning == t.leaning
            }),
            c.live <= i,
            c.hinted <= i,
            c.branches <= i,
            c.leaning <= i,
            c.fired <= i * 0xFFFF_FFFF_FFFF_FFFF,
        decreases g.nodes.len() - i,
    {
        assert(g@.nodes[i as int] == g.nodes@[i as int]@);
        let n = &g.nodes[i];
        assert(i * 0xFFFF_FFFF_FFFF_FFFF + 0xFFFF_FFFF_FFFF_FFFF == (i + 1)
            * 0xFFFF_FFFF_FFFF_FFFF);
        assert((i + 1) * 0xFFFF_FFFF_FFFF_FFFF
            <= 0xFFFF_FFFF_FFFF_FFFF_FFFF_FFFF_FFFF_FFFF) by (nonlinear_arith)
            requires
                0 <= i < 0xFFFF_FFFF_FFFF_FFFF,
        ;
        if n.op != OpCode::Noop {
            c.live = c.live + 1;
        }
        c.fired = c.fired + n.activation_count as u128;
        if n.activation_count > c.most {
            c.most = n.activation_count;
        }
        if !n.bias.eq_value(Real::zero()) {
            c.hinted = c.hinted + 1;
        }
        if n.op == OpCode::Branch || n.op == OpCode::AdaptiveChoice || n.op == OpCode::Strategy {
            c.branches = c.branches + 1;
            if check_leans(&n.weights) {
                c.leaning = c.leaning + 1;
            }
        }
        i = i + 1;
    }
    c
}

pub open spec fn short_kind(k: WeightKind) -> Seq<char> {
    match k {
        WeightKind::Observational => "obs"@,
        WeightKind::Adaptive => "ADAPTIVE"@,
        WeightKind::TypeHint => "type"@,
        WeightKind::Strategy => "STRATEGY"@,
        WeightKind::Decision => "STRATEGY"@,
    }
}

fn short_kind_name(k: WeightKind) -> (s: &'static str)
    ensures
        s@ == short_kind(k),
{
    match k {
        WeightKind::Observational => "obs",
        WeightKind::Adaptive => "ADAPTIVE",
        WeightKind::TypeHint => "type",
        WeightKind::Strategy => "STRATEGY",
        WeightKind::Decision => "STRATEGY",
    }
}

pub open spec fn branch_mark(w: Seq<Real>) -> Seq<char> {
    if some_above(w, Real { bits: R_0_95 }) {
        "] <- CONVERGED\n"@
    } else if some_above(w, Real { bits: R_0_8 }) {
        "] <- learning\n"@
    } else {
        "]\n"@
    }
}

/// A line on a branch.
pub open spec fn branch_parts(n: NodeView) -> Seq<Part> {
    t(
        "    #"@ + zero_padded(n.id as nat, 4) + " "@ + left_aligned(short_kind(n.weight_kind), 8)
            + " fired:"@ + right_aligned(dec_nat(n.activation_count as nat), 6) + " w["@,
    ) + number_list(n.weights, 3) + t(branch_mark(n.weights))
}

fn say_branch(out: &mut Vec<Piece>, n: &GraphNode)
    ensures
        message_parts(final(out)@) == message_parts(old(out)@) + branch_parts(n@),
{
    broadcast use parts_assoc;

    let mut s = cat5(
        "    #",
        padded_text(n.id as u64, 4).as_str(),
        " ",
        align_left(short_kind_name(n.weight_kind), 8).as_str(),
        " fired:",
    );
    s.append(align_right(u64_text(n.activation_count).as_str(), 6).as_str());
    s.append(" w[");
    say(out, s.as_str());
    say_list(out, &n.weights, 3);
    if check_above(&n.weights, Real { bits: R_0_95 }) {
        say(out, "] <- CONVERGED\n");
    } else if check_above(&n.weights, Real { bits: R_0_8 }) {
        say(out, "] <- learning\n");
    } else {
        say(out, "]\n");
    }
}

/// Lines on the branches among the first `n` nodes.
pub open spec fn branches_parts(s: Seq<NodeView>, n: int) -> Seq<Part>
    decreases n,
{
    if n <= 0 {
        Seq::empty()
    } else if is_branch(s[n - 1].op) {
        branches_parts(s, n - 1) + branch_parts(s[n - 1])
    } else {
        branches_parts(s, n - 1)
    }
}

/// Puts a line on each branch of a program behind a message.
pub fn say_branches(out: &mut Vec<Piece>, g: &NeuralGraph)
    ensures
        message_parts(final(out)@) == message_parts(old(out)@) + branches_parts(
            g@.nodes,
            g@.nodes.len() as int,
        ),
{
    let ghost before = message_parts(out@);
    let mut i: usize = 0;
    assert(before + Seq::<Part>::empty() =~= before);
    while i < g.nodes.len()
        invariant
            i <= g.nodes.len(),
            g@.nodes.len() == g.nodes@.len(),
            message_parts(out@) == before + branches_parts(g@.nodes, i as int),
        decreases g.nodes.len() - i,
    {
        broadcast use parts_assoc;

        assert(g@.nodes[i as int] == g.nodes@[i as int]@);
        let op = g.nodes[i].op;
        if op == OpCode::Branch || op == OpCode::AdaptiveChoice || op == OpCode::Strategy {
            say_branch(out, &g.nodes[i]);
        }
        i = i + 1;
    }
}

/// The places of nodes, those that fired more often first; equals keep their
/// order.
pub open spec fn hotter_first(s: Seq<NodeView>, v: Seq<usize>, x: usize) -> Seq<usize>
    decreases v.len(),
{
    if v.len() == 0 || s[v.last() as int].activation_count >= s[x as int].activation_count {
        v.push(x)
    } else {
        hotter_first(s, v.drop_last(), x).push(v.last())
    }
}

/// The live nodes among the first `n` that fired, hottest first.
pub open spec fn hot_nodes(s: Seq<NodeView>, n: int) -> Seq<usize>
    decreases n,
{
    if n <= 0 {
        Seq::empty()
    } else if s[n - 1].op != OpCode::Noop && s[n - 1].activation_count > 0 {
        hotter_first(s, hot_nodes(s, n - 1), (n - 1) as usize)
    } else {
        hot_nodes(s, n - 1)
    }
}

proof fn hotter_splits(s: Seq<NodeView>, v: Seq<usize>, x: usize, at: int)
    requires
        0 <= at <= v.len(),
        forall|k: int|
            at <= k < v.len() ==> s[(#[trigger] v[k]) as int].activation_count
                < s[x as int].activation_count,
        at == 0 || s[v[at - 1] as int].activation_count >= s[x as int].activation_count,
    ensures
        hotter_first(s, v, x) == v.insert(at, x),
    decreases v.len(),
{
    if at == v.len() {
        assert(v.insert(at, x) =~= v.push(x));
    } else {
        let front = v.drop_last();
        assert(s[v[v.len() - 1] as int].activation_count < s[x as int].activation_count);
        assert forall|k: int| at <= k < front.len() implies s[(
        #[trigger] front[k]) as int].activation_count < s[x as int].activation_count by {
            assert(front[k] == v[k]);
        }
        hotter_splits(s, front, x, at);
        assert(front.insert(at, x).push(v.last()) =~= v.insert(at, x));
    }
}

/// The places of the live nodes that fired, hottest first.
pub fn hottest(g: &NeuralGraph) -> (v: Vec<usize>)
    ensures
        v@ == hot_nodes(g@.nodes, g@.nodes.len() as int),
{
    let ghost s = g@.nodes;
    let mut v: Vec<usize> = Vec::new();
    let mut i: usize = 0;
    while i < g.nodes.len()
        invariant
            i <= g.nodes.len(),
            s == g@.nodes,
            s.len() == g.nodes@.len(),
            forall|k: int| 0 <= k < v@.len() ==> #[trigger] v@[k] < i,
            v@ == hot_nodes(s, i as int),
        decreases g.nodes.len() - i,
    {
        assert(s[i as int] == g.nodes@[i as int]@);
        let count: u64 = g.nodes[i].activation_count;
        if g.nodes[i].op != OpCode::Noop && count > 0 {
            let mut at: usize = v.len();
            let mut go = true;
            while go && at > 0
                invariant
                    at <= v@.len(),
                    i < g.nodes@.len(),
                    s == g@.nodes,
                    s.len() == g.nodes@.len(),
                    count == s[i as int].activation_count,
                    forall|k: int| 0 <= k < v@.len() ==> #[trigger] v@[k] < i,
                    forall|k: int|
                        at <= k < v@.len() ==> s[(#[trigger] v@[k]) as int].activation_count
                            < count,
                    !go ==> at > 0 && s[v@[at - 1] as int].activation_count >= count,
                decreases at, if go { 1int } else { 0int },
            {
                let p: usize = v[at - 1];
                assert(v@[at - 1] < i);
                assert(s[p as int] == g.nodes@[p as int]@);
                if g.nodes[p].activation_count >= count {
                    go = false;
                } else {
                    at = at - 1;
                }
            }
            proof {
                hotter_splits(s, v@, i, at as int);
            }
            let ghost before = v@;
            v.insert(at, i);
            assert forall|k: int| 0 <= k < v@.len() implies #[trigger] v@[k] < i + 1 by {
                if k < at {
                    assert(v@[k] == before[k]);
                } else if k > at {
                    assert(v@[k] == before[k - 1]);
                }
            }
        }
        i = i + 1;
    }
    v
}

} // verus!
