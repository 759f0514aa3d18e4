//! Single nodes among other bytes, and trees that come back as they are.
use crate::ast::Ast;
use crate::binary::{Step, dec_node, dec_program, enc, enc_program};
use crate::binary_laws::{all_fit, canon, canon_all, canon_form, canon_opt, fits, program_round_trip, read_node_back};
use vstd::prelude::*;

verus! {

/// The tree holds no choice, guard, strategy or feedback.
pub open spec fn plain(a: Ast) -> bool
    decreases a, 1int,
{
    plain_parts(a)
}

pub open spec fn plain_parts(a: Ast) -> bool
    decreases a, 0int,
{
    match a {
        Ast::Bind { name, mutable, ty, value } => plain(*value),
        Ast::Assign { name, value } => plain(*value),
        Ast::Fn { stateful, name, params, ret, body } => all_plain(body),
        Ast::Call { callee, args } => plain(*callee) && all_plain(args),
        Ast::If { cond, then_branch, else_branch } => plain(*cond) && plain(*then_branch) && opt_plain(else_branch),
        Ast::While { cond, body } => plain(*cond) && all_plain(body),
        Ast::ForEach { var, iterable, body } => plain(*iterable) && all_plain(body),
        Ast::Repeat { count, body } => plain(*count) && all_plain(body),
        Ast::Return(inner) => plain(*inner),
        Ast::Block(inner) => all_plain(inner),
        Ast::Array(inner) => all_plain(inner),
        Ast::Index { object, index } => plain(*object) && plain(*index),
        Ast::Range { start, end } => plain(*start) && plain(*end),
        Ast::Op { op, args } => all_plain(args),
        Ast::Pipe { kind, data, func, init } => plain(*data) && plain(*func) && opt_plain(init),
        Ast::Adapt { target, body } => all_plain(body),
        Ast::Builtin { name, args } => all_plain(args),
        Ast::Choice { .. } | Ast::Guard { .. } | Ast::Strategy { .. } | Ast::Feedback { .. } => false,
        _ => true,
    }
}

pub open spec fn all_plain(s: Seq<Ast>) -> bool
    decreases s, 0int,
{
    s.len() > 0 ==> all_plain(s.drop_last()) && plain(s.last())
}

pub open spec fn opt_plain(n: Option<Box<Ast>>) -> bool
    decreases n, 0int,
{
    match n {
        Some(e) => plain(*e),
        None => true,
    }
}

/// A tree without choices, guards, strategies and feedback comes back as it is.
pub proof fn plain_trees_are_canonical(a: Ast)
    requires
        plain(a),
    ensures
        canon(a) == a,
    decreases a, 1int,
{
    assert(plain(a) == plain_parts(a) && canon(a) == canon_form(a));
    match a {
        Ast::Bind { name, mutable, ty, value } => plain_trees_are_canonical(*value),
        Ast::Assign { name, value } => plain_trees_are_canonical(*value),
        Ast::Fn { stateful, name, params, ret, body } => plain_lists_are_canonical(body),
        Ast::Call { callee, args } => {
            plain_trees_are_canonical(*callee);
            plain_lists_are_canonical(args);
        },
        Ast::If { cond, then_branch, else_branch } => {
            plain_trees_are_canonical(*cond);
            plain_trees_are_canonical(*then_branch);
            plain_options_are_canonical(else_branch);
        },
        Ast::While { cond, body } => {
            plain_trees_are_canonical(*cond);
            plain_lists_are_canonical(body);
        },
        Ast::ForEach { var, iterable, body } => {
            plain_trees_are_canonical(*iterable);
            plain_lists_are_canonical(body);
        },
        Ast::Repeat { count, body } => {
            plain_trees_are_canonical(*count);
            plain_lists_are_canonical(body);
        },
        Ast::Return(inner) => plain_trees_are_canonical(*inner),
        Ast::Block(inner) => plain_lists_are_canonical(inner),
        Ast::Array(inner) => plain_lists_are_canonical(inner),
        Ast::Index { object, index } => {
            plain_trees_are_canonical(*object);
            plain_trees_are_canonical(*index);
        },
        Ast::Range { start, end } => {
            plain_trees_are_canonical(*start);
            plain_trees_are_canonical(*end);
        },
        Ast::Op { op, args } => plain_lists_are_canonical(args),
        Ast::Pipe { kind, data, func, init } => {
            plain_trees_are_canonical(*data);
            plain_trees_are_canonical(*func);
            plain_options_are_canonical(init);
        },
        Ast::Adapt { target, body } => plain_lists_are_canonical(body),
        Ast::Builtin { name, args } => plain_lists_are_canonical(args),
        _ => {},
    }
}

proof fn plain_lists_are_canonical(s: Seq<Ast>)
    requires
        all_plain(s),
    ensures
        canon_all(s) == s,
    decreases s, 0int,
{
    if s.len() > 0 {
        plain_lists_are_canonical(s.drop_last());
        plain_trees_are_canonical(s.last());
        assert(s.drop_last().push(s.last()) =~= s);
    } else {
        assert(s =~= Seq::<Ast>::empty());
    }
}

proof fn plain_options_are_canonical(n: Option<Box<Ast>>)
    requires
        opt_plain(n),
    ensures
        canon_opt(n) == n,
    decreases n, 0int,
{
    if let Some(e) = n {
        plain_trees_are_canonical(*e);
    }
}

/// The bytes of a node tell where they end, and do not depend on what stands
/// around them: wherever they stand, reading gives the node back and stops behind
/// them. Choices, guards, strategies and feedback come back as the builtins that
/// they are written as; a tree without them comes back as it is.
pub proof fn node_round_trip(before: Seq<u8>, a: Ast, behind: Seq<u8>)
    requires
        fits(a),
    ensures
        dec_node(before + enc(a) + behind, before.len() as int) == Step::Got(
            canon(a),
            enc(a).len(),
        ),
        plain(a) ==> dec_node(before + enc(a) + behind, before.len() as int) == Step::Got(
            a,
            enc(a).len(),
        ),
{
    let d = before + enc(a) + behind;
    let p = before.len() as int;
    assert(d.subrange(p, p + enc(a).len()) =~= enc(a));
    read_node_back(d, before.len() as int, a);
    if plain(a) {
        plain_trees_are_canonical(a);
    }
}

/// A program without choices, guards, strategies and feedback is read back as it
/// is.
pub proof fn plain_programs_round_trip(nodes: Seq<Ast>)
    requires
        all_fit(nodes),
        all_plain(nodes),
    ensures
        dec_program(enc_program(nodes)) == Step::Got(nodes, enc_program(nodes).len()),
{
    program_round_trip(nodes);
    plain_lists_are_canonical(nodes);
}

} // verus!
