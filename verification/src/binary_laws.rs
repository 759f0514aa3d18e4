//! What writing a program as bytes and reading it back gives.

use crate::ast::{Ast, ParamView, Type};
use crate::binary::{Step, VERSION, after, dec_adapt, dec_array, dec_assign, dec_bind, dec_block, dec_builtin, dec_call, dec_counted, dec_fn, dec_for_each, dec_if, dec_index, dec_node, dec_nodes, dec_op, dec_opt_node, dec_payload, dec_pipe, dec_program, dec_range, dec_repeat, dec_return, dec_while, enc, enc_all, enc_counted, enc_counted_params, enc_flag, enc_name, enc_opt_node, enc_params, enc_program, enc_str, enc_ty, enc_type, magic, op_kind_code, pipe_kind_code, tag_and_payload, take_counted_params, take_flag, take_name, take_params, take_str, take_type, take_u32};
use crate::bytes::{le32, le32_round_trip, le64, le64_round_trip, le_lengths, signed_bits_round_trip, split_at, stands_at};
use vstd::prelude::*;
use vstd::utf8::*;

verus! {

/// The tree that comes back from the bytes: choices, guards, strategies and
/// feedback come back as calls of the builtins of those names.
pub open spec fn canon(a: Ast) -> Ast
    decreases a, 1int,
{
    canon_form(a)
}

pub open spec fn canon_form(a: Ast) -> Ast
    decreases a, 0int,
{
    match a {
        Ast::Bind { name, mutable, ty, value } => Ast::Bind { name, mutable, ty, value: Box::new(canon(*value)) },
        Ast::Assign { name, value } => Ast::Assign { name, value: Box::new(canon(*value)) },
        Ast::Fn { stateful, name, params, ret, body } => Ast::Fn { stateful, name, params, ret, body: canon_all(body) },
        Ast::Call { callee, args } => Ast::Call { callee: Box::new(canon(*callee)), args: canon_all(args) },
        Ast::If { cond, then_branch, else_branch } => Ast::If { cond: Box::new(canon(*cond)), then_branch: Box::new(canon(*then_branch)), else_branch: canon_opt(else_branch) },
        Ast::While { cond, body } => Ast::While { cond: Box::new(canon(*cond)), body: canon_all(body) },
        Ast::ForEach { var, iterable, body } => Ast::ForEach { var, iterable: Box::new(canon(*iterable)), body: canon_all(body) },
        Ast::Repeat { count, body } => Ast::Repeat { count: Box::new(canon(*count)), body: canon_all(body) },
        Ast::Return(inner) => Ast::Return(Box::new(canon(*inner))),
        Ast::Block(inner) => Ast::Block(canon_all(inner)),
        Ast::Array(inner) => Ast::Array(canon_all(inner)),
        Ast::Index { object, index } => Ast::Index { object: Box::new(canon(*object)), index: Box::new(canon(*index)) },
        Ast::Range { start, end } => Ast::Range { start: Box::new(canon(*start)), end: Box::new(canon(*end)) },
        Ast::Op { op, args } => Ast::Op { op, args: canon_all(args) },
        Ast::Pipe { kind, data, func, init } => Ast::Pipe { kind, data: Box::new(canon(*data)), func: Box::new(canon(*func)), init: canon_opt(init) },
        Ast::Adapt { target, body } => Ast::Adapt { target, body: canon_all(body) },
        Ast::Builtin { name, args } => Ast::Builtin { name, args: canon_all(args) },
        Ast::Choice { options } => Ast::Builtin { name: "choice"@, args: canon_all(options) },
        Ast::Guard { assumption, fast_path, fallback } => Ast::Builtin {
            name: "guard"@,
            args: seq![canon(*assumption), canon(*fast_path), canon(*fallback)],
        },
        Ast::Strategy { options } => Ast::Builtin { name: "strategy"@, args: canon_all(options) },
        Ast::Feedback { target, reward } => Ast::Builtin {
            name: "feedback"@,
            args: seq![canon(*target), canon(*reward)],
        },
        other => other,
    }
}

pub open spec fn canon_all(s: Seq<Ast>) -> Seq<Ast>
    decreases s, 0int,
{
    if s.len() == 0 {
        Seq::empty()
    } else {
        canon_all(s.drop_last()).push(canon(s.last()))
    }
}

pub open spec fn canon_opt(n: Option<Box<Ast>>) -> Option<Box<Ast>>
    decreases n, 0int,
{
    match n {
        Some(e) => Some(Box::new(canon(*e))),
        None => None,
    }
}

/// The text is short enough for its length field.
pub open spec fn text_fits(s: Seq<char>) -> bool {
    encode_utf8(s).len() <= u32::MAX
}

pub open spec fn name_fits(s: Option<Seq<char>>) -> bool {
    match s {
        Some(n) => text_fits(n),
        None => true,
    }
}

pub open spec fn params_fit(s: Seq<ParamView>) -> bool {
    s.len() <= u32::MAX && forall|i: int| 0 <= i < s.len() ==> text_fits((#[trigger] s[i]).name)
}

/// Every list and text in the tree is short enough for its length field.
pub open spec fn fits(a: Ast) -> bool
    decreases a, 1int,
{
    parts_fit(a)
}

pub open spec fn parts_fit(a: Ast) -> bool
    decreases a, 0int,
{
    match a {
        Ast::Str(s) => text_fits(s),
        Ast::Ident(s) => text_fits(s),
        Ast::Bind { name, mutable, ty, value } => text_fits(name) && fits(*value),
        Ast::Assign { name, value } => text_fits(name) && fits(*value),
        Ast::Fn { stateful, name, params, ret, body } => name_fits(name) && params_fit(params) && all_fit(body),
        Ast::Call { callee, args } => fits(*callee) && all_fit(args),
        Ast::If { cond, then_branch, else_branch } => fits(*cond) && fits(*then_branch) && opt_fits(else_branch),
        Ast::While { cond, body } => fits(*cond) && all_fit(body),
        Ast::ForEach { var, iterable, body } => text_fits(var) && fits(*iterable) && all_fit(body),
        Ast::Repeat { count, body } => fits(*count) && all_fit(body),
        Ast::Return(inner) => fits(*inner),
        Ast::Block(inner) => all_fit(inner),
        Ast::Array(inner) => all_fit(inner),
        Ast::Index { object, index } => fits(*object) && fits(*index),
        Ast::Range { start, end } => fits(*start) && fits(*end),
        Ast::Op { op, args } => all_fit(args),
        Ast::Pipe { kind, data, func, init } => fits(*data) && fits(*func) && opt_fits(init),
        Ast::Adapt { target, body } => text_fits(target) && all_fit(body),
        Ast::Builtin { name, args } => text_fits(name) && all_fit(args),
        Ast::Choice { options } => all_fit(options),
        Ast::Guard { assumption, fast_path, fallback } => fits(*assumption) && fits(*fast_path)
            && fits(*fallback),
        Ast::Strategy { options } => all_fit(options),
        Ast::Feedback { target, reward } => fits(*target) && fits(*reward),
        _ => true,
    }
}

pub open spec fn all_fit(s: Seq<Ast>) -> bool
    decreases s, 1int,
{
    s.len() <= u32::MAX && each_fits(s)
}

pub open spec fn each_fits(s: Seq<Ast>) -> bool
    decreases s, 0int,
{
    s.len() > 0 ==> each_fits(s.drop_last()) && fits(s.last())
}

pub open spec fn opt_fits(n: Option<Box<Ast>>) -> bool
    decreases n, 0int,
{
    match n {
        Some(e) => fits(*e),
        None => true,
    }
}

proof fn read_one(d: Seq<u8>, p: int, b: u8)
    requires
        stands_at(d, p, seq![b]),
    ensures
        p < d.len(),
        d[p] == b,
{
    assert(d.subrange(p, p + 1)[0] == d[p]);
}

proof fn read_flag_back(d: Seq<u8>, p: int, b: bool)
    requires
        stands_at(d, p, enc_flag(b)),
    ensures
        take_flag(d, p) == Step::Got(b, 1),
        enc_flag(b).len() == 1,
{
    if b {
        read_one(d, p, 1);
    } else {
        read_one(d, p, 0);
    }
}

proof fn read_count(d: Seq<u8>, p: int, v: u32)
    requires
        stands_at(d, p, le32(v)),
    ensures
        take_u32(d, p) == Step::Got(v, 4),
        le32(v).len() == 4,
{
    le_lengths(0, v);
    le32_round_trip(d, p, v);
}

proof fn read_text(d: Seq<u8>, p: int, s: Seq<char>)
    requires
        stands_at(d, p, enc_str(s)),
        text_fits(s),
    ensures
        take_str(d, p) == Step::Got(s, enc_str(s).len()),
{
    let u = encode_utf8(s);
    split_at(d, p, le32(u.len() as u32), u);
    read_count(d, p, u.len() as u32);
    encode_utf8_valid_utf8(s);
    encode_utf8_decode_utf8(s);
}

proof fn read_name_back(d: Seq<u8>, p: int, s: Option<Seq<char>>)
    requires
        stands_at(d, p, enc_name(s)),
        name_fits(s),
    ensures
        take_name(d, p) == Step::Got(s, enc_name(s).len()),
{
    match s {
        Some(n) => {
            split_at(d, p, seq![1u8], enc_str(n));
            read_one(d, p, 1);
            read_text(d, p + 1, n);
        },
        None => read_one(d, p, 0),
    }
}

proof fn read_ty(d: Seq<u8>, p: int, t: Type)
    requires
        stands_at(d, p, enc_ty(t)),
    ensures
        take_type(d, p) == Step::Got(Some(t), enc_ty(t).len()),
    decreases t,
{
    match t {
        Type::Int => read_one(d, p, 1),
        Type::Float => read_one(d, p, 2),
        Type::Str => read_one(d, p, 3),
        Type::Bool => read_one(d, p, 4),
        Type::Null => read_one(d, p, 5),
        Type::Array(inner) => {
            split_at(d, p, seq![6u8], enc_ty(*inner));
            read_one(d, p, 6);
            read_ty(d, p + 1, *inner);
        },
    }
}

proof fn read_type_back(d: Seq<u8>, p: int, t: Option<Type>)
    requires
        stands_at(d, p, enc_type(t)),
    ensures
        take_type(d, p) == Step::Got(t, enc_type(t).len()),
{
    match t {
        Some(t) => read_ty(d, p, t),
        None => read_one(d, p, 0),
    }
}

proof fn read_params_back(d: Seq<u8>, p: int, s: Seq<ParamView>)
    requires
        stands_at(d, p, enc_params(s)),
        params_fit(s),
    ensures
        take_params(d, p, s.len()) == Step::Got(s, enc_params(s).len()),
    decreases s.len(),
{
    if s.len() > 0 {
        let front = s.drop_last();
        let x = s.last();
        assert(x == s[s.len() - 1]);
        assert forall|i: int| 0 <= i < front.len() implies text_fits((#[trigger] front[i]).name) by {
            assert(front[i] == s[i]);
        }
        let a = enc_params(front);
        split_at(d, p, a, enc_str(x.name) + enc_type(x.ty));
        split_at(d, p + a.len(), enc_str(x.name), enc_type(x.ty));
        read_params_back(d, p, front);
        read_text(d, p + a.len(), x.name);
        read_type_back(d, p + a.len() + enc_str(x.name).len(), x.ty);
        assert(front.push(ParamView { name: x.name, ty: x.ty }) == s);
    } else {
        assert(s == Seq::<ParamView>::empty());
    }
}

proof fn read_counted_params(d: Seq<u8>, p: int, s: Seq<ParamView>)
    requires
        stands_at(d, p, enc_counted_params(s)),
        params_fit(s),
    ensures
        take_counted_params(d, p) == Step::Got(s, enc_counted_params(s).len()),
{
    split_at(d, p, le32(s.len() as u32), enc_params(s));
    read_count(d, p, s.len() as u32);
    read_params_back(d, p + 4, s);
}

proof fn read_all(d: Seq<u8>, p: int, s: Seq<Ast>)
    requires
        stands_at(d, p, enc_all(s)),
        each_fits(s),
    ensures
        dec_nodes(d, p, s.len()) == Step::Got(canon_all(s), enc_all(s).len()),
    decreases s, 0int,
{
    if s.len() > 0 {
        let a = enc_all(s.drop_last());
        split_at(d, p, a, enc(s.last()));
        read_all(d, p, s.drop_last());
        read_node_back(d, p + a.len(), s.last());
    }
}

proof fn read_counted(d: Seq<u8>, p: int, s: Seq<Ast>)
    requires
        stands_at(d, p, enc_counted(s)),
        all_fit(s),
    ensures
        dec_counted(d, p) == Step::Got(canon_all(s), enc_counted(s).len()),
    decreases s, 1int,
{
    split_at(d, p, le32(s.len() as u32), enc_all(s));
    read_count(d, p, s.len() as u32);
    read_all(d, p + 4, s);
}

proof fn read_opt_back(d: Seq<u8>, p: int, n: Option<Box<Ast>>)
    requires
        stands_at(d, p, enc_opt_node(n)),
        opt_fits(n),
    ensures
        dec_opt_node(d, p) == Step::Got(canon_opt(n), enc_opt_node(n).len()),
    decreases n, 0int,
{
    match n {
        Some(e) => {
            split_at(d, p, seq![1u8], enc(*e));
            read_one(d, p, 1);
            read_node_back(d, p + 1, *e);
        },
        None => read_one(d, p, 0),
    }
}

proof fn read_call_of(d: Seq<u8>, p: int, name: Seq<char>, args: Seq<Ast>)
    requires
        stands_at(d, p, seq![0x80u8] + enc_str(name) + enc_counted(args)),
        text_fits(name),
        all_fit(args),
    ensures
        dec_node(d, p) == Step::Got(
            Ast::Builtin { name, args: canon_all(args) },
            (seq![0x80u8] + enc_str(name) + enc_counted(args)).len(),
        ),
    decreases args, 2int,
{
    let a1 = seq![0x80u8];
    let a2 = a1 + enc_str(name);
    split_at(d, p, a2, enc_counted(args));
    split_at(d, p, a1, enc_str(name));
    read_one(d, p, 0x80);
    read_text(d, p + 1, name);
    read_counted(d, p + a2.len(), args);
    assert(dec_payload(d, p + 1, d[p]) == dec_builtin(d, p + 1));
        assert(dec_node(d, p) == after(1, dec_payload(d, p + 1, d[p])));
}

proof fn literal_names_fit()
    ensures
        text_fits("choice"@),
        text_fits("guard"@),
        text_fits("strategy"@),
        text_fits("feedback"@),
{
    reveal_strlit("choice");
    reveal_strlit("guard");
    reveal_strlit("strategy");
    reveal_strlit("feedback");
    is_ascii_chars_encode_utf8("choice"@);
    is_ascii_chars_encode_utf8("guard"@);
    is_ascii_chars_encode_utf8("strategy"@);
    is_ascii_chars_encode_utf8("feedback"@);
}

proof fn back_int(d: Seq<u8>, p: int, a: Ast)
    requires
        a is Int,
        stands_at(d, p, enc(a)),
        fits(a),
    ensures
        dec_node(d, p) == Step::Got(canon(a), enc(a).len()),
    decreases a, 0int,
{
    if let Ast::Int(n) = a {
        assert(enc(a) == tag_and_payload(a) && fits(a) == parts_fit(a) && canon(a) == canon_form(a));
        split_at(d, p, seq![0x01u8], le64(n as u64));
        read_one(d, p, 0x01);
        le_lengths(n as u64, 0);
        le64_round_trip(d, p + 1, n as u64);
        signed_bits_round_trip(n);
        assert(dec_node(d, p) == after(1, dec_payload(d, p + 1, d[p])));
    }
}

proof fn back_float(d: Seq<u8>, p: int, a: Ast)
    requires
        a is Float,
        stands_at(d, p, enc(a)),
        fits(a),
    ensures
        dec_node(d, p) == Step::Got(canon(a), enc(a).len()),
    decreases a, 0int,
{
    if let Ast::Float(f) = a {
        assert(enc(a) == tag_and_payload(a) && fits(a) == parts_fit(a) && canon(a) == canon_form(a));
        split_at(d, p, seq![0x02u8], le64(f.bits));
        read_one(d, p, 0x02);
        le_lengths(f.bits, 0);
        le64_round_trip(d, p + 1, f.bits);
        assert(dec_node(d, p) == after(1, dec_payload(d, p + 1, d[p])));
    }
}

proof fn back_str(d: Seq<u8>, p: int, a: Ast)
    requires
        a is Str,
        stands_at(d, p, enc(a)),
        fits(a),
    ensures
        dec_node(d, p) == Step::Got(canon(a), enc(a).len()),
    decreases a, 0int,
{
    if let Ast::Str(s) = a {
        assert(enc(a) == tag_and_payload(a) && fits(a) == parts_fit(a) && canon(a) == canon_form(a));
        split_at(d, p, seq![0x03u8], enc_str(s));
        read_one(d, p, 0x03);
        read_text(d, p + 1, s);
        assert(dec_node(d, p) == after(1, dec_payload(d, p + 1, d[p])));
    }
}

proof fn back_bool(d: Seq<u8>, p: int, a: Ast)
    requires
        a is Bool,
        stands_at(d, p, enc(a)),
        fits(a),
    ensures
        dec_node(d, p) == Step::Got(canon(a), enc(a).len()),
    decreases a, 0int,
{
    if let Ast::Bool(b) = a {
        assert(enc(a) == tag_and_payload(a) && fits(a) == parts_fit(a) && canon(a) == canon_form(a));
        split_at(d, p, seq![0x04u8], enc_flag(b));
        read_one(d, p, 0x04);
        read_flag_back(d, p + 1, b);
        assert(dec_node(d, p) == after(1, dec_payload(d, p + 1, d[p])));
    }
}

proof fn back_ident(d: Seq<u8>, p: int, a: Ast)
    requires
        a is Ident,
        stands_at(d, p, enc(a)),
        fits(a),
    ensures
        dec_node(d, p) == Step::Got(canon(a), enc(a).len()),
    decreases a, 0int,
{
    if let Ast::Ident(s) = a {
        assert(enc(a) == tag_and_payload(a) && fits(a) == parts_fit(a) && canon(a) == canon_form(a));
        split_at(d, p, seq![0x06u8], enc_str(s));
        read_one(d, p, 0x06);
        read_text(d, p + 1, s);
        assert(dec_node(d, p) == after(1, dec_payload(d, p + 1, d[p])));
    }
}

proof fn back_bind(d: Seq<u8>, p: int, a: Ast)
    requires
        a is Bind,
        stands_at(d, p, enc(a)),
        fits(a),
    ensures
        dec_node(d, p) == Step::Got(canon(a), enc(a).len()),
    decreases a, 0int,
{
    if let Ast::Bind { name, mutable, ty, value } = a {
        assert(enc(a) == tag_and_payload(a) && fits(a) == parts_fit(a) && canon(a) == canon_form(a));
        assert(enc(a) == seq![0x10u8] + enc_str(name) + enc_flag(mutable) + enc_type(ty) + enc(*value));
        assert(text_fits(name) && fits(*value));
        assert(canon(a) == (Ast::Bind { name, mutable, ty, value: Box::new(canon(*value)) }));
        let a0 = seq![0x10u8];
        let a1 = a0 + enc_str(name);
        let a2 = a1 + enc_flag(mutable);
        let a3 = a2 + enc_type(ty);
        split_at(d, p, a3, enc(*value));
        split_at(d, p, a2, enc_type(ty));
        split_at(d, p, a1, enc_flag(mutable));
        split_at(d, p, a0, enc_str(name));
        read_one(d, p, 0x10);
        read_text(d, p + a0.len(), name);
        read_flag_back(d, p + a1.len(), mutable);
        read_type_back(d, p + a2.len(), ty);
        read_node_back(d, p + a3.len(), *value);
        assert(dec_payload(d, p + 1, d[p]) == dec_bind(d, p + 1));
        assert(dec_node(d, p) == after(1, dec_payload(d, p + 1, d[p])));
    }
}

proof fn back_assign(d: Seq<u8>, p: int, a: Ast)
    requires
        a is Assign,
        stands_at(d, p, enc(a)),
        fits(a),
    ensures
        dec_node(d, p) == Step::Got(canon(a), enc(a).len()),
    decreases a, 0int,
{
    if let Ast::Assign { name, value } = a {
        assert(enc(a) == tag_and_payload(a) && fits(a) == parts_fit(a) && canon(a) == canon_form(a));
        assert(enc(a) == seq![0x11u8] + enc_str(name) + enc(*value));
        assert(text_fits(name) && fits(*value));
        assert(canon(a) == (Ast::Assign { name, value: Box::new(canon(*value)) }));
        let a0 = seq![0x11u8];
        let a1 = a0 + enc_str(name);
        split_at(d, p, a1, enc(*value));
        split_at(d, p, a0, enc_str(name));
        read_one(d, p, 0x11);
        read_text(d, p + a0.len(), name);
        read_node_back(d, p + a1.len(), *value);
        assert(dec_payload(d, p + 1, d[p]) == dec_assign(d, p + 1));
        assert(dec_node(d, p) == after(1, dec_payload(d, p + 1, d[p])));
    }
}

#[verifier::rlimit(40)]
proof fn back_fn(d: Seq<u8>, p: int, a: Ast)
    requires
        a is Fn,
        stands_at(d, p, enc(a)),
        fits(a),
    ensures
        dec_node(d, p) == Step::Got(canon(a), enc(a).len()),
    decreases a, 0int,
{
    if let Ast::Fn { stateful, name, params, ret, body } = a {
        assert(enc(a) == tag_and_payload(a) && fits(a) == parts_fit(a) && canon(a) == canon_form(a));
        assert(enc(a) == seq![0x20u8] + enc_flag(stateful) + enc_name(name) + enc_counted_params(params) + enc_type(ret) + enc_counted(body));
        assert(name_fits(name) && params_fit(params) && all_fit(body));
        assert(canon(a) == (Ast::Fn { stateful, name, params, ret, body: canon_all(body) }));
        let a0 = seq![0x20u8];
        let a1 = a0 + enc_flag(stateful);
        let a2 = a1 + enc_name(name);
        let a3 = a2 + enc_counted_params(params);
        let a4 = a3 + enc_type(ret);
        split_at(d, p, a4, enc_counted(body));
        split_at(d, p, a3, enc_type(ret));
        split_at(d, p, a2, enc_counted_params(params));
        split_at(d, p, a1, enc_name(name));
        split_at(d, p, a0, enc_flag(stateful));
        read_one(d, p, 0x20);
        read_flag_back(d, p + a0.len(), stateful);
        read_name_back(d, p + a1.len(), name);
        read_counted_params(d, p + a2.len(), params);
        read_type_back(d, p + a3.len(), ret);
        read_counted(d, p + a4.len(), body);
        assert(dec_payload(d, p + 1, d[p]) == dec_fn(d, p + 1));
        assert(dec_node(d, p) == after(1, dec_payload(d, p + 1, d[p])));
    }
}

proof fn back_call(d: Seq<u8>, p: int, a: Ast)
    requires
        a is Call,
        stands_at(d, p, enc(a)),
        fits(a),
    ensures
        dec_node(d, p) == Step::Got(canon(a), enc(a).len()),
    decreases a, 0int,
{
    if let Ast::Call { callee, args } = a {
        assert(enc(a) == tag_and_payload(a) && fits(a) == parts_fit(a) && canon(a) == canon_form(a));
        assert(enc(a) == seq![0x21u8] + enc(*callee) + enc_counted(args));
        assert(fits(*callee) && all_fit(args));
        assert(canon(a) == (Ast::Call { callee: Box::new(canon(*callee)), args: canon_all(args) }));
        let a0 = seq![0x21u8];
        let a1 = a0 + enc(*callee);
        split_at(d, p, a1, enc_counted(args));
        split_at(d, p, a0, enc(*callee));
        read_one(d, p, 0x21);
        read_node_back(d, p + a0.len(), *callee);
        read_counted(d, p + a1.len(), args);
        assert(dec_payload(d, p + 1, d[p]) == dec_call(d, p + 1));
        assert(dec_node(d, p) == after(1, dec_payload(d, p + 1, d[p])));
    }
}

proof fn back_if(d: Seq<u8>, p: int, a: Ast)
    requires
        a is If,
        stands_at(d, p, enc(a)),
        fits(a),
    ensures
        dec_node(d, p) == Step::Got(canon(a), enc(a).len()),
    decreases a, 0int,
{
    if let Ast::If { cond, then_branch, else_branch } = a {
        assert(enc(a) == tag_and_payload(a) && fits(a) == parts_fit(a) && canon(a) == canon_form(a));
        assert(enc(a) == seq![0x30u8] + enc(*cond) + enc(*then_branch) + enc_opt_node(else_branch));
        assert(fits(*cond) && fits(*then_branch) && opt_fits(else_branch));
        assert(canon(a) == (Ast::If { cond: Box::new(canon(*cond)), then_branch: Box::new(canon(*then_branch)), else_branch: canon_opt(else_branch) }));
        let a0 = seq![0x30u8];
        let a1 = a0 + enc(*cond);
        let a2 = a1 + enc(*then_branch);
        split_at(d, p, a2, enc_opt_node(else_branch));
        split_at(d, p, a1, enc(*then_branch));
        split_at(d, p, a0, enc(*cond));
        read_one(d, p, 0x30);
        read_node_back(d, p + a0.len(), *cond);
        read_node_back(d, p + a1.len(), *then_branch);
        read_opt_back(d, p + a2.len(), else_branch);
        assert(dec_payload(d, p + 1, d[p]) == dec_if(d, p + 1));
        assert(dec_node(d, p) == after(1, dec_payload(d, p + 1, d[p])));
    }
}

proof fn back_while(d: Seq<u8>, p: int, a: Ast)
    requires
        a is While,
        stands_at(d, p, enc(a)),
        fits(a),
    ensures
        dec_node(d, p) == Step::Got(canon(a), enc(a).len()),
    decreases a, 0int,
{
    if let Ast::While { cond, body } = a {
        assert(enc(a) == tag_and_payload(a) && fits(a) == parts_fit(a) && canon(a) == canon_form(a));
        assert(enc(a) == seq![0x31u8] + enc(*cond) + enc_counted(body));
        assert(fits(*cond) && all_fit(body));
        assert(canon(a) == (Ast::While { cond: Box::new(canon(*cond)), body: canon_all(body) }));
        let a0 = seq![0x31u8];
        let a1 = a0 + enc(*cond);
        split_at(d, p, a1, enc_counted(body));
        split_at(d, p, a0, enc(*cond));
        read_one(d, p, 0x31);
        read_node_back(d, p + a0.len(), *cond);
        read_counted(d, p + a1.len(), body);
        assert(dec_payload(d, p + 1, d[p]) == dec_while(d, p + 1));
        assert(dec_node(d, p) == after(1, dec_payload(d, p + 1, d[p])));
    }
}

proof fn back_for_each(d: Seq<u8>, p: int, a: Ast)
    requires
        a is ForEach,
        stands_at(d, p, enc(a)),
        fits(a),
    ensures
        dec_node(d, p) == Step::Got(canon(a), enc(a).len()),
    decreases a, 0int,
{
    if let Ast::ForEach { var, iterable, body } = a {
        assert(enc(a) == tag_and_payload(a) && fits(a) == parts_fit(a) && canon(a) == canon_form(a));
        assert(enc(a) == seq![0x32u8] + enc_str(var) + enc(*iterable) + enc_counted(body));
        assert(text_fits(var) && fits(*iterable) && all_fit(body));
        assert(canon(a) == (Ast::ForEach { var, iterable: Box::new(canon(*iterable)), body: canon_all(body) }));
        let a0 = seq![0x32u8];
        let a1 = a0 + enc_str(var);
        let a2 = a1 + enc(*iterable);
        split_at(d, p, a2, enc_counted(body));
        split_at(d, p, a1, enc(*iterable));
        split_at(d, p, a0, enc_str(var));
        read_one(d, p, 0x32);
        read_text(d, p + a0.len(), var);
        read_node_back(d, p + a1.len(), *iterable);
        read_counted(d, p + a2.len(), body);
        assert(dec_payload(d, p + 1, d[p]) == dec_for_each(d, p + 1));
        assert(dec_node(d, p) == after(1, dec_payload(d, p + 1, d[p])));
    }
}

proof fn back_repeat(d: Seq<u8>, p: int, a: Ast)
    requires
        a is Repeat,
        stands_at(d, p, enc(a)),
        fits(a),
    ensures
        dec_node(d, p) == Step::Got(canon(a), enc(a).len()),
    decreases a, 0int,
{
    if let Ast::Repeat { count, body } = a {
        assert(enc(a) == tag_and_payload(a) && fits(a) == parts_fit(a) && canon(a) == canon_form(a));
        assert(enc(a) == seq![0x33u8] + enc(*count) + enc_counted(body));
        assert(fits(*count) && all_fit(body));
        assert(canon(a) == (Ast::Repeat { count: Box::new(canon(*count)), body: canon_all(body) }));
        let a0 = seq![0x33u8];
        let a1 = a0 + enc(*count);
        split_at(d, p, a1, enc_counted(body));
        split_at(d, p, a0, enc(*count));
        read_one(d, p, 0x33);
        read_node_back(d, p + a0.len(), *count);
        read_counted(d, p + a1.len(), body);
        assert(dec_payload(d, p + 1, d[p]) == dec_repeat(d, p + 1));
        assert(dec_node(d, p) == after(1, dec_payload(d, p + 1, d[p])));
    }
}

proof fn back_return(d: Seq<u8>, p: int, a: Ast)
    requires
        a is Return,
        stands_at(d, p, enc(a)),
        fits(a),
    ensures
        dec_node(d, p) == Step::Got(canon(a), enc(a).len()),
    decreases a, 0int,
{
    if let Ast::Return(inner) = a {
        assert(enc(a) == tag_and_payload(a) && fits(a) == parts_fit(a) && canon(a) == canon_form(a));
        assert(enc(a) == seq![0x34u8] + enc(*inner));
        assert(fits(*inner));
        assert(canon(a) == (Ast::Return(Box::new(canon(*inner)))));
        let a0 = seq![0x34u8];
        split_at(d, p, a0, enc(*inner));
        read_one(d, p, 0x34);
        read_node_back(d, p + a0.len(), *inner);
        assert(dec_payload(d, p + 1, d[p]) == dec_return(d, p + 1));
        assert(dec_node(d, p) == after(1, dec_payload(d, p + 1, d[p])));
    }
}

proof fn back_block(d: Seq<u8>, p: int, a: Ast)
    requires
        a is Block,
        stands_at(d, p, enc(a)),
        fits(a),
    ensures
        dec_node(d, p) == Step::Got(canon(a), enc(a).len()),
    decreases a, 0int,
{
    if let Ast::Block(inner) = a {
        assert(enc(a) == tag_and_payload(a) && fits(a) == parts_fit(a) && canon(a) == canon_form(a));
        assert(enc(a) == seq![0x35u8] + enc_counted(inner));
        assert(all_fit(inner));
        assert(canon(a) == (Ast::Block(canon_all(inner))));
        let a0 = seq![0x35u8];
        split_at(d, p, a0, enc_counted(inner));
        read_one(d, p, 0x35);
        read_counted(d, p + a0.len(), inner);
        assert(dec_payload(d, p + 1, d[p]) == dec_block(d, p + 1));
        assert(dec_node(d, p) == after(1, dec_payload(d, p + 1, d[p])));
    }
}

proof fn back_array(d: Seq<u8>, p: int, a: Ast)
    requires
        a is Array,
        stands_at(d, p, enc(a)),
        fits(a),
    ensures
        dec_node(d, p) == Step::Got(canon(a), enc(a).len()),
    decreases a, 0int,
{
    if let Ast::Array(inner) = a {
        assert(enc(a) == tag_and_payload(a) && fits(a) == parts_fit(a) && canon(a) == canon_form(a));
        assert(enc(a) == seq![0x40u8] + enc_counted(inner));
        assert(all_fit(inner));
        assert(canon(a) == (Ast::Array(canon_all(inner))));
        let a0 = seq![0x40u8];
        split_at(d, p, a0, enc_counted(inner));
        read_one(d, p, 0x40);
        read_counted(d, p + a0.len(), inner);
        assert(dec_payload(d, p + 1, d[p]) == dec_array(d, p + 1));
        assert(dec_node(d, p) == after(1, dec_payload(d, p + 1, d[p])));
    }
}

proof fn back_index(d: Seq<u8>, p: int, a: Ast)
    requires
        a is Index,
        stands_at(d, p, enc(a)),
        fits(a),
    ensures
        dec_node(d, p) == Step::Got(canon(a), enc(a).len()),
    decreases a, 0int,
{
    if let Ast::Index { object, index } = a {
        assert(enc(a) == tag_and_payload(a) && fits(a) == parts_fit(a) && canon(a) == canon_form(a));
        assert(enc(a) == seq![0x41u8] + enc(*object) + enc(*index));
        assert(fits(*object) && fits(*index));
        assert(canon(a) == (Ast::Index { object: Box::new(canon(*object)), index: Box::new(canon(*index)) }));
        let a0 = seq![0x41u8];
        let a1 = a0 + enc(*object);
        split_at(d, p, a1, enc(*index));
        split_at(d, p, a0, enc(*object));
        read_one(d, p, 0x41);
        read_node_back(d, p + a0.len(), *object);
        read_node_back(d, p + a1.len(), *index);
        assert(dec_payload(d, p + 1, d[p]) == dec_index(d, p + 1));
        assert(dec_node(d, p) == after(1, dec_payload(d, p + 1, d[p])));
    }
}

proof fn back_range(d: Seq<u8>, p: int, a: Ast)
    requires
        a is Range,
        stands_at(d, p, enc(a)),
        fits(a),
    ensures
        dec_node(d, p) == Step::Got(canon(a), enc(a).len()),
    decreases a, 0int,
{
    if let Ast::Range { start, end } = a {
        assert(enc(a) == tag_and_payload(a) && fits(a) == parts_fit(a) && canon(a) == canon_form(a));
        assert(enc(a) == seq![0x42u8] + enc(*start) + enc(*end));
        assert(fits(*start) && fits(*end));
        assert(canon(a) == (Ast::Range { start: Box::new(canon(*start)), end: Box::new(canon(*end)) }));
        let a0 = seq![0x42u8];
        let a1 = a0 + enc(*start);
        split_at(d, p, a1, enc(*end));
        split_at(d, p, a0, enc(*start));
        read_one(d, p, 0x42);
        read_node_back(d, p + a0.len(), *start);
        read_node_back(d, p + a1.len(), *end);
        assert(dec_payload(d, p + 1, d[p]) == dec_range(d, p + 1));
        assert(dec_node(d, p) == after(1, dec_payload(d, p + 1, d[p])));
    }
}

proof fn back_op(d: Seq<u8>, p: int, a: Ast)
    requires
        a is Op,
        stands_at(d, p, enc(a)),
        fits(a),
    ensures
        dec_node(d, p) == Step::Got(canon(a), enc(a).len()),
    decreases a, 0int,
{
    if let Ast::Op { op, args } = a {
        assert(enc(a) == tag_and_payload(a) && fits(a) == parts_fit(a) && canon(a) == canon_form(a));
        assert(enc(a) == seq![0x50u8] + seq![op_kind_code(op)] + enc_counted(args));
        assert(all_fit(args));
        assert(canon(a) == (Ast::Op { op, args: canon_all(args) }));
        let a0 = seq![0x50u8];
        let a1 = a0 + seq![op_kind_code(op)];
        split_at(d, p, a1, enc_counted(args));
        split_at(d, p, a0, seq![op_kind_code(op)]);
        read_one(d, p, 0x50);
        read_one(d, p + a0.len(), op_kind_code(op));
        read_counted(d, p + a1.len(), args);
        assert(dec_payload(d, p + 1, d[p]) == dec_op(d, p + 1));
        assert(dec_node(d, p) == after(1, dec_payload(d, p + 1, d[p])));
    }
}

#[verifier::spinoff_prover]
#[verifier::rlimit(40)]
proof fn back_pipe(d: Seq<u8>, p: int, a: Ast)
    requires
        a is Pipe,
        stands_at(d, p, enc(a)),
        fits(a),
    ensures
        dec_node(d, p) == Step::Got(canon(a), enc(a).len()),
    decreases a, 0int,
{
    if let Ast::Pipe { kind, data, func, init } = a {
        assert(enc(a) == tag_and_payload(a) && fits(a) == parts_fit(a) && canon(a) == canon_form(a));
        assert(enc(a) == seq![0x60u8] + seq![pipe_kind_code(kind)] + enc(*data) + enc(*func) + enc_opt_node(init));
        assert(fits(*data) && fits(*func) && opt_fits(init));
        assert(canon(a) == (Ast::Pipe { kind, data: Box::new(canon(*data)), func: Box::new(canon(*func)), init: canon_opt(init) }));
        let a0 = seq![0x60u8];
        let a1 = a0 + seq![pipe_kind_code(kind)];
        let a2 = a1 + enc(*data);
        let a3 = a2 + enc(*func);
        split_at(d, p, a3, enc_opt_node(init));
        split_at(d, p, a2, enc(*func));
        split_at(d, p, a1, enc(*data));
        split_at(d, p, a0, seq![pipe_kind_code(kind)]);
        read_one(d, p, 0x60);
        read_one(d, p + a0.len(), pipe_kind_code(kind));
        read_node_back(d, p + a1.len(), *data);
        read_node_back(d, p + a2.len(), *func);
        read_opt_back(d, p + a3.len(), init);
        assert(dec_payload(d, p + 1, d[p]) == dec_pipe(d, p + 1));
        assert(dec_node(d, p) == after(1, dec_payload(d, p + 1, d[p])));
    }
}

proof fn back_adapt(d: Seq<u8>, p: int, a: Ast)
    requires
        a is Adapt,
        stands_at(d, p, enc(a)),
        fits(a),
    ensures
        dec_node(d, p) == Step::Got(canon(a), enc(a).len()),
    decreases a, 0int,
{
    if let Ast::Adapt { target, body } = a {
        assert(enc(a) == tag_and_payload(a) && fits(a) == parts_fit(a) && canon(a) == canon_form(a));
        assert(enc(a) == seq![0x70u8] + enc_str(target) + enc_counted(body));
        assert(text_fits(target) && all_fit(body));
        assert(canon(a) == (Ast::Adapt { target, body: canon_all(body) }));
        let a0 = seq![0x70u8];
        let a1 = a0 + enc_str(target);
        split_at(d, p, a1, enc_counted(body));
        split_at(d, p, a0, enc_str(target));
        read_one(d, p, 0x70);
        read_text(d, p + a0.len(), target);
        read_counted(d, p + a1.len(), body);
        assert(dec_payload(d, p + 1, d[p]) == dec_adapt(d, p + 1));
        assert(dec_node(d, p) == after(1, dec_payload(d, p + 1, d[p])));
    }
}

/// Three nodes in a row are a list of three.
proof fn three_nodes(d: Seq<u8>, q: int, x: Ast, y: Ast, z: Ast)
    requires
        dec_node(d, q) is Got,
        dec_node(d, q)->Got_0 == x,
        dec_node(d, q + dec_node(d, q)->Got_1) is Got,
        dec_node(d, q + dec_node(d, q)->Got_1)->Got_0 == y,
        dec_node(
            d,
            q + dec_node(d, q)->Got_1 + dec_node(d, q + dec_node(d, q)->Got_1)->Got_1,
        ) is Got,
        dec_node(
            d,
            q + dec_node(d, q)->Got_1 + dec_node(d, q + dec_node(d, q)->Got_1)->Got_1,
        )->Got_0 == z,
    ensures
        ({
            let u1 = dec_node(d, q)->Got_1;
            let u2 = dec_node(d, q + u1)->Got_1;
            let u3 = dec_node(d, q + u1 + u2)->Got_1;
            dec_nodes(d, q, 3) == Step::Got(seq![x, y, z], u1 + u2 + u3)
        }),
{
    let u1 = dec_node(d, q)->Got_1;
    let u2 = dec_node(d, q + u1)->Got_1;
    assert(dec_nodes(d, q, 0) == Step::Got(Seq::<Ast>::empty(), 0));
    assert(dec_nodes(d, q, 1) == Step::Got(Seq::<Ast>::empty().push(x), u1));
    assert(dec_nodes(d, q, 2) == Step::Got(Seq::<Ast>::empty().push(x).push(y), u1 + u2));
    assert(Seq::<Ast>::empty().push(x).push(y).push(z) == seq![x, y, z]);
}

proof fn back_choice(d: Seq<u8>, p: int, a: Ast)
    requires
        a is Choice,
        stands_at(d, p, enc(a)),
        fits(a),
    ensures
        dec_node(d, p) == Step::Got(canon(a), enc(a).len()),
    decreases a, 0int,
{
    if let Ast::Choice { options } = a {
        assert(enc(a) == tag_and_payload(a) && fits(a) == parts_fit(a) && canon(a) == canon_form(a));
        assert(enc(a) == seq![0x80u8] + enc_str("choice"@) + enc_counted(options));
        assert(all_fit(options));
        assert(canon(a) == (Ast::Builtin { name: "choice"@, args: canon_all(options) }));
        literal_names_fit();
        read_call_of(d, p, "choice"@, options);
    }
}

#[verifier::rlimit(40)]
proof fn back_guard(d: Seq<u8>, p: int, a: Ast)
    requires
        a is Guard,
        stands_at(d, p, enc(a)),
        fits(a),
    ensures
        dec_node(d, p) == Step::Got(canon(a), enc(a).len()),
    decreases a, 0int,
{
    if let Ast::Guard { assumption, fast_path, fallback } = a {
        assert(enc(a) == tag_and_payload(a) && fits(a) == parts_fit(a) && canon(a) == canon_form(a));
        assert(enc(a) == seq![0x80u8] + enc_str("guard"@) + le32(3) + enc(*assumption) + enc(
            *fast_path,
        ) + enc(*fallback));
        assert(fits(*assumption) && fits(*fast_path) && fits(*fallback));
        assert(canon(a) == (Ast::Builtin {
            name: "guard"@,
            args: seq![canon(*assumption), canon(*fast_path), canon(*fallback)],
        }));
        literal_names_fit();
        read_guard(d, p, *assumption, *fast_path, *fallback);
        let a3 = seq![0x80u8] + enc_str("guard"@) + le32(3);
        let a4 = a3 + enc(*assumption);
        let a5 = a4 + enc(*fast_path);
        read_node_back(d, p + a3.len(), *assumption);
        read_node_back(d, p + a4.len(), *fast_path);
        read_node_back(d, p + a5.len(), *fallback);
        three_nodes(d, p + a3.len(), canon(*assumption), canon(*fast_path), canon(*fallback));
        assert(dec_payload(d, p + 1, d[p]) == dec_builtin(d, p + 1));
        assert(dec_node(d, p) == after(1, dec_payload(d, p + 1, d[p])));
    }
}

proof fn back_strategy(d: Seq<u8>, p: int, a: Ast)
    requires
        a is Strategy,
        stands_at(d, p, enc(a)),
        fits(a),
    ensures
        dec_node(d, p) == Step::Got(canon(a), enc(a).len()),
    decreases a, 0int,
{
    if let Ast::Strategy { options } = a {
        assert(enc(a) == tag_and_payload(a) && fits(a) == parts_fit(a) && canon(a) == canon_form(a));
        assert(enc(a) == seq![0x80u8] + enc_str("strategy"@) + enc_counted(options));
        assert(all_fit(options));
        assert(canon(a) == (Ast::Builtin { name: "strategy"@, args: canon_all(options) }));
        literal_names_fit();
        read_call_of(d, p, "strategy"@, options);
    }
}

proof fn back_feedback(d: Seq<u8>, p: int, a: Ast)
    requires
        a is Feedback,
        stands_at(d, p, enc(a)),
        fits(a),
    ensures
        dec_node(d, p) == Step::Got(canon(a), enc(a).len()),
    decreases a, 0int,
{
    if let Ast::Feedback { target, reward } = a {
        assert(enc(a) == tag_and_payload(a) && fits(a) == parts_fit(a) && canon(a) == canon_form(a));
        assert(enc(a) == seq![0x80u8] + enc_str("feedback"@) + le32(2) + enc(*target) + enc(
            *reward,
        ));
        assert(fits(*target) && fits(*reward));
        assert(canon(a) == (Ast::Builtin {
            name: "feedback"@,
            args: seq![canon(*target), canon(*reward)],
        }));
        literal_names_fit();
        read_feedback(d, p, *target, *reward);
        let a3 = seq![0x80u8] + enc_str("feedback"@) + le32(2);
        let a4 = a3 + enc(*target);
        read_node_back(d, p + a3.len(), *target);
        read_node_back(d, p + a4.len(), *reward);
        reveal_with_fuel(dec_nodes, 3);
        assert(Seq::<Ast>::empty().push(canon(*target)).push(canon(*reward)) == seq![
            canon(*target),
            canon(*reward),
        ]);
        assert(dec_payload(d, p + 1, d[p]) == dec_builtin(d, p + 1));
        assert(dec_node(d, p) == after(1, dec_payload(d, p + 1, d[p])));
    }
}

/// A node is read back from its bytes.
pub(crate) proof fn read_node_back(d: Seq<u8>, p: int, a: Ast)
    requires
        stands_at(d, p, enc(a)),
        fits(a),
    ensures
        dec_node(d, p) == Step::Got(canon(a), enc(a).len()),
    decreases a, 1int,
{
    match a {
        Ast::Int(_) => back_int(d, p, a),
        Ast::Float(_) => back_float(d, p, a),
        Ast::Str(_) => back_str(d, p, a),
        Ast::Bool(_) => back_bool(d, p, a),
        Ast::Null => {
            assert(enc(a) == tag_and_payload(a) && canon(a) == canon_form(a));
            read_one(d, p, 0x05);
            assert(dec_node(d, p) == after(1, dec_payload(d, p + 1, d[p])));
        },
        Ast::Ident(_) => back_ident(d, p, a),
        Ast::Bind { .. } => back_bind(d, p, a),
        Ast::Assign { .. } => back_assign(d, p, a),
        Ast::Fn { .. } => back_fn(d, p, a),
        Ast::Call { .. } => back_call(d, p, a),
        Ast::If { .. } => back_if(d, p, a),
        Ast::While { .. } => back_while(d, p, a),
        Ast::ForEach { .. } => back_for_each(d, p, a),
        Ast::Repeat { .. } => back_repeat(d, p, a),
        Ast::Return(_) => back_return(d, p, a),
        Ast::Block(_) => back_block(d, p, a),
        Ast::Array(_) => back_array(d, p, a),
        Ast::Index { .. } => back_index(d, p, a),
        Ast::Range { .. } => back_range(d, p, a),
        Ast::Op { .. } => back_op(d, p, a),
        Ast::Pipe { .. } => back_pipe(d, p, a),
        Ast::Adapt { .. } => back_adapt(d, p, a),
        Ast::Builtin { name, args } => {
            assert(enc(a) == tag_and_payload(a) && fits(a) == parts_fit(a) && canon(a)
                == canon_form(a));
            assert(enc(a) == seq![0x80u8] + enc_str(name) + enc_counted(args));
            assert(text_fits(name) && all_fit(args));
            assert(canon(a) == (Ast::Builtin { name, args: canon_all(args) }));
            read_call_of(d, p, name, args);
        },
        Ast::Choice { .. } => back_choice(d, p, a),
        Ast::Guard { .. } => back_guard(d, p, a),
        Ast::Strategy { .. } => back_strategy(d, p, a),
        Ast::Feedback { .. } => back_feedback(d, p, a),
    }
}

proof fn read_builtin_head(d: Seq<u8>, p: int, name: Seq<char>, n: u32)
    requires
        stands_at(d, p, seq![0x80u8] + enc_str(name) + le32(n)),
        text_fits(name),
    ensures
        p < d.len(),
        d[p] == 0x80,
        take_str(d, p + 1) == Step::Got(name, enc_str(name).len()),
        take_u32(d, p + 1 + enc_str(name).len()) == Step::Got(n, 4),
        (seq![0x80u8] + enc_str(name) + le32(n)).len() == 5 + enc_str(name).len(),
{
    let a1 = seq![0x80u8];
    let a2 = a1 + enc_str(name);
    split_at(d, p, a2, le32(n));
    split_at(d, p, a1, enc_str(name));
    read_one(d, p, 0x80);
    read_text(d, p + 1, name);
    read_count(d, p + a2.len(), n);
}

proof fn read_guard(d: Seq<u8>, p: int, x: Ast, y: Ast, z: Ast)
    requires
        text_fits("guard"@),
        stands_at(
            d,
            p,
            seq![0x80u8] + enc_str("guard"@) + le32(3) + enc(x) + enc(y) + enc(z),
        ),
    ensures
        p < d.len(),
        d[p] == 0x80,
        take_str(d, p + 1) == Step::Got("guard"@, enc_str("guard"@).len()),
        take_u32(d, p + 1 + enc_str("guard"@).len()) == Step::Got(3u32, 4),
        ({
            let a3 = seq![0x80u8] + enc_str("guard"@) + le32(3);
            let a4 = a3 + enc(x);
            let a5 = a4 + enc(y);
            &&& a3.len() == 5 + enc_str("guard"@).len()
            &&& stands_at(d, p + a3.len(), enc(x))
            &&& stands_at(d, p + a4.len(), enc(y))
            &&& stands_at(d, p + a5.len(), enc(z))
        }),
{
    let a3 = seq![0x80u8] + enc_str("guard"@) + le32(3);
    let a4 = a3 + enc(x);
    let a5 = a4 + enc(y);
    split_at(d, p, a5, enc(z));
    split_at(d, p, a4, enc(y));
    split_at(d, p, a3, enc(x));
    read_builtin_head(d, p, "guard"@, 3);
}

proof fn read_feedback(d: Seq<u8>, p: int, x: Ast, y: Ast)
    requires
        text_fits("feedback"@),
        stands_at(d, p, seq![0x80u8] + enc_str("feedback"@) + le32(2) + enc(x) + enc(y)),
    ensures
        p < d.len(),
        d[p] == 0x80,
        take_str(d, p + 1) == Step::Got("feedback"@, enc_str("feedback"@).len()),
        take_u32(d, p + 1 + enc_str("feedback"@).len()) == Step::Got(2u32, 4),
        ({
            let a3 = seq![0x80u8] + enc_str("feedback"@) + le32(2);
            let a4 = a3 + enc(x);
            &&& a3.len() == 5 + enc_str("feedback"@).len()
            &&& stands_at(d, p + a3.len(), enc(x))
            &&& stands_at(d, p + a4.len(), enc(y))
        }),
{
    let a3 = seq![0x80u8] + enc_str("feedback"@) + le32(2);
    let a4 = a3 + enc(x);
    split_at(d, p, a4, enc(y));
    split_at(d, p, a3, enc(x));
    read_builtin_head(d, p, "feedback"@, 2);
}

/// Reading the bytes of a program gives the program back, with choices,
/// guards, strategies and feedback as the builtins that they are written as.
pub proof fn program_round_trip(nodes: Seq<Ast>)
    requires
        all_fit(nodes),
    ensures
        dec_program(enc_program(nodes)) == Step::Got(
            canon_all(nodes),
            enc_program(nodes).len(),
        ),
{
    let d = enc_program(nodes);
    let a1 = magic() + seq![VERSION];
    assert(d.subrange(0, d.len() as int) == d);
    split_at(d, 0, a1, enc_counted(nodes));
    split_at(d, 0, magic(), seq![VERSION]);
    read_one(d, 6, VERSION);
    read_counted(d, 7, nodes);
    le_lengths(0, nodes.len() as u32);
}

} // verus!
