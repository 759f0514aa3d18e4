//! The tree form of a program as bytes.
//!
//! A file is `LYCAN\0`, a version byte, a node count and the nodes. Each node
//! is a tag byte and its payload.
use crate::ast::{Ast, Node, OpKind, Param, ParamView, PipeKind, Program, Type, ast, asts, asts_push, opt_text, param_views};
use crate::bytes::{cat_assoc, copy_range, from_le32, from_le64, get_u32, get_u64, le32, le64, write_bytes, write_i64, write_u32, write_u64};
use crate::error::{LycanResult, runtime_error};
use crate::number::Real;
use crate::text::{dec_nat, hex_byte_upper, labelled, labelled_hex, lossy, lossy_text};
use vstd::prelude::*;
use vstd::string::StringExecFns;
use vstd::utf8::*;

verus! {

pub const VERSION: u8 = 1;

/// The six bytes that every file starts with.
pub open spec fn magic() -> Seq<u8> {
    seq![0x4Cu8, 0x59u8, 0x43u8, 0x41u8, 0x4Eu8, 0x00u8]
}

// ---- The bytes of a program ----

/// A text: the length of its UTF-8 form, then that form.
pub open spec fn enc_str(s: Seq<char>) -> Seq<u8> {
    le32(encode_utf8(s).len() as u32) + encode_utf8(s)
}

pub open spec fn enc_flag(b: bool) -> Seq<u8> {
    if b {
        seq![1u8]
    } else {
        seq![0u8]
    }
}

pub open spec fn enc_ty(t: Type) -> Seq<u8>
    decreases t,
{
    match t {
        Type::Int => seq![1u8],
        Type::Float => seq![2u8],
        Type::Str => seq![3u8],
        Type::Bool => seq![4u8],
        Type::Null => seq![5u8],
        Type::Array(inner) => seq![6u8] + enc_ty(*inner),
    }
}

pub open spec fn enc_type(t: Option<Type>) -> Seq<u8> {
    match t {
        None => seq![0u8],
        Some(t) => enc_ty(t),
    }
}

pub open spec fn enc_name(s: Option<Seq<char>>) -> Seq<u8> {
    match s {
        Some(n) => seq![1u8] + enc_str(n),
        None => seq![0u8],
    }
}

pub open spec fn enc_params(s: Seq<ParamView>) -> Seq<u8>
    decreases s.len(),
{
    if s.len() == 0 {
        Seq::empty()
    } else {
        enc_params(s.drop_last()) + (enc_str(s.last().name) + enc_type(s.last().ty))
    }
}

pub open spec fn enc_counted_params(s: Seq<ParamView>) -> Seq<u8> {
    le32(s.len() as u32) + enc_params(s)
}

pub open spec fn op_kind_code(op: OpKind) -> u8 {
    match op {
        OpKind::Add => 0,
        OpKind::Sub => 1,
        OpKind::Mul => 2,
        OpKind::Div => 3,
        OpKind::Mod => 4,
        OpKind::Eq => 5,
        OpKind::Neq => 6,
        OpKind::Lt => 7,
        OpKind::Gt => 8,
        OpKind::Lte => 9,
        OpKind::Gte => 10,
        OpKind::And => 11,
        OpKind::Or => 12,
        OpKind::Not => 13,
        OpKind::Neg => 14,
    }
}

pub open spec fn op_kind_of(b: u8) -> Option<OpKind> {
    if b == 0 {
        Some(OpKind::Add)
    } else if b == 1 {
        Some(OpKind::Sub)
    } else if b == 2 {
        Some(OpKind::Mul)
    } else if b == 3 {
        Some(OpKind::Div)
    } else if b == 4 {
        Some(OpKind::Mod)
    } else if b == 5 {
        Some(OpKind::Eq)
    } else if b == 6 {
        Some(OpKind::Neq)
    } else if b == 7 {
        Some(OpKind::Lt)
    } else if b == 8 {
        Some(OpKind::Gt)
    } else if b == 9 {
        Some(OpKind::Lte)
    } else if b == 10 {
        Some(OpKind::Gte)
    } else if b == 11 {
        Some(OpKind::And)
    } else if b == 12 {
        Some(OpKind::Or)
    } else if b == 13 {
        Some(OpKind::Not)
    } else if b == 14 {
        Some(OpKind::Neg)
    } else {
        None
    }
}

pub open spec fn pipe_kind_code(k: PipeKind) -> u8 {
    match k {
        PipeKind::Pipe => 0,
        PipeKind::Filter => 1,
        PipeKind::MapEach => 2,
        PipeKind::Reduce => 3,
    }
}

pub open spec fn pipe_kind_of(b: u8) -> Option<PipeKind> {
    if b == 0 {
        Some(PipeKind::Pipe)
    } else if b == 1 {
        Some(PipeKind::Filter)
    } else if b == 2 {
        Some(PipeKind::MapEach)
    } else if b == 3 {
        Some(PipeKind::Reduce)
    } else {
        None
    }
}

/// A list of nodes: their count, then each of them.
pub open spec fn enc_counted(s: Seq<Ast>) -> Seq<u8>
    decreases s, 1int,
{
    le32(s.len() as u32) + enc_all(s)
}

pub open spec fn enc_all(s: Seq<Ast>) -> Seq<u8>
    decreases s, 0int,
{
    if s.len() == 0 {
        Seq::empty()
    } else {
        enc_all(s.drop_last()) + enc(s.last())
    }
}

pub open spec fn enc_opt_node(n: Option<Box<Ast>>) -> Seq<u8>
    decreases n, 0int,
{
    match n {
        Some(e) => seq![1u8] + enc(*e),
        None => seq![0u8],
    }
}

/// The bytes of one node: its tag and its payload.
pub open spec fn enc(a: Ast) -> Seq<u8>
    decreases a, 1int,
{
    tag_and_payload(a)
}

/// Choices, guards, strategies and feedback are written as calls of the
/// builtins of those names.
pub open spec fn tag_and_payload(a: Ast) -> Seq<u8>
    decreases a, 0int,
{
    match a {
        Ast::Int(n) => seq![0x01u8] + le64(n as u64),
        Ast::Float(f) => seq![0x02u8] + le64(f.bits),
        Ast::Str(s) => seq![0x03u8] + enc_str(s),
        Ast::Bool(b) => seq![0x04u8] + enc_flag(b),
        Ast::Null => seq![0x05u8],
        Ast::Ident(s) => seq![0x06u8] + enc_str(s),
        Ast::Bind { name, mutable, ty, value } => seq![0x10u8] + enc_str(name) + enc_flag(mutable) + enc_type(ty) + enc(*value),
        Ast::Assign { name, value } => seq![0x11u8] + enc_str(name) + enc(*value),
        Ast::Fn { stateful, name, params, ret, body } => seq![0x20u8] + enc_flag(stateful) + enc_name(name) + enc_counted_params(params) + enc_type(ret) + enc_counted(body),
        Ast::Call { callee, args } => seq![0x21u8] + enc(*callee) + enc_counted(args),
        Ast::If { cond, then_branch, else_branch } => seq![0x30u8] + enc(*cond) + enc(*then_branch) + enc_opt_node(else_branch),
        Ast::While { cond, body } => seq![0x31u8] + enc(*cond) + enc_counted(body),
        Ast::ForEach { var, iterable, body } => seq![0x32u8] + enc_str(var) + enc(*iterable) + enc_counted(body),
        Ast::Repeat { count, body } => seq![0x33u8] + enc(*count) + enc_counted(body),
        Ast::Return(inner) => seq![0x34u8] + enc(*inner),
        Ast::Block(inner) => seq![0x35u8] + enc_counted(inner),
        Ast::Array(inner) => seq![0x40u8] + enc_counted(inner),
        Ast::Index { object, index } => seq![0x41u8] + enc(*object) + enc(*index),
        Ast::Range { start, end } => seq![0x42u8] + enc(*start) + enc(*end),
        Ast::Op { op, args } => seq![0x50u8] + seq![op_kind_code(op)] + enc_counted(args),
        Ast::Pipe { kind, data, func, init } => seq![0x60u8] + seq![pipe_kind_code(kind)] + enc(*data) + enc(*func) + enc_opt_node(init),
        Ast::Adapt { target, body } => seq![0x70u8] + enc_str(target) + enc_counted(body),
        Ast::Builtin { name, args } => seq![0x80u8] + enc_str(name) + enc_counted(args),
        Ast::Choice { options } => seq![0x80u8] + enc_str("choice"@) + enc_counted(options),
        Ast::Guard { assumption, fast_path, fallback } => seq![0x80u8] + enc_str("guard"@) + le32(3)
            + enc(*assumption) + enc(*fast_path) + enc(*fallback),
        Ast::Strategy { options } => seq![0x80u8] + enc_str("strategy"@) + enc_counted(options),
        Ast::Feedback { target, reward } => seq![0x80u8] + enc_str("feedback"@) + le32(2) + enc(
            *target,
        ) + enc(*reward),
    }
}

/// The bytes of a program.
pub open spec fn enc_program(nodes: Seq<Ast>) -> Seq<u8> {
    magic() + seq![VERSION] + enc_counted(nodes)
}

// ---- What bytes stand for ----

/// What reading gives: a value and how many bytes it took, a failure with its
/// message, or the end of the bytes in the middle of a value.
pub enum Step<T> {
    Got(T, nat),
    Failed(Seq<char>),
    Cut,
}

/// How many bytes are left behind `p`.
pub open spec fn rem(d: Seq<u8>, p: int) -> nat {
    if p <= d.len() {
        (d.len() - p) as nat
    } else {
        0
    }
}

/// The same reading with `k` more bytes in front.
pub open spec fn after<T>(k: nat, s: Step<T>) -> Step<T> {
    match s {
        Step::Got(x, u) => Step::Got(x, u + k),
        Step::Failed(e) => Step::Failed(e),
        Step::Cut => Step::Cut,
    }
}

pub open spec fn take_flag(d: Seq<u8>, p: int) -> Step<bool> {
    if p < d.len() {
        Step::Got(d[p] != 0, 1)
    } else {
        Step::Cut
    }
}

pub open spec fn take_u32(d: Seq<u8>, p: int) -> Step<u32> {
    if p + 4 <= d.len() {
        Step::Got(from_le32(d, p), 4)
    } else {
        Step::Cut
    }
}

pub open spec fn take_int(d: Seq<u8>, p: int) -> Step<Ast> {
    if p + 8 <= d.len() {
        Step::Got(Ast::Int(from_le64(d, p) as i64), 8)
    } else {
        Step::Cut
    }
}

pub open spec fn take_real(d: Seq<u8>, p: int) -> Step<Ast> {
    if p + 8 <= d.len() {
        Step::Got(Ast::Float(Real { bits: from_le64(d, p) }), 8)
    } else {
        Step::Cut
    }
}

pub open spec fn take_str(d: Seq<u8>, p: int) -> Step<Seq<char>> {
    match take_u32(d, p) {
        Step::Got(n, _) => if p + 4 + n <= d.len() {
            Step::Got(lossy_text(d.subrange(p + 4, p + 4 + n)), (4 + n) as nat)
        } else {
            Step::Cut
        },
        _ => Step::Cut,
    }
}

pub open spec fn take_name(d: Seq<u8>, p: int) -> Step<Option<Seq<char>>> {
    match take_flag(d, p) {
        Step::Got(true, _) => match take_str(d, p + 1) {
            Step::Got(s, u) => Step::Got(Some(s), u + 1),
            _ => Step::Cut,
        },
        Step::Got(false, _) => Step::Got(None, 1),
        _ => Step::Cut,
    }
}

/// A type; an array of nothing known is an array of integers, and an unknown
/// tag is no type.
pub open spec fn take_type(d: Seq<u8>, p: int) -> Step<Option<Type>>
    decreases rem(d, p),
{
    if p < d.len() {
        let tag = d[p];
        if tag == 6 {
            match take_type(d, p + 1) {
                Step::Got(inner, u) => {
                    let item = match inner {
                        Some(t) => t,
                        None => Type::Int,
                    };
                    Step::Got(Some(Type::Array(Box::new(item))), u + 1)
                },
                _ => Step::Cut,
            }
        } else {
            Step::Got(plain_type(tag), 1)
        }
    } else {
        Step::Cut
    }
}

pub open spec fn plain_type(tag: u8) -> Option<Type> {
    if tag == 1 {
        Some(Type::Int)
    } else if tag == 2 {
        Some(Type::Float)
    } else if tag == 3 {
        Some(Type::Str)
    } else if tag == 4 {
        Some(Type::Bool)
    } else if tag == 5 {
        Some(Type::Null)
    } else {
        None
    }
}

pub open spec fn take_params(d: Seq<u8>, p: int, n: nat) -> Step<Seq<ParamView>>
    decreases n,
{
    if n == 0 {
        Step::Got(Seq::empty(), 0)
    } else {
        match take_params(d, p, (n - 1) as nat) {
            Step::Got(params, u1) => match take_str(d, p + u1) {
                Step::Got(name, u2) => match take_type(d, p + u1 + u2) {
                    Step::Got(ty, u3) => Step::Got(
                        params.push(ParamView { name, ty }),
                        u1 + u2 + u3,
                    ),
                    _ => Step::Cut,
                },
                _ => Step::Cut,
            },
            _ => Step::Cut,
        }
    }
}

pub open spec fn take_counted_params(d: Seq<u8>, p: int) -> Step<Seq<ParamView>> {
    match take_u32(d, p) {
        Step::Got(n, _) => after(4, take_params(d, p + 4, n as nat)),
        _ => Step::Cut,
    }
}

pub open spec fn take_op_kind(d: Seq<u8>, p: int) -> Step<OpKind> {
    if p < d.len() {
        match op_kind_of(d[p]) {
            Some(op) => Step::Got(op, 1),
            None => Step::Failed("unknown op byte "@ + dec_nat(d[p] as nat)),
        }
    } else {
        Step::Cut
    }
}

pub open spec fn take_pipe_kind(d: Seq<u8>, p: int) -> Step<PipeKind> {
    if p < d.len() {
        match pipe_kind_of(d[p]) {
            Some(k) => Step::Got(k, 1),
            None => Step::Failed("unknown pipe byte "@ + dec_nat(d[p] as nat)),
        }
    } else {
        Step::Cut
    }
}

/// `n` nodes, one after the other.
pub open spec fn dec_nodes(d: Seq<u8>, p: int, n: nat) -> Step<Seq<Ast>>
    decreases rem(d, p), 1int, n,
{
    if n == 0 {
        Step::Got(Seq::empty(), 0)
    } else {
        match dec_nodes(d, p, (n - 1) as nat) {
            Step::Got(nodes, u1) => match dec_node(d, p + u1) {
                Step::Got(a, u2) => Step::Got(nodes.push(a), u1 + u2),
                Step::Failed(e) => Step::Failed(e),
                Step::Cut => Step::Cut,
            },
            Step::Failed(e) => Step::Failed(e),
            Step::Cut => Step::Cut,
        }
    }
}

/// A count and that many nodes.
pub open spec fn dec_counted(d: Seq<u8>, p: int) -> Step<Seq<Ast>>
    decreases rem(d, p), 2int, 0nat,
{
    match take_u32(d, p) {
        Step::Got(n, _) => after(4, dec_nodes(d, p + 4, n as nat)),
        _ => Step::Cut,
    }
}

/// A flag and, where it is set, a node.
pub open spec fn dec_opt_node(d: Seq<u8>, p: int) -> Step<Option<Box<Ast>>>
    decreases rem(d, p), 2int, 0nat,
{
    match take_flag(d, p) {
        Step::Got(true, _) => match dec_node(d, p + 1) {
            Step::Got(a, u) => Step::Got(Some(Box::new(a)), u + 1),
            Step::Failed(e) => Step::Failed(e),
            Step::Cut => Step::Cut,
        },
        Step::Got(false, _) => Step::Got(None, 1),
        _ => Step::Cut,
    }
}

pub open spec fn dec_bind(d: Seq<u8>, p: int) -> Step<Ast>
    decreases rem(d, p), 3int, 0nat,
{
    match take_str(d, p) {
        Step::Got(name, u1) => {
            match take_flag(d, p + u1) {
                Step::Got(mutable, u2) => {
                    match take_type(d, p + u1 + u2) {
                        Step::Got(ty, u3) => {
                            match dec_node(d, p + u1 + u2 + u3) {
                                Step::Got(value, u4) => {
                                    Step::Got(Ast::Bind { name, mutable, ty, value: Box::new(value) }, u1 + u2 + u3 + u4)
                                },
                                Step::Failed(e) => Step::Failed(e),
                                Step::Cut => Step::Cut,
                            }
                        },
                        _ => Step::Cut,
                    }
                },
                _ => Step::Cut,
            }
        },
        _ => Step::Cut,
    }
}

pub open spec fn dec_assign(d: Seq<u8>, p: int) -> Step<Ast>
    decreases rem(d, p), 3int, 0nat,
{
    match take_str(d, p) {
        Step::Got(name, u1) => {
            match dec_node(d, p + u1) {
                Step::Got(value, u2) => {
                    Step::Got(Ast::Assign { name, value: Box::new(value) }, u1 + u2)
                },
                Step::Failed(e) => Step::Failed(e),
                Step::Cut => Step::Cut,
            }
        },
        _ => Step::Cut,
    }
}

pub open spec fn dec_fn(d: Seq<u8>, p: int) -> Step<Ast>
    decreases rem(d, p), 3int, 0nat,
{
    match take_flag(d, p) {
        Step::Got(stateful, u1) => {
            match take_name(d, p + u1) {
                Step::Got(name, u2) => {
                    match take_counted_params(d, p + u1 + u2) {
                        Step::Got(params, u3) => {
                            match take_type(d, p + u1 + u2 + u3) {
                                Step::Got(ret, u4) => {
                                    match dec_counted(d, p + u1 + u2 + u3 + u4) {
                                        Step::Got(body, u5) => {
                                            Step::Got(Ast::Fn { stateful, name, params, ret, body }, u1 + u2 + u3 + u4 + u5)
                                        },
                                        Step::Failed(e) => Step::Failed(e),
                                        Step::Cut => Step::Cut,
                                    }
                                },
                                _ => Step::Cut,
                            }
                        },
                        _ => Step::Cut,
                    }
                },
                _ => Step::Cut,
            }
        },
        _ => Step::Cut,
    }
}

pub open spec fn dec_call(d: Seq<u8>, p: int) -> Step<Ast>
    decreases rem(d, p), 3int, 0nat,
{
    match dec_node(d, p) {
        Step::Got(callee, u1) => {
            match dec_counted(d, p + u1) {
                Step::Got(args, u2) => {
                    Step::Got(Ast::Call { callee: Box::new(callee), args }, u1 + u2)
                },
                Step::Failed(e) => Step::Failed(e),
                Step::Cut => Step::Cut,
            }
        },
        Step::Failed(e) => Step::Failed(e),
        Step::Cut => Step::Cut,
    }
}

pub open spec fn dec_if(d: Seq<u8>, p: int) -> Step<Ast>
    decreases rem(d, p), 3int, 0nat,
{
    match dec_node(d, p) {
        Step::Got(cond, u1) => {
            match dec_node(d, p + u1) {
                Step::Got(then_branch, u2) => {
                    match dec_opt_node(d, p + u1 + u2) {
                        Step::Got(else_branch, u3) => {
                            Step::Got(Ast::If { cond: Box::new(cond), then_branch: Box::new(then_branch), else_branch }, u1 + u2 + u3)
                        },
                        Step::Failed(e) => Step::Failed(e),
                        Step::Cut => Step::Cut,
                    }
                },
                Step::Failed(e) => Step::Failed(e),
                Step::Cut => Step::Cut,
            }
        },
        Step::Failed(e) => Step::Failed(e),
        Step::Cut => Step::Cut,
    }
}

pub open spec fn dec_while(d: Seq<u8>, p: int) -> Step<Ast>
    decreases rem(d, p), 3int, 0nat,
{
    match dec_node(d, p) {
        Step::Got(cond, u1) => {
            match dec_counted(d, p + u1) {
                Step::Got(body, u2) => {
                    Step::Got(Ast::While { cond: Box::new(cond), body }, u1 + u2)
                },
                Step::Failed(e) => Step::Failed(e),
                Step::Cut => Step::Cut,
            }
        },
        Step::Failed(e) => Step::Failed(e),
        Step::Cut => Step::Cut,
    }
}

pub open spec fn dec_for_each(d: Seq<u8>, p: int) -> Step<Ast>
    decreases rem(d, p), 3int, 0nat,
{
    match take_str(d, p) {
        Step::Got(var, u1) => {
            match dec_node(d, p + u1) {
                Step::Got(iterable, u2) => {
                    match dec_counted(d, p + u1 + u2) {
                        Step::Got(body, u3) => {
                            Step::Got(Ast::ForEach { var, iterable: Box::new(iterable), body }, u1 + u2 + u3)
                        },
                        Step::Failed(e) => Step::Failed(e),
                        Step::Cut => Step::Cut,
                    }
                },
                Step::Failed(e) => Step::Failed(e),
                Step::Cut => Step::Cut,
            }
        },
        _ => Step::Cut,
    }
}

pub open spec fn dec_repeat(d: Seq<u8>, p: int) -> Step<Ast>
    decreases rem(d, p), 3int, 0nat,
{
    match dec_node(d, p) {
        Step::Got(count, u1) => {
            match dec_counted(d, p + u1) {
                Step::Got(body, u2) => {
                    Step::Got(Ast::Repeat { count: Box::new(count), body }, u1 + u2)
                },
                Step::Failed(e) => Step::Failed(e),
                Step::Cut => Step::Cut,
            }
        },
        Step::Failed(e) => Step::Failed(e),
        Step::Cut => Step::Cut,
    }
}

pub open spec fn dec_return(d: Seq<u8>, p: int) -> Step<Ast>
    decreases rem(d, p), 3int, 0nat,
{
    match dec_node(d, p) {
        Step::Got(inner, u1) => {
            Step::Got(Ast::Return(Box::new(inner)), u1)
        },
        Step::Failed(e) => Step::Failed(e),
        Step::Cut => Step::Cut,
    }
}

pub open spec fn dec_block(d: Seq<u8>, p: int) -> Step<Ast>
    decreases rem(d, p), 3int, 0nat,
{
    match dec_counted(d, p) {
        Step::Got(inner, u1) => {
            Step::Got(Ast::Block(inner), u1)
        },
        Step::Failed(e) => Step::Failed(e),
        Step::Cut => Step::Cut,
    }
}

pub open spec fn dec_array(d: Seq<u8>, p: int) -> Step<Ast>
    decreases rem(d, p), 3int, 0nat,
{
    match dec_counted(d, p) {
        Step::Got(inner, u1) => {
            Step::Got(Ast::Array(inner), u1)
        },
        Step::Failed(e) => Step::Failed(e),
        Step::Cut => Step::Cut,
    }
}

pub open spec fn dec_index(d: Seq<u8>, p: int) -> Step<Ast>
    decreases rem(d, p), 3int, 0nat,
{
    match dec_node(d, p) {
        Step::Got(object, u1) => {
            match dec_node(d, p + u1) {
                Step::Got(index, u2) => {
                    Step::Got(Ast::Index { object: Box::new(object), index: Box::new(index) }, u1 + u2)
                },
                Step::Failed(e) => Step::Failed(e),
                Step::Cut => Step::Cut,
            }
        },
        Step::Failed(e) => Step::Failed(e),
        Step::Cut => Step::Cut,
    }
}

pub open spec fn dec_range(d: Seq<u8>, p: int) -> Step<Ast>
    decreases rem(d, p), 3int, 0nat,
{
    match dec_node(d, p) {
        Step::Got(start, u1) => {
            match dec_node(d, p + u1) {
                Step::Got(end, u2) => {
                    Step::Got(Ast::Range { start: Box::new(start), end: Box::new(end) }, u1 + u2)
                },
                Step::Failed(e) => Step::Failed(e),
                Step::Cut => Step::Cut,
            }
        },
        Step::Failed(e) => Step::Failed(e),
        Step::Cut => Step::Cut,
    }
}

pub open spec fn dec_op(d: Seq<u8>, p: int) -> Step<Ast>
    decreases rem(d, p), 3int, 0nat,
{
    match take_op_kind(d, p) {
        Step::Got(op, u1) => {
            match dec_counted(d, p + u1) {
                Step::Got(args, u2) => {
                    Step::Got(Ast::Op { op, args }, u1 + u2)
                },
                Step::Failed(e) => Step::Failed(e),
                Step::Cut => Step::Cut,
            }
        },
        Step::Failed(e) => Step::Failed(e),
        Step::Cut => Step::Cut,
    }
}

pub open spec fn dec_pipe(d: Seq<u8>, p: int) -> Step<Ast>
    decreases rem(d, p), 3int, 0nat,
{
    match take_pipe_kind(d, p) {
        Step::Got(kind, u1) => {
            match dec_node(d, p + u1) {
                Step::Got(data, u2) => {
                    match dec_node(d, p + u1 + u2) {
                        Step::Got(func, u3) => {
                            match dec_opt_node(d, p + u1 + u2 + u3) {
                                Step::Got(init, u4) => {
                                    Step::Got(Ast::Pipe { kind, data: Box::new(data), func: Box::new(func), init }, u1 + u2 + u3 + u4)
                                },
                                Step::Failed(e) => Step::Failed(e),
                                Step::Cut => Step::Cut,
                            }
                        },
                        Step::Failed(e) => Step::Failed(e),
                        Step::Cut => Step::Cut,
                    }
                },
                Step::Failed(e) => Step::Failed(e),
                Step::Cut => Step::Cut,
            }
        },
        Step::Failed(e) => Step::Failed(e),
        Step::Cut => Step::Cut,
    }
}

pub open spec fn dec_adapt(d: Seq<u8>, p: int) -> Step<Ast>
    decreases rem(d, p), 3int, 0nat,
{
    match take_str(d, p) {
        Step::Got(target, u1) => {
            match dec_counted(d, p + u1) {
                Step::Got(body, u2) => {
                    Step::Got(Ast::Adapt { target, body }, u1 + u2)
                },
                Step::Failed(e) => Step::Failed(e),
                Step::Cut => Step::Cut,
            }
        },
        _ => Step::Cut,
    }
}

pub open spec fn dec_builtin(d: Seq<u8>, p: int) -> Step<Ast>
    decreases rem(d, p), 3int, 0nat,
{
    match take_str(d, p) {
        Step::Got(name, u1) => {
            match dec_counted(d, p + u1) {
                Step::Got(args, u2) => {
                    Step::Got(Ast::Builtin { name, args }, u1 + u2)
                },
                Step::Failed(e) => Step::Failed(e),
                Step::Cut => Step::Cut,
            }
        },
        _ => Step::Cut,
    }
}

/// One node: its tag, then the payload that goes with the tag.
pub open spec fn dec_node(d: Seq<u8>, p: int) -> Step<Ast>
    decreases rem(d, p), 0int, 0nat,
{
    if p < d.len() {
        after(1, dec_payload(d, p + 1, d[p]))
    } else {
        Step::Cut
    }
}

pub open spec fn dec_payload(d: Seq<u8>, p: int, tag: u8) -> Step<Ast>
    decreases rem(d, p), 4int, 0nat,
{
        if tag == 0x01 {
            take_int(d, p)
        } else if tag == 0x02 {
            take_real(d, p)
        } else if tag == 0x03 {
            match take_str(d, p) {
                Step::Got(s, u) => Step::Got(Ast::Str(s), u),
                _ => Step::Cut,
            }
        } else if tag == 0x04 {
            match take_flag(d, p) {
                Step::Got(b, u) => Step::Got(Ast::Bool(b), u),
                _ => Step::Cut,
            }
        } else if tag == 0x05 {
            Step::Got(Ast::Null, 0)
        } else if tag == 0x06 {
            match take_str(d, p) {
                Step::Got(s, u) => Step::Got(Ast::Ident(s), u),
                _ => Step::Cut,
            }
        } else if tag == 0x10 {
            dec_bind(d, p)
        } else if tag == 0x11 {
            dec_assign(d, p)
        } else if tag == 0x20 {
            dec_fn(d, p)
        } else if tag == 0x21 {
            dec_call(d, p)
        } else if tag == 0x30 {
            dec_if(d, p)
        } else if tag == 0x31 {
            dec_while(d, p)
        } else if tag == 0x32 {
            dec_for_each(d, p)
        } else if tag == 0x33 {
            dec_repeat(d, p)
        } else if tag == 0x34 {
            dec_return(d, p)
        } else if tag == 0x35 {
            dec_block(d, p)
        } else if tag == 0x40 {
            dec_array(d, p)
        } else if tag == 0x41 {
            dec_index(d, p)
        } else if tag == 0x42 {
            dec_range(d, p)
        } else if tag == 0x50 {
            dec_op(d, p)
        } else if tag == 0x60 {
            dec_pipe(d, p)
        } else if tag == 0x70 {
            dec_adapt(d, p)
        } else if tag == 0x80 {
            dec_builtin(d, p)
        } else {
            Step::Failed("unknown node tag 0x"@ + hex_byte_upper(tag))
        }
}

/// What a file stands for.
pub open spec fn dec_program(d: Seq<u8>) -> Step<Seq<Ast>> {
    if d.len() < 7 || d.subrange(0, 6) != magic() {
        Step::Failed("invalid .lyc file: bad magic"@)
    } else if d[6] != VERSION {
        Step::Failed("unsupported .lyc version "@ + dec_nat(d[6] as nat))
    } else {
        after(7, dec_counted(d, 7))
    }
}

// ---- Writing ----

fn write_str(buf: &mut Vec<u8>, s: &str)
    ensures
        final(buf)@ == old(buf)@ + enc_str(s@),
{
    let bytes = s.as_bytes();
    let ghost start = buf@;
    write_u32(buf, bytes.len() as u32);
    write_bytes(buf, bytes);
    proof {
        cat_assoc(start, le32(bytes@.len() as u32), bytes@);
    }
}

fn write_flag(buf: &mut Vec<u8>, b: bool)
    ensures
        final(buf)@ == old(buf)@ + enc_flag(b),
{
    if b {
        buf.push(1);
    } else {
        buf.push(0);
    }
}

fn write_ty(buf: &mut Vec<u8>, t: &Type)
    ensures
        final(buf)@ == old(buf)@ + enc_ty(*t),
    decreases t,
{
    match t {
        Type::Int => buf.push(1),
        Type::Float => buf.push(2),
        Type::Str => buf.push(3),
        Type::Bool => buf.push(4),
        Type::Null => buf.push(5),
        Type::Array(inner) => {
            buf.push(6);
            write_ty(buf, inner);
        },
    }
}

fn write_type(buf: &mut Vec<u8>, ty: &Option<Type>)
    ensures
        final(buf)@ == old(buf)@ + enc_type(*ty),
{
    match ty {
        None => buf.push(0),
        Some(t) => write_ty(buf, t),
    }
}

fn write_params(buf: &mut Vec<u8>, params: &Vec<Param>)
    ensures
        final(buf)@ == old(buf)@ + enc_counted_params(param_views(params@)),
{
    let ghost start = buf@;
    let ghost all = param_views(params@);
    let ghost n = le32(all.len() as u32);
    write_u32(buf, params.len() as u32);
    let mut i: usize = 0;
    assert(all.take(0) == Seq::<ParamView>::empty());
    assert(buf@ == start + (n + enc_params(all.take(0))));
    while i < params.len()
        invariant
            i <= params.len(),
            all == param_views(params@),
            buf@ == start + (n + enc_params(all.take(i as int))),
        decreases params.len() - i,
    {
        let ghost done = enc_params(all.take(i as int));
        let ghost a = enc_str(all[i as int].name);
        let ghost b = enc_type(all[i as int].ty);
        write_str(buf, params[i].name.as_str());
        write_type(buf, &params[i].ty);
        proof {
            assert(all.take(i + 1).drop_last() == all.take(i as int));
            cat_assoc(start + (n + done), a, b);
            cat_assoc(start, n + done, a + b);
            cat_assoc(n, done, a + b);
        }
        i = i + 1;
    }
    assert(all.take(i as int) == all);
}

fn op_kind_byte(op: OpKind) -> (b: u8)
    ensures
        b == op_kind_code(op),
{
    match op {
        OpKind::Add => 0,
        OpKind::Sub => 1,
        OpKind::Mul => 2,
        OpKind::Div => 3,
        OpKind::Mod => 4,
        OpKind::Eq => 5,
        OpKind::Neq => 6,
        OpKind::Lt => 7,
        OpKind::Gt => 8,
        OpKind::Lte => 9,
        OpKind::Gte => 10,
        OpKind::And => 11,
        OpKind::Or => 12,
        OpKind::Not => 13,
        OpKind::Neg => 14,
    }
}

fn pipe_kind_byte(k: PipeKind) -> (b: u8)
    ensures
        b == pipe_kind_code(k),
{
    match k {
        PipeKind::Pipe => 0,
        PipeKind::Filter => 1,
        PipeKind::MapEach => 2,
        PipeKind::Reduce => 3,
    }
}

fn encode_counted(buf: &mut Vec<u8>, nodes: &Vec<Node>)
    ensures
        final(buf)@ == old(buf)@ + enc_counted(asts(nodes@)),
    decreases nodes, 1int,
{
    let ghost start = buf@;
    let ghost all = asts(nodes@);
    let ghost n = le32(all.len() as u32);
    write_u32(buf, nodes.len() as u32);
    let mut i: usize = 0;
    assert(all.take(0) == Seq::<Ast>::empty());
    assert(buf@ == start + (n + enc_all(all.take(0))));
    while i < nodes.len()
        invariant
            i <= nodes.len(),
            all == asts(nodes@),
            buf@ == start + (n + enc_all(all.take(i as int))),
        decreases nodes.len() - i,
    {
        let ghost done = enc_all(all.take(i as int));
        let ghost a = enc(all[i as int]);
        assert(decreases_to!(nodes => nodes@[i as int]));
        encode_node(buf, &nodes[i]);
        proof {
            assert(all.take(i + 1).drop_last() == all.take(i as int));
            cat_assoc(start, n + done, a);
            cat_assoc(n, done, a);
        }
        i = i + 1;
    }
    assert(all.take(i as int) == all);
}

fn encode_opt_node(buf: &mut Vec<u8>, node: &Option<Box<Node>>)
    ensures
        final(buf)@ == old(buf)@ + enc_opt_node(opt_ast(*node)),
    decreases node, 1int,
{
    let ghost start = buf@;
    match node {
        Some(e) => {
            buf.push(1);
            encode_node(buf, e);
            proof {
                cat_assoc(start, seq![1u8], enc(ast(**e)));
            }
        },
        None => buf.push(0),
    }
}

fn encode_head(buf: &mut Vec<u8>, name: &str, n: u32, Ghost(start): Ghost<Seq<u8>>)
    requires
        old(buf)@ == start,
    ensures
        final(buf)@ == start + (seq![0x80u8] + enc_str(name@) + le32(n)),
{
    buf.push(0x80);
    write_str(buf, name);
    write_u32(buf, n);
    proof {
        cat_assoc(start, seq![0x80u8], enc_str(name@));
        cat_assoc(start, seq![0x80u8] + enc_str(name@), le32(n));
    }
}

fn encode_builtin(buf: &mut Vec<u8>, name: &str, args: &Vec<Node>)
    ensures
        final(buf)@ == old(buf)@ + (seq![0x80u8] + enc_str(name@) + enc_counted(asts(args@))),
    decreases args, 2int,
{
    let ghost start = buf@;
    buf.push(0x80);
    write_str(buf, name);
    encode_counted(buf, args);
    proof {
        cat_assoc(start, seq![0x80u8], enc_str(name@));
        cat_assoc(start, seq![0x80u8] + enc_str(name@), enc_counted(asts(args@)));
    }
}

/// Appends the bytes of a node.
pub fn encode_node(buf: &mut Vec<u8>, node: &Node)
    ensures
        final(buf)@ == old(buf)@ + enc(ast(*node)),
    decreases node, 0int,
{
    let ghost before = buf@;
    assert(enc(ast(*node)) == tag_and_payload(ast(*node)));
    match node {
        Node::Int(n) => {
            buf.push(0x01);
            write_i64(buf, *n);
            proof {
                cat_assoc(before, seq![0x01u8], le64(*n as u64));
            }
        },
        Node::Float(f) => {
            buf.push(0x02);
            write_u64(buf, f.bits);
            proof {
                cat_assoc(before, seq![0x02u8], le64(f.bits));
            }
        },
        Node::Str(s) => {
            buf.push(0x03);
            write_str(buf, s.as_str());
            proof {
                cat_assoc(before, seq![0x03u8], enc_str(s@));
            }
        },
        Node::Bool(b) => {
            buf.push(0x04);
            write_flag(buf, *b);
        },
        Node::Null => {
            buf.push(0x05);
        },
        Node::Ident(s) => {
            buf.push(0x06);
            write_str(buf, s.as_str());
            proof {
                cat_assoc(before, seq![0x06u8], enc_str(s@));
            }
        },
        Node::Bind { name, mutable, ty, value } => {
            buf.push(0x10);
            let ghost mut acc = seq![0x10u8];
            write_str(buf, name.as_str());
            proof {
                let piece = enc_str(name@);
                cat_assoc(before, acc, piece);
                acc = acc + piece;
            }
            write_flag(buf, *mutable);
            proof {
                let piece = enc_flag(*mutable);
                cat_assoc(before, acc, piece);
                acc = acc + piece;
            }
            write_type(buf, ty);
            proof {
                let piece = enc_type(*ty);
                cat_assoc(before, acc, piece);
                acc = acc + piece;
            }
            encode_node(buf, value);
            proof {
                let piece = enc(ast(**value));
                cat_assoc(before, acc, piece);
                acc = acc + piece;
            }
            assert(buf@ == before + acc);
        },
        Node::Assign { name, value } => {
            buf.push(0x11);
            let ghost mut acc = seq![0x11u8];
            write_str(buf, name.as_str());
            proof {
                let piece = enc_str(name@);
                cat_assoc(before, acc, piece);
                acc = acc + piece;
            }
            encode_node(buf, value);
            proof {
                let piece = enc(ast(**value));
                cat_assoc(before, acc, piece);
                acc = acc + piece;
            }
            assert(buf@ == before + acc);
        },
        Node::Fn { stateful, name, params, ret, body } => {
            buf.push(0x20);
            let ghost mut acc = seq![0x20u8];
            write_flag(buf, *stateful);
            proof {
                let piece = enc_flag(*stateful);
                cat_assoc(before, acc, piece);
                acc = acc + piece;
            }
            write_name(buf, name);
            proof {
                let piece = enc_name(opt_text(*name));
                cat_assoc(before, acc, piece);
                acc = acc + piece;
            }
            write_params(buf, params);
            proof {
                let piece = enc_counted_params(param_views(params@));
                cat_assoc(before, acc, piece);
                acc = acc + piece;
            }
            write_type(buf, ret);
            proof {
                let piece = enc_type(*ret);
                cat_assoc(before, acc, piece);
                acc = acc + piece;
            }
            encode_counted(buf, body);
            proof {
                let piece = enc_counted(asts(body@));
                cat_assoc(before, acc, piece);
                acc = acc + piece;
            }
            assert(buf@ == before + acc);
        },
        Node::Call { callee, args } => {
            buf.push(0x21);
            let ghost mut acc = seq![0x21u8];
            encode_node(buf, callee);
            proof {
                let piece = enc(ast(**callee));
                cat_assoc(before, acc, piece);
                acc = acc + piece;
            }
            encode_counted(buf, args);
            proof {
                let piece = enc_counted(asts(args@));
                cat_assoc(before, acc, piece);
                acc = acc + piece;
            }
            assert(buf@ == before + acc);
        },
        Node::If { cond, then_branch, else_branch } => {
            buf.push(0x30);
            let ghost mut acc = seq![0x30u8];
            encode_node(buf, cond);
            proof {
                let piece = enc(ast(**cond));
                cat_assoc(before, acc, piece);
                acc = acc + piece;
            }
            encode_node(buf, then_branch);
            proof {
                let piece = enc(ast(**then_branch));
                cat_assoc(before, acc, piece);
                acc = acc + piece;
            }
            encode_opt_node(buf, else_branch);
            proof {
                let piece = enc_opt_node(opt_ast(*else_branch));
                cat_assoc(before, acc, piece);
                acc = acc + piece;
            }
            assert(buf@ == before + acc);
        },
        Node::While { cond, body } => {
            buf.push(0x31);
            let ghost mut acc = seq![0x31u8];
            encode_node(buf, cond);
            proof {
                let piece = enc(ast(**cond));
                cat_assoc(before, acc, piece);
                acc = acc + piece;
            }
            encode_counted(buf, body);
            proof {
                let piece = enc_counted(asts(body@));
                cat_assoc(before, acc, piece);
                acc = acc + piece;
            }
            assert(buf@ == before + acc);
        },
        Node::ForEach { var, iterable, body } => {
            buf.push(0x32);
            let ghost mut acc = seq![0x32u8];
            write_str(buf, var.as_str());
            proof {
                let piece = enc_str(var@);
                cat_assoc(before, acc, piece);
                acc = acc + piece;
            }
            encode_node(buf, iterable);
            proof {
                let piece = enc(ast(**iterable));
                cat_assoc(before, acc, piece);
                acc = acc + piece;
            }
            encode_counted(buf, body);
            proof {
                let piece = enc_counted(asts(body@));
                cat_assoc(before, acc, piece);
                acc = acc + piece;
            }
            assert(buf@ == before + acc);
        },
        Node::Repeat { count, body } => {
            buf.push(0x33);
            let ghost mut acc = seq![0x33u8];
            encode_node(buf, count);
            proof {
                let piece = enc(ast(**count));
                cat_assoc(before, acc, piece);
                acc = acc + piece;
            }
            encode_counted(buf, body);
            proof {
                let piece = enc_counted(asts(body@));
                cat_assoc(before, acc, piece);
                acc = acc + piece;
            }
            assert(buf@ == before + acc);
        },
        Node::Return(inner) => {
            buf.push(0x34);
            let ghost mut acc = seq![0x34u8];
            encode_node(buf, inner);
            proof {
                let piece = enc(ast(**inner));
                cat_assoc(before, acc, piece);
                acc = acc + piece;
            }
            assert(buf@ == before + acc);
        },
        Node::Block(inner) => {
            buf.push(0x35);
            let ghost mut acc = seq![0x35u8];
            encode_counted(buf, inner);
            proof {
                let piece = enc_counted(asts(inner@));
                cat_assoc(before, acc, piece);
                acc = acc + piece;
            }
            assert(buf@ == before + acc);
        },
        Node::Array(inner) => {
            buf.push(0x40);
            let ghost mut acc = seq![0x40u8];
            encode_counted(buf, inner);
            proof {
                let piece = enc_counted(asts(inner@));
                cat_assoc(before, acc, piece);
                acc = acc + piece;
            }
            assert(buf@ == before + acc);
        },
        Node::Index { object, index } => {
            buf.push(0x41);
            let ghost mut acc = seq![0x41u8];
            encode_node(buf, object);
            proof {
                let piece = enc(ast(**object));
                cat_assoc(before, acc, piece);
                acc = acc + piece;
            }
            encode_node(buf, index);
            proof {
                let piece = enc(ast(**index));
                cat_assoc(before, acc, piece);
                acc = acc + piece;
            }
            assert(buf@ == before + acc);
        },
        Node::Range { start, end } => {
            buf.push(0x42);
            let ghost mut acc = seq![0x42u8];
            encode_node(buf, start);
            proof {
                let piece = enc(ast(**start));
                cat_assoc(before, acc, piece);
                acc = acc + piece;
            }
            encode_node(buf, end);
            proof {
                let piece = enc(ast(**end));
                cat_assoc(before, acc, piece);
                acc = acc + piece;
            }
            assert(buf@ == before + acc);
        },
        Node::Op { op, args } => {
            buf.push(0x50);
            let ghost mut acc = seq![0x50u8];
            buf.push(op_kind_byte(*op));
            proof {
                let piece = seq![op_kind_code(*op)];
                cat_assoc(before, acc, piece);
                acc = acc + piece;
            }
            encode_counted(buf, args);
            proof {
                let piece = enc_counted(asts(args@));
                cat_assoc(before, acc, piece);
                acc = acc + piece;
            }
            assert(buf@ == before + acc);
        },
        Node::Pipe { kind, data, func, init } => {
            buf.push(0x60);
            let ghost mut acc = seq![0x60u8];
            buf.push(pipe_kind_byte(*kind));
            proof {
                let piece = seq![pipe_kind_code(*kind)];
                cat_assoc(before, acc, piece);
                acc = acc + piece;
            }
            encode_node(buf, data);
            proof {
                let piece = enc(ast(**data));
                cat_assoc(before, acc, piece);
                acc = acc + piece;
            }
            encode_node(buf, func);
            proof {
                let piece = enc(ast(**func));
                cat_assoc(before, acc, piece);
                acc = acc + piece;
            }
            encode_opt_node(buf, init);
            proof {
                let piece = enc_opt_node(opt_ast(*init));
                cat_assoc(before, acc, piece);
                acc = acc + piece;
            }
            assert(buf@ == before + acc);
        },
        Node::Adapt { target, body } => {
            buf.push(0x70);
            let ghost mut acc = seq![0x70u8];
            write_str(buf, target.as_str());
            proof {
                let piece = enc_str(target@);
                cat_assoc(before, acc, piece);
                acc = acc + piece;
            }
            encode_counted(buf, body);
            proof {
                let piece = enc_counted(asts(body@));
                cat_assoc(before, acc, piece);
                acc = acc + piece;
            }
            assert(buf@ == before + acc);
        },
        Node::Builtin { name, args } => encode_builtin(buf, name.as_str(), args),
        Node::Choice { options } => encode_builtin(buf, "choice", options),
        Node::Guard { assumption, fast_path, fallback } => {
            encode_head(buf, "guard", 3, Ghost(before));
            let ghost a1 = seq![0x80u8] + enc_str("guard"@) + le32(3);
            encode_node(buf, assumption);
            let ghost a2 = a1 + enc(ast(**assumption));
            proof {
                cat_assoc(before, a1, enc(ast(**assumption)));
            }
            encode_node(buf, fast_path);
            let ghost a3 = a2 + enc(ast(**fast_path));
            proof {
                cat_assoc(before, a2, enc(ast(**fast_path)));
            }
            encode_node(buf, fallback);
            proof {
                cat_assoc(before, a3, enc(ast(**fallback)));
            }
        },
        Node::Strategy { options } => encode_builtin(buf, "strategy", options),
        Node::Feedback { target, reward } => {
            encode_head(buf, "feedback", 2, Ghost(before));
            let ghost a1 = seq![0x80u8] + enc_str("feedback"@) + le32(2);
            encode_node(buf, target);
            let ghost a2 = a1 + enc(ast(**target));
            proof {
                cat_assoc(before, a1, enc(ast(**target)));
            }
            encode_node(buf, reward);
            proof {
                cat_assoc(before, a2, enc(ast(**reward)));
            }
        },
    }
}

fn write_name(buf: &mut Vec<u8>, name: &Option<String>)
    ensures
        final(buf)@ == old(buf)@ + enc_name(opt_text(*name)),
{
    let ghost start = buf@;
    match name {
        Some(n) => {
            buf.push(1);
            write_str(buf, n.as_str());
            proof {
                cat_assoc(start, seq![1u8], enc_str(n@));
            }
        },
        None => buf.push(0),
    }
}

/// The bytes of a program.
pub fn encode(program: &Program) -> (buf: Vec<u8>)
    ensures
        buf@ == enc_program(asts(program.nodes@)),
{
    let mut buf: Vec<u8> = Vec::new();
    buf.push(0x4C);
    buf.push(0x59);
    buf.push(0x43);
    buf.push(0x41);
    buf.push(0x4E);
    buf.push(0x00);
    buf.push(VERSION);
    assert(buf@ == magic() + seq![VERSION]);
    encode_counted(&mut buf, &program.nodes);
    buf
}

// ---- Reading ----

/// Why a value could not be read.
#[derive(Debug)]
pub enum Fault {
    /// The bytes end inside it.
    Cut,
    Failed(String),
}

/// A result of reading agrees with what the bytes stand for.
pub open spec fn agrees<T, V>(
    r: Result<T, Fault>,
    view: spec_fn(T) -> V,
    step: Step<V>,
    from: usize,
    to: usize,
) -> bool {
    match step {
        Step::Got(v, u) => match r {
            Ok(x) => view(x) == v && to == from + u,
            Err(_) => false,
        },
        Step::Failed(e) => match r {
            Err(Fault::Failed(m)) => m@ == e,
            _ => false,
        },
        Step::Cut => match r {
            Err(Fault::Cut) => true,
            _ => false,
        },
    }
}

pub open spec fn node_agrees(r: Result<Node, Fault>, step: Step<Ast>, from: usize, to: usize) -> bool {
    agrees(r, |n: Node| ast(n), step, from, to)
}

fn read_flag(data: &[u8], pos: &mut usize) -> (r: Result<bool, Fault>)
    requires
        *old(pos) <= data.len(),
    ensures
        *old(pos) <= *final(pos) <= data.len(),
        agrees(r, |b: bool| b, take_flag(data@, *old(pos) as int), *old(pos), *final(pos)),
{
    if *pos >= data.len() {
        return Err(Fault::Cut);
    }
    let b: u8 = data[*pos];
    *pos = *pos + 1;
    Ok(b != 0)
}

fn read_len(data: &[u8], pos: &mut usize) -> (r: Result<u32, Fault>)
    requires
        *old(pos) <= data.len(),
    ensures
        *old(pos) <= *final(pos) <= data.len(),
        agrees(r, |v: u32| v, take_u32(data@, *old(pos) as int), *old(pos), *final(pos)),
{
    if data.len() - *pos < 4 {
        return Err(Fault::Cut);
    }
    let v: u32 = get_u32(data, *pos);
    *pos = *pos + 4;
    Ok(v)
}

fn read_int(data: &[u8], pos: &mut usize) -> (r: Result<Node, Fault>)
    requires
        *old(pos) <= data.len(),
    ensures
        *old(pos) <= *final(pos) <= data.len(),
        agrees(r, |n: Node| ast(n), take_int(data@, *old(pos) as int), *old(pos), *final(pos)),
{
    if data.len() - *pos < 8 {
        return Err(Fault::Cut);
    }
    let v: u64 = get_u64(data, *pos);
    *pos = *pos + 8;
    Ok(Node::Int(v as i64))
}

fn read_real(data: &[u8], pos: &mut usize) -> (r: Result<Node, Fault>)
    requires
        *old(pos) <= data.len(),
    ensures
        *old(pos) <= *final(pos) <= data.len(),
        agrees(r, |n: Node| ast(n), take_real(data@, *old(pos) as int), *old(pos), *final(pos)),
{
    if data.len() - *pos < 8 {
        return Err(Fault::Cut);
    }
    let v: u64 = get_u64(data, *pos);
    *pos = *pos + 8;
    Ok(Node::Float(Real { bits: v }))
}

fn read_str(data: &[u8], pos: &mut usize) -> (r: Result<String, Fault>)
    requires
        *old(pos) <= data.len(),
    ensures
        *old(pos) <= *final(pos) <= data.len(),
        agrees(r, |s: String| s@, take_str(data@, *old(pos) as int), *old(pos), *final(pos)),
{
    if data.len() - *pos < 4 {
        return Err(Fault::Cut);
    }
    let len: usize = get_u32(data, *pos) as usize;
    if len > data.len() - *pos - 4 {
        return Err(Fault::Cut);
    }
    let bytes = copy_range(data, *pos + 4, len);
    *pos = *pos + 4 + len;
    Ok(lossy(bytes.as_slice()))
}

fn read_name(data: &[u8], pos: &mut usize) -> (r: Result<Option<String>, Fault>)
    requires
        *old(pos) <= data.len(),
    ensures
        *old(pos) <= *final(pos) <= data.len(),
        agrees(r, |s: Option<String>| opt_text(s), take_name(data@, *old(pos) as int), *old(pos), *final(pos)),
{
    let named = match read_flag(data, pos) {
        Ok(b) => b,
        Err(e) => {
            return Err(e);
        },
    };
    if named {
        match read_str(data, pos) {
            Ok(s) => Ok(Some(s)),
            Err(e) => Err(e),
        }
    } else {
        Ok(None)
    }
}

fn read_type(data: &[u8], pos: &mut usize) -> (r: Result<Option<Type>, Fault>)
    requires
        *old(pos) <= data.len(),
    ensures
        *old(pos) <= *final(pos) <= data.len(),
        agrees(r, |t: Option<Type>| t, take_type(data@, *old(pos) as int), *old(pos), *final(pos)),
    decreases data.len() - *old(pos),
{
    if *pos >= data.len() {
        return Err(Fault::Cut);
    }
    let tag: u8 = data[*pos];
    *pos = *pos + 1;
    match tag {
        1 => Ok(Some(Type::Int)),
        2 => Ok(Some(Type::Float)),
        3 => Ok(Some(Type::Str)),
        4 => Ok(Some(Type::Bool)),
        5 => Ok(Some(Type::Null)),
        6 => match read_type(data, pos) {
            Ok(Some(t)) => Ok(Some(Type::Array(Box::new(t)))),
            Ok(None) => Ok(Some(Type::Array(Box::new(Type::Int)))),
            Err(e) => Err(e),
        },
        _ => Ok(None),
    }
}

/// A parameter list that is cut short is cut short as a whole.
proof fn params_cut(d: Seq<u8>, p: int, i: nat, n: nat)
    requires
        i <= n,
        !(take_params(d, p, i) is Got),
    ensures
        take_params(d, p, n) is Cut,
    decreases n,
{
    if i < n {
        params_cut(d, p, i, (n - 1) as nat);
    }
}

fn read_params(data: &[u8], pos: &mut usize) -> (r: Result<Vec<Param>, Fault>)
    requires
        *old(pos) <= data.len(),
    ensures
        *old(pos) <= *final(pos) <= data.len(),
        agrees(r, |v: Vec<Param>| param_views(v@), take_counted_params(data@, *old(pos) as int), *old(pos), *final(pos)),
{
    let count: u32 = match read_len(data, pos) {
        Ok(n) => n,
        Err(e) => {
            return Err(e);
        },
    };
    let ghost start = *pos as int;
    let mut params: Vec<Param> = Vec::new();
    let mut i: u32 = 0;
    assert(param_views(params@) == Seq::<ParamView>::empty());
    while i < count
        invariant
            i <= count,
            start <= *pos <= data.len(),
            start == *old(pos) + 4,
            take_u32(data@, *old(pos) as int) == Step::Got(count, 4),
            take_params(data@, start, i as nat) == Step::Got(
                param_views(params@),
                (*pos - start) as nat,
            ),
        decreases count - i,
    {
        let name = match read_str(data, pos) {
            Ok(s) => s,
            Err(e) => {
                proof {
                    params_cut(data@, start, (i + 1) as nat, count as nat);
                }
                return Err(e);
            },
        };
        let ty = match read_type(data, pos) {
            Ok(t) => t,
            Err(e) => {
                proof {
                    params_cut(data@, start, (i + 1) as nat, count as nat);
                }
                return Err(e);
            },
        };
        let ghost before = params@;
        params.push(Param { name, ty });
        assert(param_views(params@) == param_views(before).push(ParamView { name: name@, ty }));
        i = i + 1;
    }
    Ok(params)
}

fn read_op_kind(data: &[u8], pos: &mut usize) -> (r: Result<OpKind, Fault>)
    requires
        *old(pos) <= data.len(),
    ensures
        *old(pos) <= *final(pos) <= data.len(),
        agrees(r, |k: OpKind| k, take_op_kind(data@, *old(pos) as int), *old(pos), *final(pos)),
{
    if *pos >= data.len() {
        return Err(Fault::Cut);
    }
    let b: u8 = data[*pos];
    *pos = *pos + 1;
    match b {
        0 => Ok(OpKind::Add),
        1 => Ok(OpKind::Sub),
        2 => Ok(OpKind::Mul),
        3 => Ok(OpKind::Div),
        4 => Ok(OpKind::Mod),
        5 => Ok(OpKind::Eq),
        6 => Ok(OpKind::Neq),
        7 => Ok(OpKind::Lt),
        8 => Ok(OpKind::Gt),
        9 => Ok(OpKind::Lte),
        10 => Ok(OpKind::Gte),
        11 => Ok(OpKind::And),
        12 => Ok(OpKind::Or),
        13 => Ok(OpKind::Not),
        14 => Ok(OpKind::Neg),
        _ => Err(Fault::Failed(labelled("unknown op byte ", b as u64))),
    }
}

fn read_pipe_kind(data: &[u8], pos: &mut usize) -> (r: Result<PipeKind, Fault>)
    requires
        *old(pos) <= data.len(),
    ensures
        *old(pos) <= *final(pos) <= data.len(),
        agrees(r, |k: PipeKind| k, take_pipe_kind(data@, *old(pos) as int), *old(pos), *final(pos)),
{
    if *pos >= data.len() {
        return Err(Fault::Cut);
    }
    let b: u8 = data[*pos];
    *pos = *pos + 1;
    match b {
        0 => Ok(PipeKind::Pipe),
        1 => Ok(PipeKind::Filter),
        2 => Ok(PipeKind::MapEach),
        3 => Ok(PipeKind::Reduce),
        _ => Err(Fault::Failed(labelled("unknown pipe byte ", b as u64))),
    }
}

/// A list of nodes that stops early stops for the same reason as a whole.
proof fn nodes_stop(d: Seq<u8>, p: int, i: nat, n: nat)
    requires
        i <= n,
        !(dec_nodes(d, p, i) is Got),
    ensures
        dec_nodes(d, p, n) == dec_nodes(d, p, i),
    decreases n,
{
    if i < n {
        nodes_stop(d, p, i, (n - 1) as nat);
    }
}

fn decode_counted(data: &[u8], pos: &mut usize) -> (r: Result<Vec<Node>, Fault>)
    requires
        *old(pos) <= data.len(),
    ensures
        *old(pos) <= *final(pos) <= data.len(),
        agrees(r, |v: Vec<Node>| asts(v@), dec_counted(data@, *old(pos) as int), *old(pos), *final(pos)),
    decreases data.len() - *old(pos), 2int,
{
    let count: u32 = match read_len(data, pos) {
        Ok(n) => n,
        Err(e) => {
            return Err(e);
        },
    };
    let ghost start = *pos as int;
    let mut nodes: Vec<Node> = Vec::new();
    let mut i: u32 = 0;
    assert(asts(nodes@) == Seq::<Ast>::empty());
    while i < count
        invariant
            i <= count,
            start <= *pos <= data.len(),
            start == *old(pos) + 4,
            take_u32(data@, *old(pos) as int) == Step::Got(count, 4),
            dec_nodes(data@, start, i as nat) == Step::Got(asts(nodes@), (*pos - start) as nat),
        decreases count - i,
    {
        match decode_node(data, pos) {
            Ok(n) => {
                proof {
                    asts_push(nodes@, n);
                }
                nodes.push(n);
            },
            Err(e) => {
                proof {
                    nodes_stop(data@, start, (i + 1) as nat, count as nat);
                }
                return Err(e);
            },
        }
        i = i + 1;
    }
    Ok(nodes)
}

pub open spec fn opt_ast(n: Option<Box<Node>>) -> Option<Box<Ast>> {
    match n {
        Some(e) => Some(Box::new(ast(*e))),
        None => None,
    }
}

fn decode_opt_node(data: &[u8], pos: &mut usize) -> (r: Result<Option<Box<Node>>, Fault>)
    requires
        *old(pos) <= data.len(),
    ensures
        *old(pos) <= *final(pos) <= data.len(),
        agrees(r, |n: Option<Box<Node>>| opt_ast(n), dec_opt_node(data@, *old(pos) as int), *old(pos), *final(pos)),
    decreases data.len() - *old(pos), 2int,
{
    let present = match read_flag(data, pos) {
        Ok(b) => b,
        Err(e) => {
            return Err(e);
        },
    };
    if present {
        match decode_node(data, pos) {
            Ok(n) => Ok(Some(Box::new(n))),
            Err(e) => Err(e),
        }
    } else {
        Ok(None)
    }
}

fn decode_bind(src: &[u8], pos: &mut usize) -> (r: Result<Node, Fault>)
    requires
        *old(pos) <= src.len(),
    ensures
        *old(pos) <= *final(pos) <= src.len(),
        node_agrees(r, dec_bind(src@, *old(pos) as int), *old(pos), *final(pos)),
    decreases src.len() - *old(pos), 3int,
{
    let name = match read_str(src, pos) {
        Ok(x) => x,
        Err(e) => {
            return Err(e);
        },
    };
    let mutable = match read_flag(src, pos) {
        Ok(x) => x,
        Err(e) => {
            return Err(e);
        },
    };
    let ty = match read_type(src, pos) {
        Ok(x) => x,
        Err(e) => {
            return Err(e);
        },
    };
    let value = match decode_node(src, pos) {
        Ok(x) => x,
        Err(e) => {
            return Err(e);
        },
    };
    Ok(Node::Bind { name, mutable, ty, value: Box::new(value) })
}

fn decode_assign(src: &[u8], pos: &mut usize) -> (r: Result<Node, Fault>)
    requires
        *old(pos) <= src.len(),
    ensures
        *old(pos) <= *final(pos) <= src.len(),
        node_agrees(r, dec_assign(src@, *old(pos) as int), *old(pos), *final(pos)),
    decreases src.len() - *old(pos), 3int,
{
    let name = match read_str(src, pos) {
        Ok(x) => x,
        Err(e) => {
            return Err(e);
        },
    };
    let value = match decode_node(src, pos) {
        Ok(x) => x,
        Err(e) => {
            return Err(e);
        },
    };
    Ok(Node::Assign { name, value: Box::new(value) })
}

fn decode_fn(src: &[u8], pos: &mut usize) -> (r: Result<Node, Fault>)
    requires
        *old(pos) <= src.len(),
    ensures
        *old(pos) <= *final(pos) <= src.len(),
        node_agrees(r, dec_fn(src@, *old(pos) as int), *old(pos), *final(pos)),
    decreases src.len() - *old(pos), 3int,
{
    let stateful = match read_flag(src, pos) {
        Ok(x) => x,
        Err(e) => {
            return Err(e);
        },
    };
    let name = match read_name(src, pos) {
        Ok(x) => x,
        Err(e) => {
            return Err(e);
        },
    };
    let params = match read_params(src, pos) {
        Ok(x) => x,
        Err(e) => {
            return Err(e);
        },
    };
    let ret = match read_type(src, pos) {
        Ok(x) => x,
        Err(e) => {
            return Err(e);
        },
    };
    let body = match decode_counted(src, pos) {
        Ok(x) => x,
        Err(e) => {
            return Err(e);
        },
    };
    Ok(Node::Fn { stateful, name, params, ret, body })
}

fn decode_call(src: &[u8], pos: &mut usize) -> (r: Result<Node, Fault>)
    requires
        *old(pos) <= src.len(),
    ensures
        *old(pos) <= *final(pos) <= src.len(),
        node_agrees(r, dec_call(src@, *old(pos) as int), *old(pos), *final(pos)),
    decreases src.len() - *old(pos), 3int,
{
    let callee = match decode_node(src, pos) {
        Ok(x) => x,
        Err(e) => {
            return Err(e);
        },
    };
    let args = match decode_counted(src, pos) {
        Ok(x) => x,
        Err(e) => {
            return Err(e);
        },
    };
    Ok(Node::Call { callee: Box::new(callee), args })
}

fn decode_if(src: &[u8], pos: &mut usize) -> (r: Result<Node, Fault>)
    requires
        *old(pos) <= src.len(),
    ensures
        *old(pos) <= *final(pos) <= src.len(),
        node_agrees(r, dec_if(src@, *old(pos) as int), *old(pos), *final(pos)),
    decreases src.len() - *old(pos), 3int,
{
    let cond = match decode_node(src, pos) {
        Ok(x) => x,
        Err(e) => {
            return Err(e);
        },
    };
    let then_branch = match decode_node(src, pos) {
        Ok(x) => x,
        Err(e) => {
            return Err(e);
        },
    };
    let else_branch = match decode_opt_node(src, pos) {
        Ok(x) => x,
        Err(e) => {
            return Err(e);
        },
    };
    Ok(Node::If { cond: Box::new(cond), then_branch: Box::new(then_branch), else_branch })
}

fn decode_while(src: &[u8], pos: &mut usize) -> (r: Result<Node, Fault>)
    requires
        *old(pos) <= src.len(),
    ensures
        *old(pos) <= *final(pos) <= src.len(),
        node_agrees(r, dec_while(src@, *old(pos) as int), *old(pos), *final(pos)),
    decreases src.len() - *old(pos), 3int,
{
    let cond = match decode_node(src, pos) {
        Ok(x) => x,
        Err(e) => {
            return Err(e);
        },
    };
    let body = match decode_counted(src, pos) {
        Ok(x) => x,
        Err(e) => {
            return Err(e);
        },
    };
    Ok(Node::While { cond: Box::new(cond), body })
}

fn decode_for_each(src: &[u8], pos: &mut usize) -> (r: Result<Node, Fault>)
    requires
        *old(pos) <= src.len(),
    ensures
        *old(pos) <= *final(pos) <= src.len(),
        node_agrees(r, dec_for_each(src@, *old(pos) as int), *old(pos), *final(pos)),
    decreases src.len() - *old(pos), 3int,
{
    let var = match read_str(src, pos) {
        Ok(x) => x,
        Err(e) => {
            return Err(e);
        },
    };
    let iterable = match decode_node(src, pos) {
        Ok(x) => x,
        Err(e) => {
            return Err(e);
        },
    };
    let body = match decode_counted(src, pos) {
        Ok(x) => x,
        Err(e) => {
            return Err(e);
        },
    };
    Ok(Node::ForEach { var, iterable: Box::new(iterable), body })
}

fn decode_repeat(src: &[u8], pos: &mut usize) -> (r: Result<Node, Fault>)
    requires
        *old(pos) <= src.len(),
    ensures
        *old(pos) <= *final(pos) <= src.len(),
        node_agrees(r, dec_repeat(src@, *old(pos) as int), *old(pos), *final(pos)),
    decreases src.len() - *old(pos), 3int,
{
    let count = match decode_node(src, pos) {
        Ok(x) => x,
        Err(e) => {
            return Err(e);
        },
    };
    let body = match decode_counted(src, pos) {
        Ok(x) => x,
        Err(e) => {
            return Err(e);
        },
    };
    Ok(Node::Repeat { count: Box::new(count), body })
}

fn decode_return(src: &[u8], pos: &mut usize) -> (r: Result<Node, Fault>)
    requires
        *old(pos) <= src.len(),
    ensures
        *old(pos) <= *final(pos) <= src.len(),
        node_agrees(r, dec_return(src@, *old(pos) as int), *old(pos), *final(pos)),
    decreases src.len() - *old(pos), 3int,
{
    let inner = match decode_node(src, pos) {
        Ok(x) => x,
        Err(e) => {
            return Err(e);
        },
    };
    Ok(Node::Return(Box::new(inner)))
}

fn decode_block(src: &[u8], pos: &mut usize) -> (r: Result<Node, Fault>)
    requires
        *old(pos) <= src.len(),
    ensures
        *old(pos) <= *final(pos) <= src.len(),
        node_agrees(r, dec_block(src@, *old(pos) as int), *old(pos), *final(pos)),
    decreases src.len() - *old(pos), 3int,
{
    let inner = match decode_counted(src, pos) {
        Ok(x) => x,
        Err(e) => {
            return Err(e);
        },
    };
    Ok(Node::Block(inner))
}

fn decode_array(src: &[u8], pos: &mut usize) -> (r: Result<Node, Fault>)
    requires
        *old(pos) <= src.len(),
    ensures
        *old(pos) <= *final(pos) <= src.len(),
        node_agrees(r, dec_array(src@, *old(pos) as int), *old(pos), *final(pos)),
    decreases src.len() - *old(pos), 3int,
{
    let inner = match decode_counted(src, pos) {
        Ok(x) => x,
        Err(e) => {
            return Err(e);
        },
    };
    Ok(Node::Array(inner))
}

fn decode_index(src: &[u8], pos: &mut usize) -> (r: Result<Node, Fault>)
    requires
        *old(pos) <= src.len(),
    ensures
        *old(pos) <= *final(pos) <= src.len(),
        node_agrees(r, dec_index(src@, *old(pos) as int), *old(pos), *final(pos)),
    decreases src.len() - *old(pos), 3int,
{
    let object = match decode_node(src, pos) {
        Ok(x) => x,
        Err(e) => {
            return Err(e);
        },
    };
    let index = match decode_node(src, pos) {
        Ok(x) => x,
        Err(e) => {
            return Err(e);
        },
    };
    Ok(Node::Index { object: Box::new(object), index: Box::new(index) })
}

fn decode_range(src: &[u8], pos: &mut usize) -> (r: Result<Node, Fault>)
    requires
        *old(pos) <= src.len(),
    ensures
        *old(pos) <= *final(pos) <= src.len(),
        node_agrees(r, dec_range(src@, *old(pos) as int), *old(pos), *final(pos)),
    decreases src.len() - *old(pos), 3int,
{
    let start = match decode_node(src, pos) {
        Ok(x) => x,
        Err(e) => {
            return Err(e);
        },
    };
    let end = match decode_node(src, pos) {
        Ok(x) => x,
        Err(e) => {
            return Err(e);
        },
    };
    Ok(Node::Range { start: Box::new(start), end: Box::new(end) })
}

fn decode_op(src: &[u8], pos: &mut usize) -> (r: Result<Node, Fault>)
    requires
        *old(pos) <= src.len(),
    ensures
        *old(pos) <= *final(pos) <= src.len(),
        node_agrees(r, dec_op(src@, *old(pos) as int), *old(pos), *final(pos)),
    decreases src.len() - *old(pos), 3int,
{
    let op = match read_op_kind(src, pos) {
        Ok(x) => x,
        Err(e) => {
            return Err(e);
        },
    };
    let args = match decode_counted(src, pos) {
        Ok(x) => x,
        Err(e) => {
            return Err(e);
        },
    };
    Ok(Node::Op { op, args })
}

fn decode_pipe(src: &[u8], pos: &mut usize) -> (r: Result<Node, Fault>)
    requires
        *old(pos) <= src.len(),
    ensures
        *old(pos) <= *final(pos) <= src.len(),
        node_agrees(r, dec_pipe(src@, *old(pos) as int), *old(pos), *final(pos)),
    decreases src.len() - *old(pos), 3int,
{
    let kind = match read_pipe_kind(src, pos) {
        Ok(x) => x,
        Err(e) => {
            return Err(e);
        },
    };
    let data = match decode_node(src, pos) {
        Ok(x) => x,
        Err(e) => {
            return Err(e);
        },
    };
    let func = match decode_node(src, pos) {
        Ok(x) => x,
        Err(e) => {
            return Err(e);
        },
    };
    let init = match decode_opt_node(src, pos) {
        Ok(x) => x,
        Err(e) => {
            return Err(e);
        },
    };
    Ok(Node::Pipe { kind, data: Box::new(data), func: Box::new(func), init })
}

fn decode_adapt(src: &[u8], pos: &mut usize) -> (r: Result<Node, Fault>)
    requires
        *old(pos) <= src.len(),
    ensures
        *old(pos) <= *final(pos) <= src.len(),
        node_agrees(r, dec_adapt(src@, *old(pos) as int), *old(pos), *final(pos)),
    decreases src.len() - *old(pos), 3int,
{
    let target = match read_str(src, pos) {
        Ok(x) => x,
        Err(e) => {
            return Err(e);
        },
    };
    let body = match decode_counted(src, pos) {
        Ok(x) => x,
        Err(e) => {
            return Err(e);
        },
    };
    Ok(Node::Adapt { target, body })
}

fn decode_builtin(src: &[u8], pos: &mut usize) -> (r: Result<Node, Fault>)
    requires
        *old(pos) <= src.len(),
    ensures
        *old(pos) <= *final(pos) <= src.len(),
        node_agrees(r, dec_builtin(src@, *old(pos) as int), *old(pos), *final(pos)),
    decreases src.len() - *old(pos), 3int,
{
    let name = match read_str(src, pos) {
        Ok(x) => x,
        Err(e) => {
            return Err(e);
        },
    };
    let args = match decode_counted(src, pos) {
        Ok(x) => x,
        Err(e) => {
            return Err(e);
        },
    };
    Ok(Node::Builtin { name, args })
}

/// Reads one node, and moves behind it.
pub fn decode_node(src: &[u8], pos: &mut usize) -> (r: Result<Node, Fault>)
    requires
        *old(pos) <= src.len(),
    ensures
        *old(pos) <= *final(pos) <= src.len(),
        node_agrees(r, dec_node(src@, *old(pos) as int), *old(pos), *final(pos)),
    decreases src.len() - *old(pos), 0int,
{
    if *pos >= src.len() {
        return Err(Fault::Cut);
    }
    let tag: u8 = src[*pos];
    *pos = *pos + 1;
    assert(dec_node(src@, *old(pos) as int) == after(1, dec_payload(src@, *pos as int, tag)));
    match tag {
        0x01 => read_int(src, pos),
        0x02 => read_real(src, pos),
        0x03 => match read_str(src, pos) {
            Ok(s) => Ok(Node::Str(s)),
            Err(e) => Err(e),
        },
        0x04 => match read_flag(src, pos) {
            Ok(b) => Ok(Node::Bool(b)),
            Err(e) => Err(e),
        },
        0x05 => Ok(Node::Null),
        0x06 => match read_str(src, pos) {
            Ok(s) => Ok(Node::Ident(s)),
            Err(e) => Err(e),
        },
        0x10 => decode_bind(src, pos),
        0x11 => decode_assign(src, pos),
        0x20 => decode_fn(src, pos),
        0x21 => decode_call(src, pos),
        0x30 => decode_if(src, pos),
        0x31 => decode_while(src, pos),
        0x32 => decode_for_each(src, pos),
        0x33 => decode_repeat(src, pos),
        0x34 => decode_return(src, pos),
        0x35 => decode_block(src, pos),
        0x40 => decode_array(src, pos),
        0x41 => decode_index(src, pos),
        0x42 => decode_range(src, pos),
        0x50 => decode_op(src, pos),
        0x60 => decode_pipe(src, pos),
        0x70 => decode_adapt(src, pos),
        0x80 => decode_builtin(src, pos),
        _ => Err(Fault::Failed(labelled_hex("unknown node tag 0x", tag))),
    }
}

fn decode_program(data: &[u8]) -> (r: Result<Vec<Node>, Fault>)
    ensures
        match dec_program(data@) {
            Step::Got(nodes, _) => r is Ok && asts(r->Ok_0@) == nodes,
            Step::Failed(e) => match r {
                Err(Fault::Failed(m)) => m@ == e,
                _ => false,
            },
            Step::Cut => match r {
                Err(Fault::Cut) => true,
                _ => false,
            },
        },
{
    if data.len() < 7 || data[0] != 0x4C || data[1] != 0x59 || data[2] != 0x43 || data[3] != 0x41
        || data[4] != 0x4E || data[5] != 0x00 {
        proof {
            if data@.len() >= 7 {
                let s = data@.subrange(0, 6);
                let m = magic();
                assert(s[0] == data@[0] && s[1] == data@[1] && s[2] == data@[2]);
                assert(s[3] == data@[3] && s[4] == data@[4] && s[5] == data@[5]);
                assert(m[0] == 0x4C && m[1] == 0x59 && m[2] == 0x43);
                assert(m[3] == 0x41 && m[4] == 0x4E && m[5] == 0x00);
            }
        }
        return Err(Fault::Failed(String::from_str("invalid .lyc file: bad magic")));
    }
    assert(data@.subrange(0, 6) == magic());
    if data[6] != VERSION {
        return Err(Fault::Failed(labelled("unsupported .lyc version ", data[6] as u64)));
    }
    let mut pos: usize = 7;
    decode_counted(data, &mut pos)
}

/// Whether the bytes do not end inside a value.
pub fn is_complete(data: &[u8]) -> (b: bool)
    ensures
        b == !(dec_program(data@) is Cut),
{
    match decode_program(data) {
        Err(Fault::Cut) => false,
        _ => true,
    }
}

/// Reads a program back from its bytes.
pub fn decode(data: &[u8]) -> (r: LycanResult<Program>)
    requires
        !(dec_program(data@) is Cut),
    ensures
        match dec_program(data@) {
            Step::Got(nodes, _) => r is Ok && asts(r->Ok_0.nodes@) == nodes,
            Step::Failed(e) => r is Err && r->Err_0.text() == e,
            Step::Cut => false,
        },
{
    match decode_program(data) {
        Ok(nodes) => Ok(Program { nodes }),
        Err(Fault::Failed(msg)) => Err(runtime_error(msg)),
        Err(Fault::Cut) => Err(runtime_error(String::new())),
    }
}

} // verus!
