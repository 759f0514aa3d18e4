//! Programs as trees.
use crate::number::Real;
use vstd::prelude::*;

verus! {

#[derive(Clone, Copy, Debug, PartialEq, Eq, Structural)]
pub enum OpKind {
    Add,
    Sub,
    Mul,
    Div,
    Mod,
    Eq,
    Neq,
    Lt,
    Gt,
    Lte,
    Gte,
    And,
    Or,
    Not,
    Neg,
}

#[derive(Clone, Copy, Debug, PartialEq, Eq, Structural)]
pub enum PipeKind {
    Pipe,
    Filter,
    MapEach,
    Reduce,
}

#[derive(Debug)]
pub enum Type {
    Int,
    Float,
    Str,
    Bool,
    Null,
    Array(Box<Type>),
}

#[derive(Debug)]
pub struct Param {
    pub name: String,
    pub ty: Option<Type>,
}

#[derive(Debug)]
#[allow(inconsistent_fields)]
pub enum Node {
    Int(i64),
    Float(Real),
    Str(String),
    Bool(bool),
    Null,
    Ident(String),
    Bind { name: String, mutable: bool, ty: Option<Type>, value: Box<Node> },
    Assign { name: String, value: Box<Node> },
    Fn {
        name: Option<String>,
        params: Vec<Param>,
        ret: Option<Type>,
        body: Vec<Node>,
        stateful: bool,
    },
    Call { callee: Box<Node>, args: Vec<Node> },
    If { cond: Box<Node>, then_branch: Box<Node>, else_branch: Option<Box<Node>> },
    While { cond: Box<Node>, body: Vec<Node> },
    ForEach { var: String, iterable: Box<Node>, body: Vec<Node> },
    Repeat { count: Box<Node>, body: Vec<Node> },
    Return(Box<Node>),
    Block(Vec<Node>),
    Array(Vec<Node>),
    Index { object: Box<Node>, index: Box<Node> },
    Range { start: Box<Node>, end: Box<Node> },
    Op { op: OpKind, args: Vec<Node> },
    Pipe { kind: PipeKind, data: Box<Node>, func: Box<Node>, init: Option<Box<Node>> },
    Adapt { target: String, body: Vec<Node> },
    Choice { options: Vec<Node> },
    Guard { assumption: Box<Node>, fast_path: Box<Node>, fallback: Box<Node> },
    Strategy { options: Vec<Node> },
    Feedback { target: Box<Node>, reward: Box<Node> },
    Builtin { name: String, args: Vec<Node> },
}

#[derive(Debug)]
pub struct Program {
    pub nodes: Vec<Node>,
}

/// A parameter with its name as a character sequence.
pub struct ParamView {
    pub name: Seq<char>,
    pub ty: Option<Type>,
}

/// A tree with texts and lists as sequences.
#[allow(inconsistent_fields)]
pub enum Ast {
    Int(i64),
    Float(Real),
    Str(Seq<char>),
    Bool(bool),
    Null,
    Ident(Seq<char>),
    Bind { name: Seq<char>, mutable: bool, ty: Option<Type>, value: Box<Ast> },
    Assign { name: Seq<char>, value: Box<Ast> },
    Fn {
        name: Option<Seq<char>>,
        params: Seq<ParamView>,
        ret: Option<Type>,
        body: Seq<Ast>,
        stateful: bool,
    },
    Call { callee: Box<Ast>, args: Seq<Ast> },
    If { cond: Box<Ast>, then_branch: Box<Ast>, else_branch: Option<Box<Ast>> },
    While { cond: Box<Ast>, body: Seq<Ast> },
    ForEach { var: Seq<char>, iterable: Box<Ast>, body: Seq<Ast> },
    Repeat { count: Box<Ast>, body: Seq<Ast> },
    Return(Box<Ast>),
    Block(Seq<Ast>),
    Array(Seq<Ast>),
    Index { object: Box<Ast>, index: Box<Ast> },
    Range { start: Box<Ast>, end: Box<Ast> },
    Op { op: OpKind, args: Seq<Ast> },
    Pipe { kind: PipeKind, data: Box<Ast>, func: Box<Ast>, init: Option<Box<Ast>> },
    Adapt { target: Seq<char>, body: Seq<Ast> },
    Choice { options: Seq<Ast> },
    Guard { assumption: Box<Ast>, fast_path: Box<Ast>, fallback: Box<Ast> },
    Strategy { options: Seq<Ast> },
    Feedback { target: Box<Ast>, reward: Box<Ast> },
    Builtin { name: Seq<char>, args: Seq<Ast> },
}

pub open spec fn param_views(s: Seq<Param>) -> Seq<ParamView> {
    s.map_values(|p: Param| ParamView { name: p.name@, ty: p.ty })
}

pub open spec fn opt_text(s: Option<String>) -> Option<Seq<char>> {
    match s {
        Some(t) => Some(t@),
        None => None,
    }
}

/// The tree that a node stands for.
pub open spec fn ast(n: Node) -> Ast
    decreases n,
{
    match n {
        Node::Int(v) => Ast::Int(v),
        Node::Float(v) => Ast::Float(v),
        Node::Str(s) => Ast::Str(s@),
        Node::Bool(b) => Ast::Bool(b),
        Node::Null => Ast::Null,
        Node::Ident(s) => Ast::Ident(s@),
        Node::Bind { name, mutable, ty, value } => Ast::Bind {
            name: name@,
            mutable,
            ty,
            value: Box::new(ast(*value)),
        },
        Node::Assign { name, value } => Ast::Assign { name: name@, value: Box::new(ast(*value)) },
        Node::Fn { name, params, ret, body, stateful } => Ast::Fn {
            name: opt_text(name),
            params: param_views(params@),
            ret,
            body: asts(body@),
            stateful,
        },
        Node::Call { callee, args } => Ast::Call {
            callee: Box::new(ast(*callee)),
            args: asts(args@),
        },
        Node::If { cond, then_branch, else_branch } => Ast::If {
            cond: Box::new(ast(*cond)),
            then_branch: Box::new(ast(*then_branch)),
            else_branch: match else_branch {
                Some(e) => Some(Box::new(ast(*e))),
                None => None,
            },
        },
        Node::While { cond, body } => Ast::While {
            cond: Box::new(ast(*cond)),
            body: asts(body@),
        },
        Node::ForEach { var, iterable, body } => Ast::ForEach {
            var: var@,
            iterable: Box::new(ast(*iterable)),
            body: asts(body@),
        },
        Node::Repeat { count, body } => Ast::Repeat {
            count: Box::new(ast(*count)),
            body: asts(body@),
        },
        Node::Return(v) => Ast::Return(Box::new(ast(*v))),
        Node::Block(v) => Ast::Block(asts(v@)),
        Node::Array(v) => Ast::Array(asts(v@)),
        Node::Index { object, index } => Ast::Index {
            object: Box::new(ast(*object)),
            index: Box::new(ast(*index)),
        },
        Node::Range { start, end } => Ast::Range {
            start: Box::new(ast(*start)),
            end: Box::new(ast(*end)),
        },
        Node::Op { op, args } => Ast::Op { op, args: asts(args@) },
        Node::Pipe { kind, data, func, init } => Ast::Pipe {
            kind,
            data: Box::new(ast(*data)),
            func: Box::new(ast(*func)),
            init: match init {
                Some(e) => Some(Box::new(ast(*e))),
                None => None,
            },
        },
        Node::Adapt { target, body } => Ast::Adapt { target: target@, body: asts(body@) },
        Node::Choice { options } => Ast::Choice { options: asts(options@) },
        Node::Guard { assumption, fast_path, fallback } => Ast::Guard {
            assumption: Box::new(ast(*assumption)),
            fast_path: Box::new(ast(*fast_path)),
            fallback: Box::new(ast(*fallback)),
        },
        Node::Strategy { options } => Ast::Strategy { options: asts(options@) },
        Node::Feedback { target, reward } => Ast::Feedback {
            target: Box::new(ast(*target)),
            reward: Box::new(ast(*reward)),
        },
        Node::Builtin { name, args } => Ast::Builtin { name: name@, args: asts(args@) },
    }
}

/// The trees that a list of nodes stands for.
pub open spec fn asts(s: Seq<Node>) -> Seq<Ast>
    decreases s,
{
    Seq::new(
        s.len(),
        |i: int|
            if 0 <= i < s.len() {
                ast(s[i])
            } else {
                Ast::Null
            },
    )
}

pub proof fn asts_push(s: Seq<Node>, n: Node)
    ensures
        asts(s.push(n)) == asts(s).push(ast(n)),
        asts(s).len() == s.len(),
{
    assert(asts(s.push(n)) =~= asts(s).push(ast(n)));
}

} // verus!
