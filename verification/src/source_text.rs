//! Programs as source text.
use crate::ast::{Ast, Node, OpKind, Param, ParamView, PipeKind, Type, ast, asts, opt_text, param_views};
use crate::message::{Part, Piece, message_parts, parts_assoc, say, say_number, t};
use crate::parse::{trim, trimmed};
use crate::strings::{cat2, cat3, cat4, cat5, join, joined};
use crate::text::{dec, push_i64};
use crate::values::texts;
use vstd::prelude::*;
use vstd::string::StringExecFns;

verus! {

/// A type as source text, with a blank in front.
pub open spec fn type_text(ty: Type) -> Seq<char>
    decreases ty,
{
    match ty {
        Type::Int => " :i"@,
        Type::Float => " :f"@,
        Type::Str => " :s"@,
        Type::Bool => " :b"@,
        Type::Null => " :n"@,
        Type::Array(inner) => " :["@ + trimmed(type_text(*inner)) + "]"@,
    }
}

/// A type as source text, with a blank in front.
pub fn type_str(ty: &Type) -> (s: String)
    ensures
        s@ == type_text(*ty),
    decreases ty,
{
    match ty {
        Type::Int => String::from_str(" :i"),
        Type::Float => String::from_str(" :f"),
        Type::Str => String::from_str(" :s"),
        Type::Bool => String::from_str(" :b"),
        Type::Null => String::from_str(" :n"),
        Type::Array(inner) => cat3(" :[", trim(type_str(inner).as_str()).as_str(), "]"),
    }
}

pub open spec fn opt_type(ty: Option<Type>) -> Seq<char> {
    match ty {
        Some(t) => type_text(t),
        None => Seq::empty(),
    }
}

fn opt_type_str(ty: &Option<Type>) -> (s: String)
    ensures
        s@ == opt_type(*ty),
{
    match ty {
        Some(t) => type_str(t),
        None => String::new(),
    }
}

pub open spec fn op_sign(k: OpKind) -> Seq<char> {
    match k {
        OpKind::Add => "+"@,
        OpKind::Sub => "-"@,
        OpKind::Mul => "*"@,
        OpKind::Div => "/"@,
        OpKind::Mod => "%"@,
        OpKind::Eq => "=="@,
        OpKind::Neq => "!="@,
        OpKind::Lt => "<"@,
        OpKind::Gt => ">"@,
        OpKind::Lte => "<="@,
        OpKind::Gte => ">="@,
        OpKind::And => "&&"@,
        OpKind::Or => "||"@,
        OpKind::Not => "not"@,
        OpKind::Neg => "neg"@,
    }
}

fn sign_of(k: OpKind) -> (s: &'static str)
    ensures
        s@ == op_sign(k),
{
    match k {
        OpKind::Add => "+",
        OpKind::Sub => "-",
        OpKind::Mul => "*",
        OpKind::Div => "/",
        OpKind::Mod => "%",
        OpKind::Eq => "==",
        OpKind::Neq => "!=",
        OpKind::Lt => "<",
        OpKind::Gt => ">",
        OpKind::Lte => "<=",
        OpKind::Gte => ">=",
        OpKind::And => "&&",
        OpKind::Or => "||",
        OpKind::Not => "not",
        OpKind::Neg => "neg",
    }
}

pub open spec fn pipe_sign(k: PipeKind) -> Seq<char> {
    match k {
        PipeKind::Pipe => "|>"@,
        PipeKind::Filter => "|?"@,
        PipeKind::MapEach => "|*"@,
        PipeKind::Reduce => "|+"@,
    }
}

fn pipe_of(k: PipeKind) -> (s: &'static str)
    ensures
        s@ == pipe_sign(k),
{
    match k {
        PipeKind::Pipe => "|>",
        PipeKind::Filter => "|?",
        PipeKind::MapEach => "|*",
        PipeKind::Reduce => "|+",
    }
}

/// Parameters, each with its type.
pub open spec fn params_text(s: Seq<ParamView>) -> Seq<Seq<char>> {
    s.map_values(|p: ParamView| p.name + opt_type(p.ty))
}

fn params_str(v: &Vec<Param>) -> (s: String)
    ensures
        s@ == joined(params_text(param_views(v@)), " "@),
{
    let mut r: Vec<String> = Vec::new();
    let mut i: usize = 0;
    while i < v.len()
        invariant
            i <= v.len(),
            r@.len() == i,
            forall|k: int| 0 <= k < i ==> (#[trigger] r@[k])@ == v@[k].name@ + opt_type(v@[k].ty),
        decreases v.len() - i,
    {
        r.push(cat2(v[i].name.as_str(), opt_type_str(&v[i].ty).as_str()));
        i = i + 1;
    }
    assert(texts(r@) =~= params_text(param_views(v@)));
    join(&r, " ")
}

/// The head of a function: its tag, its name where it has one, its parameters
/// and the type of its result.
pub open spec fn fn_head(
    name: Option<Seq<char>>,
    params: Seq<ParamView>,
    ret: Option<Type>,
    stateful: bool,
) -> Seq<char> {
    let ps = joined(params_text(params), " "@);
    match name {
        Some(n) => (if stateful {
            "(F! "@
        } else {
            "(F "@
        }) + n + " ("@ + ps + ")"@ + opt_type(ret) + " "@,
        None => "(\\ ("@ + ps + ")"@ + opt_type(ret) + " "@,
    }
}

fn fn_head_str(name: &Option<String>, params: &Vec<Param>, ret: &Option<Type>, stateful: bool) -> (s:
    String)
    ensures
        s@ == fn_head(opt_text(*name), param_views(params@), *ret, stateful),
{
    let ps = params_str(params);
    let r = opt_type_str(ret);
    match name {
        Some(n) => {
            let mut s = cat5(
                if stateful {
                    "(F! "
                } else {
                    "(F "
                },
                n.as_str(),
                " (",
                ps.as_str(),
                ")",
            );
            s.append(r.as_str());
            s.append(" ");
            s
        },
        None => cat5("(\\ (", ps.as_str(), ")", r.as_str(), " "),
    }
}

/// A tree as source text.
pub open spec fn source(n: Ast) -> Seq<Part>
    decreases n, 1int,
{
    match n {
        Ast::Int(v) => t(dec(v as int)),
        Ast::Float(f) => seq![Part::Number(f)],
        Ast::Str(s) => t("\""@ + s + "\""@),
        Ast::Bool(b) => t(
            if b {
                "true"@
            } else {
                "false"@
            },
        ),
        Ast::Null => t("null"@),
        Ast::Ident(s) => t(s),
        Ast::Return(v) => t("(^ "@) + source(*v) + t(")"@),
        Ast::Block(v) => t("(B "@) + sources(v) + t(")"@),
        Ast::Array(v) => t("(A "@) + sources(v) + t(")"@),
        Ast::Fn { name, params, ret, body, stateful } => t(fn_head(name, params, ret, stateful))
            + sources(body) + t(")"@),
        Ast::Bind { name, mutable, ty, value } => t((if mutable { "($! "@ } else { "($ "@ }) + name + opt_type(ty) + " "@) + source(*value) + t(")"@),
        Ast::Assign { name, value } => t("(= "@ + name + " "@) + source(*value) + t(")"@),
        Ast::Call { callee, args } => t("("@) + source(*callee) + args_source(args) + t(")"@),
        Ast::If { cond, then_branch, else_branch } => t("(? "@) + source(*cond) + t(" "@) + source(*then_branch) + opt_source(else_branch) + t(")"@),
        Ast::While { cond, body } => t("(W "@) + source(*cond) + t(" "@) + sources(body) + t(")"@),
        Ast::ForEach { var, iterable, body } => t("(each "@ + var + " "@) + source(*iterable) + t(" "@) + sources(body) + t(")"@),
        Ast::Repeat { count, body } => t("(# "@) + source(*count) + t(" "@) + sources(body) + t(")"@),
        Ast::Index { object, index } => t("(I "@) + source(*object) + t(" "@) + source(*index) + t(")"@),
        Ast::Range { start, end } => t("(.. "@) + source(*start) + t(" "@) + source(*end) + t(")"@),
        Ast::Op { op, args } => t("("@ + op_sign(op) + " "@) + sources(args) + t(")"@),
        Ast::Pipe { kind, data, func, init } => t("("@ + pipe_sign(kind) + " "@) + source(*data) + t(" "@) + source(*func) + opt_source(init) + t(")"@),
        Ast::Adapt { target, body } => t("(~> "@ + target + " "@) + sources(body) + t(")"@),
        Ast::Choice { options } => t("(choice "@) + sources(options) + t(")"@),
        Ast::Guard { assumption, fast_path, fallback } => t("(guard "@) + source(*assumption) + t(" "@) + source(*fast_path) + t(" "@) + source(*fallback) + t(")"@),
        Ast::Strategy { options } => t("(strategy "@) + sources(options) + t(")"@),
        Ast::Feedback { target, reward } => t("(feedback "@) + source(*target) + t(" "@) + source(*reward) + t(")"@),
        Ast::Builtin { name, args } => t("(!"@ + name) + args_source(args) + t(")"@),
    }
}

/// Trees as source texts with blanks between them.
pub open spec fn sources(s: Seq<Ast>) -> Seq<Part>
    decreases s, 0int,
{
    if s.len() == 0 {
        Seq::empty()
    } else if s.len() == 1 {
        source(s[0])
    } else {
        sources(s.drop_last()) + t(" "@) + source(s.last())
    }
}

pub open spec fn opt_source(n: Option<Box<Ast>>) -> Seq<Part>
    decreases n, 0int,
{
    match n {
        Some(x) => t(" "@) + source(*x),
        None => Seq::empty(),
    }
}

/// Arguments with a blank in front, where there are any.
pub open spec fn args_source(s: Seq<Ast>) -> Seq<Part>
    decreases s, 1int,
{
    if s.len() == 0 {
        Seq::empty()
    } else {
        t(" "@) + sources(s)
    }
}

/// Writes a node as source text.
pub fn write_source(node: &Node, out: &mut Vec<Piece>)
    ensures
        message_parts(final(out)@) == message_parts(old(out)@) + source(ast(*node)),
    decreases node, 1int,
{
    broadcast use parts_assoc;

    match node {
        Node::Int(v) => {
            let mut s = String::new();
            push_i64(&mut s, *v);
            assert(s@ =~= dec(*v as int));
            say(out, s.as_str());
        },
        Node::Float(f) => say_number(out, *f),
        Node::Str(s) => say(out, cat3("\"", s.as_str(), "\"").as_str()),
        Node::Bool(b) => say(
            out,
            if *b {
                "true"
            } else {
                "false"
            },
        ),
        Node::Null => say(out, "null"),
        Node::Ident(s) => say(out, s.as_str()),
        Node::Return(v) => {
            say(out, "(^ ");
            write_source(v, out);
            say(out, ")");
        },
        Node::Block(v) => {
            say(out, "(B ");
            write_sources(v, out);
            say(out, ")");
        },
        Node::Array(v) => {
            say(out, "(A ");
            write_sources(v, out);
            say(out, ")");
        },
        Node::Fn { name, params, ret, body, stateful } => {
            say(out, fn_head_str(name, params, ret, *stateful).as_str());
            write_sources(body, out);
            say(out, ")");
        },
        Node::Bind { .. } => write_bind(node, out),
        Node::Assign { .. } => write_assign(node, out),
        Node::Call { .. } => write_call(node, out),
        Node::If { .. } => write_if(node, out),
        Node::While { .. } => write_while(node, out),
        Node::ForEach { .. } => write_for_each(node, out),
        Node::Repeat { .. } => write_repeat(node, out),
        Node::Index { .. } => write_index(node, out),
        Node::Range { .. } => write_range(node, out),
        Node::Op { .. } => write_op(node, out),
        Node::Pipe { .. } => write_pipe(node, out),
        Node::Adapt { .. } => write_adapt(node, out),
        Node::Choice { .. } => write_choice(node, out),
        Node::Guard { .. } => write_guard(node, out),
        Node::Strategy { .. } => write_strategy(node, out),
        Node::Feedback { .. } => write_feedback(node, out),
        Node::Builtin { .. } => write_builtin(node, out),
    }
}

/// Writes nodes as source texts with blanks between them.
fn write_sources(v: &Vec<Node>, out: &mut Vec<Piece>)
    ensures
        message_parts(final(out)@) == message_parts(old(out)@) + sources(asts(v@)),
    decreases v, 2int,
{
    let ghost before = message_parts(out@);
    let ghost all = asts(v@);
    if v.len() == 0 {
        assert(before + Seq::<Part>::empty() =~= before);
        return ;
    }
    assert(decreases_to!(v => v@[0]));
    write_source(&v[0], out);
    let mut i: usize = 1;
    assert(all.take(1)[0] == ast(v@[0]));
    while i < v.len()
        invariant
            1 <= i <= v.len(),
            all == asts(v@),
            message_parts(out@) == before + sources(all.take(i as int)),
        decreases v.len() - i,
    {
        broadcast use parts_assoc;

        assert(decreases_to!(v => v@[i as int]));
        assert(all.take(i + 1).drop_last() =~= all.take(i as int));
        assert(all.take(i + 1).last() == ast(v@[i as int]));
        say(out, " ");
        write_source(&v[i], out);
        i = i + 1;
    }
    assert(all.take(i as int) =~= all);
}

/// What an optional node stands for.
pub open spec fn opt_ast(n: Option<Box<Node>>) -> Option<Box<Ast>> {
    match n {
        Some(e) => Some(Box::new(ast(*e))),
        None => None,
    }
}

fn write_opt(n: &Option<Box<Node>>, out: &mut Vec<Piece>)
    ensures
        message_parts(final(out)@) == message_parts(old(out)@) + opt_source(opt_ast(*n)),
    decreases n, 2int,
{
    broadcast use parts_assoc;

    let ghost before = message_parts(out@);
    if let Some(x) = n {
        say(out, " ");
        write_source(x, out);
    } else {
        assert(before + Seq::<Part>::empty() =~= before);
    }
}

fn write_args(v: &Vec<Node>, out: &mut Vec<Piece>)
    ensures
        message_parts(final(out)@) == message_parts(old(out)@) + args_source(asts(v@)),
    decreases v, 3int,
{
    broadcast use parts_assoc;

    let ghost before = message_parts(out@);
    if v.len() > 0 {
        say(out, " ");
        write_sources(v, out);
    } else {
        assert(before + Seq::<Part>::empty() =~= before);
    }
}

fn write_bind(node: &Node, out: &mut Vec<Piece>)
    requires
        *node is Bind,
    ensures
        message_parts(final(out)@) == message_parts(old(out)@) + source(ast(*node)),
    decreases node, 0int,
{
    broadcast use parts_assoc;

    let ghost before = message_parts(out@);
    if let Node::Bind { name, mutable, ty, value } = node {
        say(out, cat4(if *mutable { "($! " } else { "($ " }, name.as_str(), opt_type_str(ty).as_str(), " ").as_str());
        write_source(value, out);
        say(out, ")");
        assert(message_parts(out@) =~= before + source(ast(*node)));
    }
}

fn write_assign(node: &Node, out: &mut Vec<Piece>)
    requires
        *node is Assign,
    ensures
        message_parts(final(out)@) == message_parts(old(out)@) + source(ast(*node)),
    decreases node, 0int,
{
    broadcast use parts_assoc;

    let ghost before = message_parts(out@);
    if let Node::Assign { name, value } = node {
        say(out, cat3("(= ", name.as_str(), " ").as_str());
        write_source(value, out);
        say(out, ")");
        assert(message_parts(out@) =~= before + source(ast(*node)));
    }
}

fn write_call(node: &Node, out: &mut Vec<Piece>)
    requires
        *node is Call,
    ensures
        message_parts(final(out)@) == message_parts(old(out)@) + source(ast(*node)),
    decreases node, 0int,
{
    broadcast use parts_assoc;

    let ghost before = message_parts(out@);
    if let Node::Call { callee, args } = node {
        say(out, "(");
        write_source(callee, out);
        write_args(args, out);
        say(out, ")");
        assert(message_parts(out@) =~= before + source(ast(*node)));
    }
}

fn write_if(node: &Node, out: &mut Vec<Piece>)
    requires
        *node is If,
    ensures
        message_parts(final(out)@) == message_parts(old(out)@) + source(ast(*node)),
    decreases node, 0int,
{
    broadcast use parts_assoc;

    let ghost before = message_parts(out@);
    if let Node::If { cond, then_branch, else_branch } = node {
        say(out, "(? ");
        write_source(cond, out);
        say(out, " ");
        write_source(then_branch, out);
        write_opt(else_branch, out);
        say(out, ")");
        assert(message_parts(out@) =~= before + source(ast(*node)));
    }
}

fn write_while(node: &Node, out: &mut Vec<Piece>)
    requires
        *node is While,
    ensures
        message_parts(final(out)@) == message_parts(old(out)@) + source(ast(*node)),
    decreases node, 0int,
{
    broadcast use parts_assoc;

    let ghost before = message_parts(out@);
    if let Node::While { cond, body } = node {
        say(out, "(W ");
        write_source(cond, out);
        say(out, " ");
        write_sources(body, out);
        say(out, ")");
        assert(message_parts(out@) =~= before + source(ast(*node)));
    }
}

fn write_for_each(node: &Node, out: &mut Vec<Piece>)
    requires
        *node is ForEach,
    ensures
        message_parts(final(out)@) == message_parts(old(out)@) + source(ast(*node)),
    decreases node, 0int,
{
    broadcast use parts_assoc;

    let ghost before = message_parts(out@);
    if let Node::ForEach { var, iterable, body } = node {
        say(out, cat3("(each ", var.as_str(), " ").as_str());
        write_source(iterable, out);
        say(out, " ");
        write_sources(body, out);
        say(out, ")");
        assert(message_parts(out@) =~= before + source(ast(*node)));
    }
}

fn write_repeat(node: &Node, out: &mut Vec<Piece>)
    requires
        *node is Repeat,
    ensures
        message_parts(final(out)@) == message_parts(old(out)@) + source(ast(*node)),
    decreases node, 0int,
{
    broadcast use parts_assoc;

    let ghost before = message_parts(out@);
    if let Node::Repeat { count, body } = node {
        say(out, "(# ");
        write_source(count, out);
        say(out, " ");
        write_sources(body, out);
        say(out, ")");
        assert(message_parts(out@) =~= before + source(ast(*node)));
    }
}

fn write_index(node: &Node, out: &mut Vec<Piece>)
    requires
        *node is Index,
    ensures
        message_parts(final(out)@) == message_parts(old(out)@) + source(ast(*node)),
    decreases node, 0int,
{
    broadcast use parts_assoc;

    let ghost before = message_parts(out@);
    if let Node::Index { object, index } = node {
        say(out, "(I ");
        write_source(object, out);
        say(out, " ");
        write_source(index, out);
        say(out, ")");
        assert(message_parts(out@) =~= before + source(ast(*node)));
    }
}

fn write_range(node: &Node, out: &mut Vec<Piece>)
    requires
        *node is Range,
    ensures
        message_parts(final(out)@) == message_parts(old(out)@) + source(ast(*node)),
    decreases node, 0int,
{
    broadcast use parts_assoc;

    let ghost before = message_parts(out@);
    if let Node::Range { start, end } = node {
        say(out, "(.. ");
        write_source(start, out);
        say(out, " ");
        write_source(end, out);
        say(out, ")");
        assert(message_parts(out@) =~= before + source(ast(*node)));
    }
}

fn write_op(node: &Node, out: &mut Vec<Piece>)
    requires
        *node is Op,
    ensures
        message_parts(final(out)@) == message_parts(old(out)@) + source(ast(*node)),
    decreases node, 0int,
{
    broadcast use parts_assoc;

    let ghost before = message_parts(out@);
    if let Node::Op { op, args } = node {
        say(out, cat3("(", sign_of(*op), " ").as_str());
        write_sources(args, out);
        say(out, ")");
        assert(message_parts(out@) =~= before + source(ast(*node)));
    }
}

fn write_pipe(node: &Node, out: &mut Vec<Piece>)
    requires
        *node is Pipe,
    ensures
        message_parts(final(out)@) == message_parts(old(out)@) + source(ast(*node)),
    decreases node, 0int,
{
    broadcast use parts_assoc;

    let ghost before = message_parts(out@);
    if let Node::Pipe { kind, data, func, init } = node {
        say(out, cat3("(", pipe_of(*kind), " ").as_str());
        write_source(data, out);
        say(out, " ");
        write_source(func, out);
        write_opt(init, out);
        say(out, ")");
        assert(message_parts(out@) =~= before + source(ast(*node)));
    }
}

fn write_adapt(node: &Node, out: &mut Vec<Piece>)
    requires
        *node is Adapt,
    ensures
        message_parts(final(out)@) == message_parts(old(out)@) + source(ast(*node)),
    decreases node, 0int,
{
    broadcast use parts_assoc;

    let ghost before = message_parts(out@);
    if let Node::Adapt { target, body } = node {
        say(out, cat3("(~> ", target.as_str(), " ").as_str());
        write_sources(body, out);
        say(out, ")");
        assert(message_parts(out@) =~= before + source(ast(*node)));
    }
}

fn write_choice(node: &Node, out: &mut Vec<Piece>)
    requires
        *node is Choice,
    ensures
        message_parts(final(out)@) == message_parts(old(out)@) + source(ast(*node)),
    decreases node, 0int,
{
    broadcast use parts_assoc;

    let ghost before = message_parts(out@);
    if let Node::Choice { options } = node {
        say(out, "(choice ");
        write_sources(options, out);
        say(out, ")");
        assert(message_parts(out@) =~= before + source(ast(*node)));
    }
}

fn write_guard(node: &Node, out: &mut Vec<Piece>)
    requires
        *node is Guard,
    ensures
        message_parts(final(out)@) == message_parts(old(out)@) + source(ast(*node)),
    decreases node, 0int,
{
    broadcast use parts_assoc;

    let ghost before = message_parts(out@);
    if let Node::Guard { assumption, fast_path, fallback } = node {
        say(out, "(guard ");
        write_source(assumption, out);
        say(out, " ");
        write_source(fast_path, out);
        say(out, " ");
        write_source(fallback, out);
        say(out, ")");
        assert(message_parts(out@) =~= before + source(ast(*node)));
    }
}

fn write_strategy(node: &Node, out: &mut Vec<Piece>)
    requires
        *node is Strategy,
    ensures
        message_parts(final(out)@) == message_parts(old(out)@) + source(ast(*node)),
    decreases node, 0int,
{
    broadcast use parts_assoc;

    let ghost before = message_parts(out@);
    if let Node::Strategy { options } = node {
        say(out, "(strategy ");
        write_sources(options, out);
        say(out, ")");
        assert(message_parts(out@) =~= before + source(ast(*node)));
    }
}

fn write_feedback(node: &Node, out: &mut Vec<Piece>)
    requires
        *node is Feedback,
    ensures
        message_parts(final(out)@) == message_parts(old(out)@) + source(ast(*node)),
    decreases node, 0int,
{
    broadcast use parts_assoc;

    let ghost before = message_parts(out@);
    if let Node::Feedback { target, reward } = node {
        say(out, "(feedback ");
        write_source(target, out);
        say(out, " ");
        write_source(reward, out);
        say(out, ")");
        assert(message_parts(out@) =~= before + source(ast(*node)));
    }
}

fn write_builtin(node: &Node, out: &mut Vec<Piece>)
    requires
        *node is Builtin,
    ensures
        message_parts(final(out)@) == message_parts(old(out)@) + source(ast(*node)),
    decreases node, 0int,
{
    broadcast use parts_assoc;

    let ghost before = message_parts(out@);
    if let Node::Builtin { name, args } = node {
        say(out, cat2("(!", name.as_str()).as_str());
        write_args(args, out);
        say(out, ")");
        assert(message_parts(out@) =~= before + source(ast(*node)));
    }
}

/// A node as source text.
pub fn node_to_source(node: &Node) -> (m: Vec<Piece>)
    ensures
        message_parts(m@) == source(ast(*node)),
{
    let mut m: Vec<Piece> = Vec::new();
    assert(message_parts(m@) =~= Seq::<Part>::empty());
    write_source(node, &mut m);
    assert(Seq::<Part>::empty() + source(ast(*node)) =~= source(ast(*node)));
    m
}

} // verus!
