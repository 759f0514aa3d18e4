//! Runtime values and what the operations make of them.
//!
//! An operation either has its result at once, fails with a message, stops
//! the program, or needs a number or a text that only the host can make.

use crate::number::Real;
use crate::text::{dec, push_i64};
use vstd::prelude::*;
use vstd::string::StringExecFns;
use vstd::utf8::*;

verus! {

/// A value during a run.
#[derive(Debug)]
#[allow(inconsistent_fields)]
pub enum GVal {
    Int(i64),
    Float(Real),
    Str(String),
    Bool(bool),
    Null,
    Array(Vec<GVal>),
    GraphFn { param_slots: Vec<u32>, body_nodes: Vec<u32> },
}

/// A value with texts and lists as sequences.
pub enum Val {
    Int(i64),
    Float(Real),
    Str(Seq<char>),
    Bool(bool),
    Null,
    Array(Seq<Val>),
    GraphFn { param_slots: Seq<u32>, body_nodes: Seq<u32> },
}

/// What a runtime value stands for.
pub open spec fn val(g: GVal) -> Val
    decreases g,
{
    match g {
        GVal::Int(n) => Val::Int(n),
        GVal::Float(f) => Val::Float(f),
        GVal::Str(s) => Val::Str(s@),
        GVal::Bool(b) => Val::Bool(b),
        GVal::Null => Val::Null,
        GVal::Array(a) => Val::Array(vals(a@)),
        GVal::GraphFn { param_slots, body_nodes } => Val::GraphFn {
            param_slots: param_slots@,
            body_nodes: body_nodes@,
        },
    }
}

pub open spec fn vals(s: Seq<GVal>) -> Seq<Val>
    decreases s,
{
    Seq::new(
        s.len(),
        |i: int|
            if 0 <= i < s.len() {
                val(s[i])
            } else {
                Val::Null
            },
    )
}

pub proof fn vals_push(s: Seq<GVal>, g: GVal)
    ensures
        vals(s.push(g)) == vals(s).push(val(g)),
        vals(s).len() == s.len(),
{
    assert(vals(s.push(g)) =~= vals(s).push(val(g)));
}

pub open spec fn texts(s: Seq<String>) -> Seq<Seq<char>> {
    s.map_values(|t: String| t@)
}

pub fn copy_slots(v: &Vec<u32>) -> (r: Vec<u32>)
    ensures
        r@ == v@,
{
    let mut r: Vec<u32> = Vec::new();
    let mut i: usize = 0;
    while i < v.len()
        invariant
            i <= v.len(),
            r@ == v@.take(i as int),
        decreases v.len() - i,
    {
        r.push(v[i]);
        i = i + 1;
        assert(v@.take(i as int) == v@.take(i - 1).push(v@[i - 1]));
    }
    assert(v@.take(i as int) == v@);
    r
}

/// A value that stands for the same.
pub fn copy_val(g: &GVal) -> (r: GVal)
    ensures
        val(r) == val(*g),
    decreases g, 0int,
{
    match g {
        GVal::Int(n) => GVal::Int(*n),
        GVal::Float(f) => GVal::Float(*f),
        GVal::Str(s) => GVal::Str(s.clone()),
        GVal::Bool(b) => GVal::Bool(*b),
        GVal::Null => GVal::Null,
        GVal::Array(a) => GVal::Array(copy_vals(a)),
        GVal::GraphFn { param_slots, body_nodes } => GVal::GraphFn {
            param_slots: copy_slots(param_slots),
            body_nodes: copy_slots(body_nodes),
        },
    }
}

pub fn copy_vals(a: &Vec<GVal>) -> (r: Vec<GVal>)
    ensures
        vals(r@) == vals(a@),
        r@.len() == a@.len(),
    decreases a, 1int,
{
    let mut r: Vec<GVal> = Vec::new();
    let mut i: usize = 0;
    while i < a.len()
        invariant
            i <= a.len(),
            r@.len() == i,
            vals(r@) == vals(a@).take(i as int),
        decreases a.len() - i,
    {
        assert(decreases_to!(a => a@[i as int]));
        let x = copy_val(&a[i]);
        proof {
            vals_push(r@, x);
        }
        r.push(x);
        i = i + 1;
        assert(vals(a@).take(i as int) == vals(a@).take(i - 1).push(val(a@[i - 1])));
    }
    assert(vals(a@).take(i as int) == vals(a@));
    r
}

impl Val {
    pub open spec fn truthy(self) -> bool {
        match self {
            Val::Bool(b) => b,
            Val::Null => false,
            Val::Int(n) => n != 0,
            Val::Str(s) => s.len() > 0,
            Val::Array(a) => a.len() > 0,
            _ => true,
        }
    }

    pub open spec fn kind(self) -> Seq<char> {
        match self {
            Val::Int(_) => "int"@,
            Val::Float(_) => "float"@,
            Val::Str(_) => "str"@,
            Val::Bool(_) => "bool"@,
            Val::Null => "null"@,
            Val::Array(_) => "array"@,
            Val::GraphFn { .. } => "fn"@,
        }
    }
}

impl GVal {
    /// Whether a condition with this value holds.
    pub fn is_truthy(&self) -> (b: bool)
        ensures
            b == val(*self).truthy(),
    {
        match self {
            GVal::Bool(b) => *b,
            GVal::Null => false,
            GVal::Int(n) => *n != 0,
            GVal::Str(s) => !s.as_str().is_empty(),
            GVal::Array(a) => a.len() > 0,
            _ => true,
        }
    }

    /// The name of the value's type.
    pub fn kind_name(&self) -> (s: &'static str)
        ensures
            s@ == val(*self).kind(),
    {
        match self {
            GVal::Int(_) => "int",
            GVal::Float(_) => "float",
            GVal::Str(_) => "str",
            GVal::Bool(_) => "bool",
            GVal::Null => "null",
            GVal::Array(_) => "array",
            GVal::GraphFn { .. } => "fn",
        }
    }
}

// ---- Showing values ----

/// The numbers inside a value, in the order in which they are shown.
pub open spec fn reals_in(v: Val) -> Seq<Real>
    decreases v, 0int,
{
    match v {
        Val::Float(f) => seq![f],
        Val::Array(a) => reals_in_all(a),
        _ => Seq::empty(),
    }
}

pub open spec fn reals_in_all(s: Seq<Val>) -> Seq<Real>
    decreases s, 0int,
{
    if s.len() == 0 {
        Seq::empty()
    } else {
        reals_in_all(s.drop_last()) + reals_in(s.last())
    }
}

/// A value as text, given the texts of the numbers inside it.
pub open spec fn show(v: Val, t: Seq<Seq<char>>) -> Seq<char>
    decreases v, 0int,
{
    match v {
        Val::Int(n) => dec(n as int),
        Val::Float(_) => t[0],
        Val::Str(s) => s,
        Val::Bool(b) => if b {
            "true"@
        } else {
            "false"@
        },
        Val::Null => "null"@,
        Val::Array(a) => "(A"@ + show_all(a, t) + ")"@,
        Val::GraphFn { .. } => "(fn)"@,
    }
}

/// The items, each behind a blank.
pub open spec fn show_all(s: Seq<Val>, t: Seq<Seq<char>>) -> Seq<char>
    decreases s, 0int,
{
    if s.len() == 0 {
        Seq::empty()
    } else {
        let n = reals_in_all(s.drop_last()).len() as int;
        show_all(s.drop_last(), t.take(n)) + " "@ + show(s.last(), t.skip(n))
    }
}

/// Appends the numbers inside a value.
pub fn collect_reals(v: &GVal, out: &mut Vec<Real>)
    ensures
        final(out)@ == old(out)@ + reals_in(val(*v)),
    decreases v, 0int,
{
    match v {
        GVal::Float(f) => out.push(*f),
        GVal::Array(a) => collect_reals_all(a, out),
        _ => {
            assert(out@ + Seq::<Real>::empty() == out@);
        },
    }
}

pub fn collect_reals_all(a: &Vec<GVal>, out: &mut Vec<Real>)
    ensures
        final(out)@ == old(out)@ + reals_in_all(vals(a@)),
    decreases a, 1int,
{
    let ghost start = out@;
    let ghost all = vals(a@);
    let mut i: usize = 0;
    assert(all.take(0) == Seq::<Val>::empty());
    assert(start + Seq::<Real>::empty() == start);
    while i < a.len()
        invariant
            i <= a.len(),
            all == vals(a@),
            out@ == start + reals_in_all(all.take(i as int)),
        decreases a.len() - i,
    {
        assert(decreases_to!(a => a@[i as int]));
        collect_reals(&a[i], out);
        assert(all.take(i + 1).drop_last() == all.take(i as int));
        i = i + 1;
    }
    assert(all.take(i as int) == all);
}

/// Appends a value as text; the texts of its numbers stand from `at` on.
pub fn render(v: &GVal, t: &Vec<String>, at: usize, out: &mut String) -> (next: usize)
    requires
        at + reals_in(val(*v)).len() <= t.len(),
    ensures
        next == at + reals_in(val(*v)).len(),
        final(out)@ == old(out)@ + show(
            val(*v),
            texts(t@).subrange(at as int, at + reals_in(val(*v)).len()),
        ),
    decreases v, 0int,
{
    match v {
        GVal::Int(n) => {
            push_i64(out, *n);
            at
        },
        GVal::Float(_) => {
            out.append(t[at].as_str());
            at + 1
        },
        GVal::Str(s) => {
            out.append(s.as_str());
            at
        },
        GVal::Bool(b) => {
            out.append(
                if *b {
                    "true"
                } else {
                    "false"
                },
            );
            at
        },
        GVal::Null => {
            out.append("null");
            at
        },
        GVal::Array(a) => {
            let ghost start = out@;
            out.append("(A");
            let next: usize = render_all(a, t, at, out);
            out.append(")");
            proof {
                let body = show_all(
                    vals(a@),
                    texts(t@).subrange(at as int, at + reals_in_all(vals(a@)).len()),
                );
                assert(start + "(A"@ + body + ")"@ == start + ("(A"@ + body + ")"@));
            }
            next
        },
        GVal::GraphFn { .. } => {
            out.append("(fn)");
            at
        },
    }
}

pub proof fn reals_in_prefix(s: Seq<Val>, i: int)
    requires
        0 <= i <= s.len(),
    ensures
        reals_in_all(s.take(i)).len() <= reals_in_all(s).len(),
    decreases s.len() - i,
{
    if i < s.len() {
        assert(s.take(i + 1).drop_last() == s.take(i));
        reals_in_prefix(s, i + 1);
    } else {
        assert(s.take(i) == s);
    }
}

pub fn render_all(a: &Vec<GVal>, t: &Vec<String>, at: usize, out: &mut String) -> (next: usize)
    requires
        at + reals_in_all(vals(a@)).len() <= t.len(),
    ensures
        next == at + reals_in_all(vals(a@)).len(),
        final(out)@ == old(out)@ + show_all(
            vals(a@),
            texts(t@).subrange(at as int, at + reals_in_all(vals(a@)).len()),
        ),
    decreases a, 1int,
{
    let ghost start = out@;
    let ghost all = vals(a@);
    let ghost tv = texts(t@);
    let mut i: usize = 0;
    let mut pos: usize = at;
    proof {
        assert(all.take(0) == Seq::<Val>::empty());
        assert(start + Seq::<char>::empty() == start);
    }
    while i < a.len()
        invariant
            i <= a.len(),
            all == vals(a@),
            tv == texts(t@),
            at + reals_in_all(all).len() <= t.len(),
            pos == at + reals_in_all(all.take(i as int)).len(),
            out@ == start + show_all(all.take(i as int), tv.subrange(at as int, pos as int)),
        decreases a.len() - i,
    {
        assert(decreases_to!(a => a@[i as int]));
        proof {
            assert(all.take(i + 1).drop_last() == all.take(i as int));
            assert(all.take(i + 1).last() == val(a@[i as int]));
            reals_in_prefix(all, i + 1);
        }
        let ghost done = show_all(all.take(i as int), tv.subrange(at as int, pos as int));
        let ghost piece = show(
            val(a@[i as int]),
            tv.subrange(pos as int, pos + reals_in(val(a@[i as int])).len()),
        );
        out.append(" ");
        let next: usize = render(&a[i], t, pos, out);
        proof {
            let whole = tv.subrange(at as int, next as int);
            let n = pos - at;
            assert(whole.take(n) == tv.subrange(at as int, pos as int));
            assert(whole.skip(n) == tv.subrange(pos as int, next as int));
            assert(start + done + " "@ + piece == start + (done + " "@ + piece));
        }
        pos = next;
        i = i + 1;
    }
    assert(all.take(i as int) == all);
    pos
}

} // verus!
