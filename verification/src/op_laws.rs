//! What the operators of the language mean, told by numbers, texts and lists.

use crate::ast::OpKind;
use crate::graph::OpCode;
use crate::graph_compiler::{arith_op, builtin_op};
use crate::number::{Real, real_of_int};
use crate::ops::{FloatOp, Out, arity, computed_out, op_out, pair_message, quot_of, rem_of, split_out};
use crate::parse::{pieces, signed_value, trimmed};
use crate::values::Val;
use vstd::prelude::*;
use vstd::utf8::*;

verus! {

/// Which values count as true: `true`, any number but the integer zero, every
/// text and list that holds something, and every function.
pub open spec fn counts_as_true(v: Val) -> bool {
    &&& v != Val::Null
    &&& v != Val::Bool(false)
    &&& v != Val::Int(0)
    &&& v is Str ==> v->Str_0 != Seq::<char>::empty()
    &&& v is Array ==> v->Array_0 != Seq::<Val>::empty()
}

/// Truth is what counts as true.
pub proof fn truth_is_what_counts(v: Val)
    ensures
        v.truthy() == counts_as_true(v),
{
    if let Val::Str(s) = v {
        if s.len() == 0 {
            assert(s =~= Seq::<char>::empty());
        }
    }
    if let Val::Array(a) = v {
        if a.len() == 0 {
            assert(a =~= Seq::<Val>::empty());
        }
    }
}

/// An outcome is this value.
pub open spec fn is_value(o: Out, v: Val) -> bool {
    o == Out::Value(v)
}

pub open spec fn is_truth(o: Out, b: bool) -> bool {
    is_value(o, Val::Bool(b))
}

/// An outcome is this whole number, or a stop where that does not fit.
pub open spec fn is_whole_result(o: Out, n: int) -> bool {
    if -0x8000_0000_0000_0000 <= n < 0x8000_0000_0000_0000 {
        o is Value && o->Value_0 is Int && o->Value_0->Int_0 == n
    } else {
        o is Panic
    }
}

/// The value as a number, where it is an integer or a float.
pub open spec fn is_number(v: Val) -> bool {
    v is Int || v is Float
}

pub open spec fn number_in(v: Val) -> Real {
    match v {
        Val::Int(n) => real_of_int(n as int),
        Val::Float(f) => f,
        _ => Real { bits: 0 },
    }
}

/// The name of a value's kind.
pub open spec fn kind_of(v: Val) -> Seq<char> {
    if v is Int {
        "int"@
    } else if v is Float {
        "float"@
    } else if v is Str {
        "str"@
    } else if v is Bool {
        "bool"@
    } else if v is Array {
        "array"@
    } else if v is Null {
        "null"@
    } else {
        "fn"@
    }
}

/// What an operator makes of one or two values.
pub open spec fn means(kind: OpKind, a: Val, b: Val, o: Out) -> bool {
    let ints = a is Int && b is Int;
    let x = a->Int_0 as int;
    let y = b->Int_0 as int;
    let reals = is_number(a) && is_number(b) && !ints;
    match kind {
        OpKind::And => is_truth(o, counts_as_true(a) && counts_as_true(b)),
        OpKind::Or => is_truth(o, counts_as_true(a) || counts_as_true(b)),
        OpKind::Not => is_truth(o, !counts_as_true(a)),
        OpKind::Add => {
            &&& ints ==> is_whole_result(o, x + y)
            &&& reals ==> o == Out::Compute(FloatOp::Add, number_in(a), number_in(b))
            &&& a is Str && b is Str ==> is_value(o, Val::Str(a->Str_0 + b->Str_0))
            &&& a is Array && b is Array ==> is_value(o, Val::Array(a->Array_0 + b->Array_0))
            &&& a is Str && !(b is Str) ==> o == Out::Shown(a->Str_0, b, Seq::empty())
            &&& b is Str && !(a is Str) ==> o == Out::Shown(Seq::empty(), a, b->Str_0)
            &&& !(is_number(a) && is_number(b)) && !(a is Str) && !(b is Str) && !(a is Array && b
                is Array) ==> o == Out::Fail("cannot add "@ + kind_of(a) + " and "@ + kind_of(b))
        },
        OpKind::Sub => {
            &&& ints ==> is_whole_result(o, x - y)
            &&& reals ==> o == Out::Compute(FloatOp::Sub, number_in(a), number_in(b))
            &&& !(is_number(a) && is_number(b)) ==> o == Out::Fail(
                "cannot do arithmetic on "@ + kind_of(a) + " and "@ + kind_of(b),
            )
        },
        OpKind::Mul => {
            &&& ints ==> is_whole_result(o, x * y)
            &&& reals ==> o == Out::Compute(FloatOp::Mul, number_in(a), number_in(b))
            &&& !(is_number(a) && is_number(b)) ==> o == Out::Fail(
                "cannot do arithmetic on "@ + kind_of(a) + " and "@ + kind_of(b),
            )
        },
        OpKind::Div => {
            &&& ints && y == 0 ==> o == Out::Fail("division by zero"@)
            &&& ints && y != 0 ==> match o {
                Out::Value(v) => v is Int && v->Int_0 * y == x,
                Out::Compute(op, p, q) => op == FloatOp::Div && p == number_in(a) && q == number_in(
                    b,
                ) && x % y != 0,
                Out::Panic => x == i64::MIN && y == -1,
                _ => false,
            }
            &&& reals ==> o == Out::Compute(FloatOp::Div, number_in(a), number_in(b))
            &&& !(is_number(a) && is_number(b)) ==> o == Out::Fail(
                "cannot divide "@ + kind_of(a) + " by "@ + kind_of(b),
            )
        },
        OpKind::Mod => {
            &&& ints && y == 0 ==> o is Panic
            &&& ints && y != 0 && o is Value ==> {
                let r = o->Value_0->Int_0 as int;
                &&& o->Value_0 is Int
                &&& (x - r) % y == 0
                &&& -y < r < y || y < r < -y
                &&& x >= 0 ==> r >= 0
                &&& x <= 0 ==> r <= 0
            }
            &&& ints && y != 0 ==> o is Value || (o is Panic && x == i64::MIN && y == -1)
            &&& reals ==> o == Out::Compute(FloatOp::Rem, number_in(a), number_in(b))
            &&& !(is_number(a) && is_number(b)) ==> o == Out::Fail(
                "cannot do arithmetic on "@ + kind_of(a) + " and "@ + kind_of(b),
            )
        },
        OpKind::Neg => {
            &&& a is Int ==> is_whole_result(o, -x)
            &&& a is Float ==> o is Value && o->Value_0 is Float && (
            o->Value_0->Float_0).spec_negative() != a->Float_0.spec_negative() && (
            o->Value_0->Float_0).spec_abs() == a->Float_0.spec_abs()
            &&& !is_number(a) ==> o == Out::Fail("cannot negate "@ + kind_of(a))
        },
        OpKind::Eq => same_kind_and_value(a, b, o, true),
        OpKind::Neq => same_kind_and_value(a, b, o, false),
        OpKind::Lt => {
            &&& ints ==> is_truth(o, x < y)
            &&& reals ==> is_truth(o, number_in(a).below(number_in(b)))
            &&& !(is_number(a) && is_number(b)) ==> o == Out::Fail(
                "cannot compare "@ + kind_of(a) + " and "@ + kind_of(b),
            )
        },
        OpKind::Gt => {
            &&& ints ==> is_truth(o, x > y)
            &&& reals ==> is_truth(o, number_in(b).below(number_in(a)))
            &&& !(is_number(a) && is_number(b)) ==> o == Out::Fail(
                "cannot compare "@ + kind_of(a) + " and "@ + kind_of(b),
            )
        },
        OpKind::Lte => {
            &&& ints ==> is_truth(o, x <= y)
            &&& reals ==> is_truth(o, !number_in(b).below(number_in(a)))
            &&& !(is_number(a) && is_number(b)) ==> o == Out::Fail(
                "cannot compare "@ + kind_of(a) + " and "@ + kind_of(b),
            )
        },
        OpKind::Gte => {
            &&& ints ==> is_truth(o, x >= y)
            &&& reals ==> is_truth(o, !number_in(a).below(number_in(b)))
            &&& !(is_number(a) && is_number(b)) ==> o == Out::Fail(
                "cannot compare "@ + kind_of(a) + " and "@ + kind_of(b),
            )
        },
    }
}

/// The outcome of a test for equality, or for its contrary: values of one kind are
/// equal where they are the same, floats where they are the same number, and lists
/// and functions never.
pub open spec fn same_kind_and_value(a: Val, b: Val, o: Out, positive: bool) -> bool {
    &&& o is Value && o->Value_0 is Bool
    &&& (o->Value_0->Bool_0 == positive) <==> {
        ||| a is Int && a == b
        ||| a is Str && a == b
        ||| a is Bool && a == b
        ||| a is Null && b is Null
        ||| a is Float && b is Float && a->Float_0.same_value(b->Float_0)
    }
}

/// How many values an operator takes.
pub open spec fn takes(kind: OpKind) -> nat {
    match kind {
        OpKind::Not | OpKind::Neg => 1,
        _ => 2,
    }
}

/// An operation of a graph means an operator of the language.
pub open spec fn code_means(code: OpCode, kind: OpKind) -> bool {
    &&& arity(code) == Some(takes(kind))
    &&& forall|args: Seq<Val>|
        args.len() == takes(kind) ==> means(
            kind,
            args[0],
            if takes(kind) == 2 {
                args[1]
            } else {
                Val::Null
            },
            #[trigger] op_out(code, args),
        )
}

proof fn remainders_divide(x: int, y: int)
    requires
        y != 0,
    ensures
        rem_of(x, y) == 0 ==> quot_of(x, y) * y == x,
        rem_of(x, y) != 0 ==> x % y != 0,
        (x - rem_of(x, y)) % y == 0,
        -y < rem_of(x, y) < y || y < rem_of(x, y) < -y,
        x >= 0 ==> rem_of(x, y) >= 0,
        x <= 0 ==> rem_of(x, y) <= 0,
{
    let m = if y < 0 {
        -y
    } else {
        y
    };
    let s = if x < 0 {
        -x
    } else {
        x
    };
    let r = s % m;
    let q = s / m;
    assert(s == q * m + r && 0 <= r < m) by {
        vstd::arithmetic::div_mod::lemma_fundamental_div_mod(s, m);
        vstd::arithmetic::div_mod::lemma_mod_bound(s, m);
        assert(m * q == q * m) by (nonlinear_arith);
    }
    let t = if x >= 0 {
        r
    } else {
        -r
    };
    assert(t == rem_of(x, y));
    let k = if (x >= 0) == (y > 0) {
        q
    } else {
        -q
    };
    assert(x - t == k * y) by (nonlinear_arith)
        requires
            s == q * m + r,
            m == if y < 0 {
                -y
            } else {
                y
            },
            s == if x < 0 {
                -x
            } else {
                x
            },
            t == if x >= 0 {
                r
            } else {
                -r
            },
            k == if (x >= 0) == (y > 0) {
                q
            } else {
                -q
            },
            y != 0,
    ;
    assert((k * y) % y == 0) by {
        if y > 0 {
            vstd::arithmetic::div_mod::lemma_mod_multiples_basic(k, y);
        } else {
            assert((k * y) % y == 0) by (nonlinear_arith)
                requires
                    y != 0,
            ;
        }
    }
    if t != 0 && x % y == 0 {
        let d = x / y;
        assert(x == d * y) by (nonlinear_arith)
            requires
                x % y == 0,
                d == x / y,
                y != 0,
        ;
        assert(false) by (nonlinear_arith)
            requires
                x == d * y,
                x - t == k * y,
                t != 0,
                -m < t < m,
                m == y || m == -y,
                m > 0,
        ;
    }
}

/// Every compiled operator means the operator of the tree.
pub proof fn operators_mean_what_they_say(kind: OpKind)
    ensures
        code_means(arith_op(kind), kind),
{
    let code = arith_op(kind);
    assert forall|args: Seq<Val>| args.len() == takes(kind) implies means(
        kind,
        args[0],
        if takes(kind) == 2 {
            args[1]
        } else {
            Val::Null
        },
        #[trigger] op_out(code, args),
    ) by {
        let a = args[0];
        let b = if takes(kind) == 2 {
            args[1]
        } else {
            Val::Null
        };
        truth_is_what_counts(a);
        truth_is_what_counts(b);
        assert(a.kind() == kind_of(a) && b.kind() == kind_of(b));
        assert("cannot add "@ + a.kind() + " and "@ + b.kind() == pair_message(
            "cannot add "@,
            a,
            " and "@,
            b,
        ));
        if a is Int && b is Int && b->Int_0 != 0 {
            remainders_divide(a->Int_0 as int, b->Int_0 as int);
            if kind == OpKind::Div && rem_of(a->Int_0 as int, b->Int_0 as int) == 0 && !(a->Int_0
                == i64::MIN && b->Int_0 == -1) {
                quotients_fit(a->Int_0, b->Int_0);
            }
        }
        if kind == OpKind::Neg && a is Float {
            let f = a->Float_0;
            let g = f.spec_negated();
            assert(g.spec_abs() == f.spec_abs());
        }
    }
}

proof fn quotients_fit(x: i64, y: i64)
    requires
        y != 0,
        !(x == i64::MIN && y == -1),
        rem_of(x as int, y as int) == 0,
    ensures
        i64::MIN <= quot_of(x as int, y as int) <= i64::MAX,
{
    remainders_divide(x as int, y as int);
    let q = quot_of(x as int, y as int);
    assert(i64::MIN <= q <= i64::MAX) by (nonlinear_arith)
        requires
            q * y == x,
            y != 0,
            !(x == i64::MIN && y == -1),
            i64::MIN <= x <= i64::MAX,
            i64::MIN <= y <= i64::MAX,
    ;
}

/// A list is entered by counting from zero; an index behind its end is refused.
pub proof fn items_are_counted_from_zero(items: Seq<Val>, n: i64)
    requires
        items.len() <= usize::MAX,
    ensures
        0 <= n < items.len() ==> op_out(OpCode::Index, seq![Val::Array(items), Val::Int(n)])
            == Out::Value(items[n as int]),
        n >= items.len() && n <= usize::MAX ==> op_out(
            OpCode::Index,
            seq![Val::Array(items), Val::Int(n)],
        ) is Fail,
{
}

/// A range holds the integers from its start on, one by one, up to but not with
/// its end.
pub proof fn ranges_count_up(a: i64, b: i64)
    ensures
        ({
            let o = op_out(OpCode::Range, seq![Val::Int(a), Val::Int(b)]);
            let items = o->Value_0->Array_0;
            &&& o is Value && o->Value_0 is Array
            &&& a >= b ==> items.len() == 0
            &&& a < b ==> items.len() == b - a
            &&& forall|i: int|
                0 <= i < items.len() ==> (#[trigger] items[i]) is Int && items[i]->Int_0 == a + i
        }),
{
}

/// The characters of a text are as many texts of one character each, which joined
/// give the text; its length counts bytes, and that of a list its items.
pub proof fn texts_and_lists_are_measured(s: Seq<char>, items: Seq<Val>, i: int)
    requires
        items.len() <= i64::MAX,
        encode_utf8(s).len() <= i64::MAX,
        encode_utf8(s).len() <= usize::MAX,
        0 <= i < s.len(),
    ensures
        ({
            let o = op_out(OpCode::Chars, seq![Val::Str(s)]);
            &&& o is Value && o->Value_0 is Array
            &&& o->Value_0->Array_0.len() == s.len()
            &&& o->Value_0->Array_0[i] == Val::Str(seq![s[i]])
        }),
        op_out(OpCode::Length, seq![Val::Array(items)]) == Out::Value(
            Val::Int(items.len() as i64),
        ),
        op_out(OpCode::Length, seq![Val::Str(s)]) == Out::Value(
            Val::Int(encode_utf8(s).len() as i64),
        ),
{
}

/// What a builtin makes of numbers: the size of an integer, the same integer for
/// the roundings, and for floats what the host computes under the builtin's own
/// name.
pub proof fn builtins_compute_their_name(n: i64, f: Real, g: Real)
    requires
        f.spec_is_finite(),
        g.spec_is_finite(),
        (Real { bits: 0 }).below(f),
    ensures
        n >= 0 ==> op_out(builtin_op("abs"@), seq![Val::Int(n)]) == Out::Value(Val::Int(n)),
        n < 0 && n > i64::MIN ==> op_out(builtin_op("abs"@), seq![Val::Int(n)]) == Out::Value(
            Val::Int((-n) as i64),
        ),
        op_out(builtin_op("floor"@), seq![Val::Int(n)]) == Out::Value(Val::Int(n)),
        op_out(builtin_op("round"@), seq![Val::Int(n)]) == Out::Value(Val::Int(n)),
        op_out(builtin_op("floor"@), seq![Val::Float(f)]) == Out::Compute(FloatOp::Floor, f, f),
        op_out(builtin_op("round"@), seq![Val::Float(f)]) == Out::Compute(FloatOp::Round, f, f),
        op_out(builtin_op("sin"@), seq![Val::Float(f)]) == Out::Compute(FloatOp::Sin, f, f),
        op_out(builtin_op("cos"@), seq![Val::Float(f)]) == Out::Compute(FloatOp::Cos, f, f),
        op_out(builtin_op("sqrt"@), seq![Val::Float(f)]) == Out::Compute(FloatOp::Sqrt, f, f),
        op_out(builtin_op("ln"@), seq![Val::Float(f)]) == Out::Compute(FloatOp::Ln, f, f),
        op_out(builtin_op("exp"@), seq![Val::Float(f)]) == Out::Compute(FloatOp::Exp, f, f),
        op_out(builtin_op("atan2"@), seq![Val::Float(f), Val::Float(g)]) == Out::Compute(
            FloatOp::Atan2,
            f,
            g,
        ),
{
    builtin_names_differ();
}

/// What a builtin makes of texts: the number that a text stands for, its
/// characters, its length, its parts, and the text of any value.
pub proof fn builtins_read_texts(v: Val, s: Seq<char>, d: Seq<char>)
    ensures
        op_out(builtin_op("str"@), seq![v]) == Out::Shown(Seq::empty(), v, Seq::empty()),
        op_out(builtin_op("type"@), seq![v]) == Out::Shown(Seq::empty(), v, Seq::empty()),
        signed_value(trimmed(s)) is Some && i64::MIN <= signed_value(trimmed(s))->Some_0
            <= i64::MAX ==> op_out(builtin_op("num"@), seq![Val::Str(s)]) == Out::Value(
            Val::Int(signed_value(trimmed(s))->Some_0 as i64),
        ),
        signed_value(trimmed(s)) is None ==> op_out(builtin_op("num"@), seq![Val::Str(s)])
            == Out::ParseReal(trimmed(s)),
        builtin_op("len"@) == OpCode::Length,
        builtin_op("chars"@) == OpCode::Chars,
        builtin_op("split"@) == OpCode::Split,
        builtin_op("p"@) == OpCode::Print,
        builtin_op("r"@) == OpCode::ReadLine,
        builtin_op("cap"@) == OpCode::Capability,
        split_out(Val::Str(s), Some(Val::Str(d))) == Out::Value(
            Val::Array(pieces(s, d, 0).map_values(|p: Seq<char>| Val::Str(p))),
        ),
        split_out(Val::Str(s), None) == split_out(Val::Str(s), Some(Val::Str(" "@))),
{
    builtin_names_differ();
}

/// How the names of the builtins differ.
proof fn builtin_names_differ()
    ensures
        "p"@.len() == 1,
        "r"@.len() == 1,
        "num"@.len() == 3,
        "split"@.len() == 5,
        "str"@.len() == 3,
        "len"@.len() == 3,
        "chars"@.len() == 5,
        "abs"@.len() == 3,
        "sin"@.len() == 3,
        "cos"@.len() == 3,
        "floor"@.len() == 5,
        "round"@.len() == 5,
        "sqrt"@.len() == 4,
        "ln"@.len() == 2,
        "exp"@.len() == 3,
        "atan2"@.len() == 5,
        "cap"@.len() == 3,
        "type"@.len() == 4,
        "lambert"@.len() == 7,
        "p"@ != "r"@,
        "num"@ != "str"@,
        "num"@ != "len"@,
        "num"@ != "abs"@,
        "num"@ != "sin"@,
        "num"@ != "cos"@,
        "num"@ != "exp"@,
        "num"@ != "cap"@,
        "split"@ != "chars"@,
        "split"@ != "floor"@,
        "split"@ != "round"@,
        "split"@ != "atan2"@,
        "str"@ != "len"@,
        "str"@ != "abs"@,
        "str"@ != "sin"@,
        "str"@ != "cos"@,
        "str"@ != "exp"@,
        "str"@ != "cap"@,
        "len"@ != "abs"@,
        "len"@ != "sin"@,
        "len"@ != "cos"@,
        "len"@ != "exp"@,
        "len"@ != "cap"@,
        "chars"@ != "floor"@,
        "chars"@ != "round"@,
        "chars"@ != "atan2"@,
        "abs"@ != "sin"@,
        "abs"@ != "cos"@,
        "abs"@ != "exp"@,
        "abs"@ != "cap"@,
        "sin"@ != "cos"@,
        "sin"@ != "exp"@,
        "sin"@ != "cap"@,
        "cos"@ != "exp"@,
        "cos"@ != "cap"@,
        "floor"@ != "round"@,
        "floor"@ != "atan2"@,
        "round"@ != "atan2"@,
        "sqrt"@ != "type"@,
        "exp"@ != "cap"@,
{
    reveal_strlit("p");
    reveal_strlit("r");
    reveal_strlit("num");
    reveal_strlit("split");
    reveal_strlit("str");
    reveal_strlit("len");
    reveal_strlit("chars");
    reveal_strlit("abs");
    reveal_strlit("sin");
    reveal_strlit("cos");
    reveal_strlit("floor");
    reveal_strlit("round");
    reveal_strlit("sqrt");
    reveal_strlit("ln");
    reveal_strlit("exp");
    reveal_strlit("atan2");
    reveal_strlit("cap");
    reveal_strlit("type");
    reveal_strlit("lambert");
    assert("p"@[0] != "r"@[0]);
    assert("num"@[0] != "str"@[0]);
    assert("num"@[0] != "len"@[0]);
    assert("num"@[0] != "abs"@[0]);
    assert("num"@[0] != "sin"@[0]);
    assert("num"@[0] != "cos"@[0]);
    assert("num"@[0] != "exp"@[0]);
    assert("num"@[0] != "cap"@[0]);
    assert("split"@[0] != "chars"@[0]);
    assert("split"@[0] != "floor"@[0]);
    assert("split"@[0] != "round"@[0]);
    assert("split"@[0] != "atan2"@[0]);
    assert("str"@[0] != "len"@[0]);
    assert("str"@[0] != "abs"@[0]);
    assert("str"@[1] != "sin"@[1]);
    assert("str"@[0] != "cos"@[0]);
    assert("str"@[0] != "exp"@[0]);
    assert("str"@[0] != "cap"@[0]);
    assert("len"@[0] != "abs"@[0]);
    assert("len"@[0] != "sin"@[0]);
    assert("len"@[0] != "cos"@[0]);
    assert("len"@[0] != "exp"@[0]);
    assert("len"@[0] != "cap"@[0]);
    assert("chars"@[0] != "floor"@[0]);
    assert("chars"@[0] != "round"@[0]);
    assert("chars"@[0] != "atan2"@[0]);
    assert("abs"@[0] != "sin"@[0]);
    assert("abs"@[0] != "cos"@[0]);
    assert("abs"@[0] != "exp"@[0]);
    assert("abs"@[0] != "cap"@[0]);
    assert("sin"@[0] != "cos"@[0]);
    assert("sin"@[0] != "exp"@[0]);
    assert("sin"@[0] != "cap"@[0]);
    assert("cos"@[0] != "exp"@[0]);
    assert("cos"@[1] != "cap"@[1]);
    assert("floor"@[0] != "round"@[0]);
    assert("floor"@[0] != "atan2"@[0]);
    assert("round"@[0] != "atan2"@[0]);
    assert("sqrt"@[0] != "type"@[0]);
    assert("exp"@[0] != "cap"@[0]);
}

/// What the host computed is the value; a sine or cosine that is not finite is
/// refused, and a rounding becomes an integer.
pub proof fn computed_numbers_are_values(op: FloatOp, r: Real)
    requires
        r.spec_is_finite(),
    ensures
        op != FloatOp::Round ==> computed_out(op, r) == Out::Value(Val::Float(r)),
        op == FloatOp::Round ==> computed_out(op, r) is Fail || (computed_out(op, r) is Value
            && computed_out(op, r)->Value_0 is Int),
{
}

} // verus!
