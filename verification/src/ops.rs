//! What the operations of the language make of their operands.
use crate::graph::OpCode;
use crate::number::{Real, cut_to_i64, real_of_int};
use crate::parse::{chars_of, parse_i64, pieces, signed_value, split_pieces, text_of, trim, trimmed};
use crate::text::{dec_nat, labelled, push_u64, same};
use crate::values::{GVal, Val, copy_val, copy_vals, val, vals};
use vstd::prelude::*;
use vstd::string::StringExecFns;
use vstd::utf8::*;

verus! {

/// The computations on numbers that the host does.
#[derive(Clone, Copy, Debug, PartialEq, Eq, Structural)]
pub enum FloatOp {
    Add,
    Sub,
    Mul,
    Div,
    Rem,
    Floor,
    Sin,
    Cos,
    Round,
    Sqrt,
    Ln,
    Exp,
    Atan2,
}

/// What an operation comes to.
#[derive(Debug)]
pub enum Outcome {
    Value(GVal),
    /// The run fails with this message.
    Fail(String),
    /// The program stops: an index out of bounds, an integer overflow, a
    /// remainder by zero.
    Panic,
    /// The value is what the host computes from the two numbers.
    Compute(FloatOp, Real, Real),
    /// The value is the text between the two others, shown.
    Shown(String, GVal, String),
    /// The value is the number that the host reads from the text.
    ParseReal(String),
}

pub enum Out {
    Value(Val),
    Fail(Seq<char>),
    Panic,
    Compute(FloatOp, Real, Real),
    Shown(Seq<char>, Val, Seq<char>),
    ParseReal(Seq<char>),
}

pub open spec fn out(o: Outcome) -> Out {
    match o {
        Outcome::Value(g) => Out::Value(val(g)),
        Outcome::Fail(s) => Out::Fail(s@),
        Outcome::Panic => Out::Panic,
        Outcome::Compute(op, a, b) => Out::Compute(op, a, b),
        Outcome::Shown(a, g, b) => Out::Shown(a@, val(g), b@),
        Outcome::ParseReal(s) => Out::ParseReal(s@),
    }
}

/// The bits of -2^63.
pub const LOWEST: u64 = 0xC3E0_0000_0000_0000;

/// The bits of 2^63.
pub const HIGHEST: u64 = 0x43E0_0000_0000_0000;

/// A value as a number, where it is one.
pub open spec fn as_real(v: Val) -> Option<Real> {
    match v {
        Val::Int(n) => Some(real_of_int(n as int)),
        Val::Float(f) => Some(f),
        _ => None,
    }
}

pub fn real_of(g: &GVal) -> (r: Option<Real>)
    ensures
        r == as_real(val(*g)),
{
    match g {
        GVal::Int(n) => Some(Real::of_i64(*n)),
        GVal::Float(f) => Some(*f),
        _ => None,
    }
}

/// An integer result; the program stops where it does not fit.
pub open spec fn int_out(n: int) -> Out {
    if i64::MIN <= n <= i64::MAX {
        Out::Value(Val::Int(n as i64))
    } else {
        Out::Panic
    }
}

/// The remainder with the sign of the dividend.
pub open spec fn rem_of(x: int, y: int) -> int {
    let m = if y < 0 {
        -y
    } else {
        y
    };
    if x >= 0 {
        x % m
    } else {
        -((-x) % m)
    }
}

/// The quotient, cut towards zero.
pub open spec fn quot_of(x: int, y: int) -> int {
    if (x >= 0) == (y > 0) {
        size_of(x) / size_of(y)
    } else {
        -(size_of(x) / size_of(y))
    }
}

pub open spec fn size_of(x: int) -> int {
    if x < 0 {
        -x
    } else {
        x
    }
}

/// Both operands' kinds in a message.
pub open spec fn pair_message(head: Seq<char>, a: Val, middle: Seq<char>, b: Val) -> Seq<char> {
    head + a.kind() + middle + b.kind()
}

pub open spec fn add_out(a: Val, b: Val) -> Out {
    match (a, b) {
        (Val::Int(x), Val::Int(y)) => int_out(x + y),
        (Val::Str(x), Val::Str(y)) => Out::Value(Val::Str(x + y)),
        (Val::Str(x), _) => Out::Shown(x, b, Seq::empty()),
        (_, Val::Str(y)) => Out::Shown(Seq::empty(), a, y),
        (Val::Array(x), Val::Array(y)) => Out::Value(Val::Array(x + y)),
        _ => match (as_real(a), as_real(b)) {
            (Some(x), Some(y)) => Out::Compute(FloatOp::Add, x, y),
            _ => Out::Fail(pair_message("cannot add "@, a, " and "@, b)),
        },
    }
}

pub open spec fn arith_out(op: FloatOp, a: Val, b: Val) -> Out {
    match (a, b) {
        (Val::Int(x), Val::Int(y)) => match op {
            FloatOp::Sub => int_out(x - y),
            FloatOp::Mul => int_out(x * y),
            _ => if y == 0 || (x == i64::MIN && y == -1) {
                Out::Panic
            } else {
                int_out(rem_of(x as int, y as int))
            },
        },
        _ => match (as_real(a), as_real(b)) {
            (Some(x), Some(y)) => Out::Compute(op, x, y),
            _ => Out::Fail(pair_message("cannot do arithmetic on "@, a, " and "@, b)),
        },
    }
}

pub open spec fn div_out(a: Val, b: Val) -> Out {
    match (a, b) {
        (Val::Int(x), Val::Int(y)) => if y == 0 {
            Out::Fail("division by zero"@)
        } else if x == i64::MIN && y == -1 {
            Out::Panic
        } else if rem_of(x as int, y as int) == 0 {
            int_out(quot_of(x as int, y as int))
        } else {
            Out::Compute(FloatOp::Div, real_of_int(x as int), real_of_int(y as int))
        },
        _ => match (as_real(a), as_real(b)) {
            (Some(x), Some(y)) => Out::Compute(FloatOp::Div, x, y),
            _ => Out::Fail(pair_message("cannot divide "@, a, " by "@, b)),
        },
    }
}

/// Equality of plain values; lists and functions equal nothing.
pub open spec fn equal_vals(a: Val, b: Val) -> bool {
    match (a, b) {
        (Val::Int(x), Val::Int(y)) => x == y,
        (Val::Float(x), Val::Float(y)) => x.same_value(y),
        (Val::Str(x), Val::Str(y)) => x == y,
        (Val::Bool(x), Val::Bool(y)) => x == y,
        (Val::Null, Val::Null) => true,
        _ => false,
    }
}

/// How two numbers compare: below, level or above. NaN is level with all.
pub open spec fn rank_vals(a: Val, b: Val) -> Option<int> {
    match (a, b) {
        (Val::Int(x), Val::Int(y)) => Some(
            if x < y {
                -1int
            } else if x > y {
                1int
            } else {
                0int
            },
        ),
        _ => match (as_real(a), as_real(b)) {
            (Some(x), Some(y)) => Some(
                if x.below(y) {
                    -1int
                } else if y.below(x) {
                    1int
                } else {
                    0int
                },
            ),
            _ => None,
        },
    }
}

pub open spec fn ordered(op: OpCode, rank: int) -> bool {
    match op {
        OpCode::Lt => rank < 0,
        OpCode::Gt => rank > 0,
        OpCode::Lte => rank <= 0,
        _ => rank >= 0,
    }
}

pub open spec fn compare_out(op: OpCode, a: Val, b: Val) -> Out {
    match rank_vals(a, b) {
        Some(r) => Out::Value(Val::Bool(ordered(op, r))),
        None => Out::Fail(pair_message("cannot compare "@, a, " and "@, b)),
    }
}

pub open spec fn neg_out(a: Val) -> Out {
    match a {
        Val::Int(n) => int_out(-n),
        Val::Float(f) => Out::Value(Val::Float(f.spec_negated())),
        _ => Out::Fail("cannot negate "@ + a.kind()),
    }
}

pub open spec fn abs_out(a: Val) -> Out {
    match a {
        Val::Int(n) => if n == i64::MIN {
            Out::Fail("integer overflow in abs"@)
        } else {
            Out::Value(Val::Int(size_of(n as int) as i64))
        },
        Val::Float(f) => if f.spec_is_finite() {
            Out::Value(Val::Float(f.spec_abs()))
        } else {
            Out::Fail("abs requires finite float"@)
        },
        _ => Out::Fail("cannot abs "@ + a.kind()),
    }
}

pub open spec fn floor_out(a: Val) -> Out {
    match a {
        Val::Int(n) => Out::Value(Val::Int(n)),
        Val::Float(f) => if f.spec_is_finite() {
            Out::Compute(FloatOp::Floor, f, f)
        } else {
            Out::Fail("floor requires finite float"@)
        },
        _ => Out::Fail("cannot floor "@ + a.kind()),
    }
}

pub open spec fn round_out(a: Val) -> Out {
    match a {
        Val::Int(n) => Out::Value(Val::Int(n)),
        Val::Float(f) => if f.spec_is_finite() {
            Out::Compute(FloatOp::Round, f, f)
        } else {
            Out::Fail("round requires finite float"@)
        },
        _ => Out::Fail("cannot round "@ + a.kind()),
    }
}

/// Sine and cosine.
pub open spec fn wave_out(op: FloatOp, name: Seq<char>, a: Val) -> Out {
    match as_real(a) {
        Some(x) => if x.spec_is_finite() {
            Out::Compute(op, x, x)
        } else {
            Out::Fail(name + " requires finite input"@)
        },
        None => Out::Fail(name + " requires number, got "@ + a.kind()),
    }
}

pub open spec fn sqrt_out(a: Val) -> Out {
    match as_real(a) {
        Some(x) => if !x.spec_is_finite() {
            Out::Fail("sqrt requires finite input"@)
        } else if x.below(Real { bits: 0 }) {
            Out::Fail("sqrt requires non-negative input"@)
        } else {
            Out::Compute(FloatOp::Sqrt, x, x)
        },
        None => Out::Fail("cannot sqrt "@ + a.kind()),
    }
}

pub open spec fn ln_out(a: Val) -> Out {
    match a {
        Val::Float(f) => if (Real { bits: 0 }).below(f) {
            Out::Compute(FloatOp::Ln, f, f)
        } else {
            Out::Fail("ln requires positive number"@)
        },
        Val::Int(n) => if n > 0 {
            Out::Compute(FloatOp::Ln, real_of_int(n as int), real_of_int(n as int))
        } else {
            Out::Fail("ln requires positive number"@)
        },
        _ => Out::Fail("ln requires positive number"@),
    }
}

pub open spec fn exp_out(a: Val) -> Out {
    match as_real(a) {
        Some(x) => Out::Compute(FloatOp::Exp, x, x),
        None => Out::Fail("exp requires number"@),
    }
}

pub open spec fn real_or_zero(a: Val) -> Real {
    match as_real(a) {
        Some(x) => x,
        None => Real { bits: 0 },
    }
}

pub open spec fn index_out(a: Val, i: Val) -> Out {
    match (a, i) {
        (Val::Array(items), Val::Int(n)) => {
            let at = n as usize;
            if at < items.len() {
                Out::Value(items[at as int])
            } else {
                Out::Fail(
                    "index "@ + dec_nat(at as nat) + " out of bounds (len "@ + dec_nat(items.len())
                        + ")"@,
                )
            }
        },
        _ => Out::Fail(pair_message("cannot index "@, a, " with "@, i)),
    }
}

/// The integers from `a` on below `b`.
pub open spec fn int_range(a: int, b: int) -> Seq<Val> {
    Seq::new(
        if a < b {
            (b - a) as nat
        } else {
            0
        },
        |i: int| Val::Int((a + i) as i64),
    )
}

pub open spec fn range_out(a: Val, b: Val) -> Out {
    match (a, b) {
        (Val::Int(x), Val::Int(y)) => Out::Value(Val::Array(int_range(x as int, y as int))),
        _ => Out::Fail("range requires integers"@),
    }
}

pub open spec fn chars_out(a: Val) -> Out {
    match a {
        Val::Str(s) => Out::Value(Val::Array(s.map_values(|c: char| Val::Str(seq![c])))),
        _ => Out::Fail("cannot get chars of "@ + a.kind()),
    }
}

pub open spec fn length_out(a: Val) -> Out {
    match a {
        Val::Array(items) => Out::Value(Val::Int(items.len() as i64)),
        Val::Str(s) => Out::Value(Val::Int((encode_utf8(s).len() as usize) as i64)),
        _ => Out::Fail("cannot get length of "@ + a.kind()),
    }
}

pub open spec fn number_out(a: Val) -> Out {
    match a {
        Val::Str(s) => {
            let t = trimmed(s);
            match signed_value(t) {
                Some(n) => if i64::MIN <= n <= i64::MAX {
                    Out::Value(Val::Int(n as i64))
                } else {
                    Out::ParseReal(t)
                },
                None => Out::ParseReal(t),
            }
        },
        Val::Int(n) => Out::Value(Val::Int(n)),
        Val::Float(f) => Out::Value(Val::Float(f)),
        _ => Out::Fail("cannot convert "@ + a.kind() + " to number"@),
    }
}

/// What a split by a value's text comes to; anything but a text is a blank.
pub open spec fn split_out(a: Val, delim: Option<Val>) -> Out {
    let d = match delim {
        Some(Val::Str(s)) => s,
        _ => " "@,
    };
    match a {
        Val::Str(s) => Out::Value(
            Val::Array(pieces(s, d, 0).map_values(|p: Seq<char>| Val::Str(p))),
        ),
        _ => Out::Fail("cannot split "@ + a.kind()),
    }
}

/// How many operands an operation on values takes; `None` for the others.
pub open spec fn arity(op: OpCode) -> Option<nat> {
    match op {
        OpCode::Add | OpCode::Sub | OpCode::Mul | OpCode::Div | OpCode::Mod => Some(2),
        OpCode::Eq | OpCode::Neq | OpCode::Lt | OpCode::Gt | OpCode::Lte | OpCode::Gte => Some(2),
        OpCode::And | OpCode::Or | OpCode::Index | OpCode::Range | OpCode::Atan2 => Some(2),
        OpCode::Neg | OpCode::Abs | OpCode::Floor | OpCode::Sin | OpCode::Cos => Some(1),
        OpCode::Round | OpCode::Sqrt | OpCode::Ln | OpCode::Exp | OpCode::Not => Some(1),
        OpCode::Chars | OpCode::Length | OpCode::ParseNum | OpCode::ToString => Some(1),
        _ => None,
    }
}

/// What an operation on values comes to.
pub open spec fn op_out(op: OpCode, args: Seq<Val>) -> Out {
    match op {
        OpCode::Add => add_out(args[0], args[1]),
        OpCode::Sub => arith_out(FloatOp::Sub, args[0], args[1]),
        OpCode::Mul => arith_out(FloatOp::Mul, args[0], args[1]),
        OpCode::Div => div_out(args[0], args[1]),
        OpCode::Mod => arith_out(FloatOp::Rem, args[0], args[1]),
        OpCode::Eq => Out::Value(Val::Bool(equal_vals(args[0], args[1]))),
        OpCode::Neq => Out::Value(Val::Bool(!equal_vals(args[0], args[1]))),
        OpCode::Lt | OpCode::Gt | OpCode::Lte | OpCode::Gte => compare_out(op, args[0], args[1]),
        OpCode::And => Out::Value(Val::Bool(args[0].truthy() && args[1].truthy())),
        OpCode::Or => Out::Value(Val::Bool(args[0].truthy() || args[1].truthy())),
        OpCode::Not => Out::Value(Val::Bool(!args[0].truthy())),
        OpCode::Index => index_out(args[0], args[1]),
        OpCode::Range => range_out(args[0], args[1]),
        OpCode::Atan2 => Out::Compute(
            FloatOp::Atan2,
            real_or_zero(args[0]),
            real_or_zero(args[1]),
        ),
        OpCode::Neg => neg_out(args[0]),
        OpCode::Abs => abs_out(args[0]),
        OpCode::Floor => floor_out(args[0]),
        OpCode::Sin => wave_out(FloatOp::Sin, "sin"@, args[0]),
        OpCode::Cos => wave_out(FloatOp::Cos, "cos"@, args[0]),
        OpCode::Round => round_out(args[0]),
        OpCode::Sqrt => sqrt_out(args[0]),
        OpCode::Ln => ln_out(args[0]),
        OpCode::Exp => exp_out(args[0]),
        OpCode::Chars => chars_out(args[0]),
        OpCode::Length => length_out(args[0]),
        OpCode::ParseNum => number_out(args[0]),
        _ => Out::Shown(Seq::empty(), args[0], Seq::empty()),
    }
}

/// What a number that the host computed comes to.
pub open spec fn computed_out(op: FloatOp, r: Real) -> Out {
    match op {
        FloatOp::Sin => if r.spec_is_finite() {
            Out::Value(Val::Float(r))
        } else {
            Out::Fail("sin produced non-finite output"@)
        },
        FloatOp::Cos => if r.spec_is_finite() {
            Out::Value(Val::Float(r))
        } else {
            Out::Fail("cos produced non-finite output"@)
        },
        FloatOp::Round => if r.below(Real { bits: LOWEST }) || (Real { bits: HIGHEST }).below(r) {
            Out::Fail("round result out of i64 range"@)
        } else {
            Out::Value(Val::Int(cut_to_i64(r) as i64))
        },
        _ => Out::Value(Val::Float(r)),
    }
}

fn fail(s: &str) -> (o: Outcome)
    ensures
        out(o) == Out::Fail(s@),
{
    Outcome::Fail(String::from_str(s))
}

fn fail_kind(s: &str, a: &GVal) -> (o: Outcome)
    ensures
        out(o) == Out::Fail(s@ + val(*a).kind()),
{
    let mut m = String::from_str(s);
    m.append(a.kind_name());
    Outcome::Fail(m)
}

fn fail_pair(head: &str, a: &GVal, middle: &str, b: &GVal) -> (o: Outcome)
    ensures
        out(o) == Out::Fail(pair_message(head@, val(*a), middle@, val(*b))),
{
    let mut m = String::from_str(head);
    m.append(a.kind_name());
    m.append(middle);
    m.append(b.kind_name());
    Outcome::Fail(m)
}

fn magnitude_of(x: i64) -> (m: u64)
    ensures
        m == size_of(x as int),
{
    if x == i64::MIN {
        0x8000_0000_0000_0000
    } else if x < 0 {
        (-x) as u64
    } else {
        x as u64
    }
}

fn remainder(x: i64, y: i64) -> (r: i64)
    requires
        y != 0,
        !(x == i64::MIN && y == -1),
    ensures
        r == rem_of(x as int, y as int),
{
    let m: u64 = magnitude_of(y);
    let r: u64 = magnitude_of(x) % m;
    if x >= 0 {
        r as i64
    } else {
        -(r as i64)
    }
}

fn quotient(x: i64, y: i64) -> (r: i64)
    requires
        y != 0,
        !(x == i64::MIN && y == -1),
    ensures
        r == quot_of(x as int, y as int),
        i64::MIN <= quot_of(x as int, y as int) <= i64::MAX,
{
    let a: u64 = magnitude_of(x);
    let b: u64 = magnitude_of(y);
    proof {
        assert(a / b <= a) by (nonlinear_arith)
            requires
                b > 0,
        ;
        if b > 1 {
            assert(a / b <= a / 2) by (nonlinear_arith)
                requires
                    b > 1,
            ;
        }
        assert(a / 1 == a);
    }
    let q: u64 = a / b;
    if (x >= 0) == (y > 0) {
        q as i64
    } else if q == 0x8000_0000_0000_0000 {
        i64::MIN
    } else {
        -(q as i64)
    }
}

fn int_value(n: Option<i64>, Ghost(exact): Ghost<int>) -> (o: Outcome)
    requires
        match n {
            Some(v) => v == exact,
            None => exact < i64::MIN || exact > i64::MAX,
        },
    ensures
        out(o) == int_out(exact),
{
    match n {
        Some(v) => Outcome::Value(GVal::Int(v)),
        None => Outcome::Panic,
    }
}

fn add_vals(a: &GVal, b: &GVal) -> (o: Outcome)
    ensures
        out(o) == add_out(val(*a), val(*b)),
{
    match (a, b) {
        (GVal::Int(x), GVal::Int(y)) => int_value(x.checked_add(*y), Ghost(*x + *y)),
        (GVal::Str(x), GVal::Str(y)) => {
            let mut s = x.clone();
            s.append(y.as_str());
            Outcome::Value(GVal::Str(s))
        },
        (GVal::Str(x), _) => Outcome::Shown(x.clone(), copy_val(b), String::new()),
        (_, GVal::Str(y)) => Outcome::Shown(String::new(), copy_val(a), y.clone()),
        (GVal::Array(x), GVal::Array(y)) => {
            let mut r = copy_vals(x);
            let mut s = copy_vals(y);
            proof {
                assert(vals(r@ + s@) =~= vals(r@) + vals(s@));
            }
            r.append(&mut s);
            Outcome::Value(GVal::Array(r))
        },
        _ => match (real_of(a), real_of(b)) {
            (Some(x), Some(y)) => Outcome::Compute(FloatOp::Add, x, y),
            _ => fail_pair("cannot add ", a, " and ", b),
        },
    }
}

fn arith_vals(op: FloatOp, a: &GVal, b: &GVal) -> (o: Outcome)
    requires
        op == FloatOp::Sub || op == FloatOp::Mul || op == FloatOp::Rem,
    ensures
        out(o) == arith_out(op, val(*a), val(*b)),
{
    match (a, b) {
        (GVal::Int(x), GVal::Int(y)) => match op {
            FloatOp::Sub => int_value(x.checked_sub(*y), Ghost(*x - *y)),
            FloatOp::Mul => int_value(x.checked_mul(*y), Ghost(*x * *y)),
            _ => if *y == 0 || (*x == i64::MIN && *y == -1) {
                Outcome::Panic
            } else {
                Outcome::Value(GVal::Int(remainder(*x, *y)))
            },
        },
        _ => match (real_of(a), real_of(b)) {
            (Some(x), Some(y)) => Outcome::Compute(op, x, y),
            _ => fail_pair("cannot do arithmetic on ", a, " and ", b),
        },
    }
}

fn div_vals(a: &GVal, b: &GVal) -> (o: Outcome)
    ensures
        out(o) == div_out(val(*a), val(*b)),
{
    match (a, b) {
        (GVal::Int(x), GVal::Int(y)) => {
            if *y == 0 {
                fail("division by zero")
            } else if *x == i64::MIN && *y == -1 {
                Outcome::Panic
            } else if remainder(*x, *y) == 0 {
                Outcome::Value(GVal::Int(quotient(*x, *y)))
            } else {
                Outcome::Compute(FloatOp::Div, Real::of_i64(*x), Real::of_i64(*y))
            }
        },
        _ => match (real_of(a), real_of(b)) {
            (Some(x), Some(y)) => Outcome::Compute(FloatOp::Div, x, y),
            _ => fail_pair("cannot divide ", a, " by ", b),
        },
    }
}

/// Whether two plain values are equal.
pub fn gval_eq(a: &GVal, b: &GVal) -> (r: bool)
    ensures
        r == equal_vals(val(*a), val(*b)),
{
    match (a, b) {
        (GVal::Int(x), GVal::Int(y)) => *x == *y,
        (GVal::Float(x), GVal::Float(y)) => x.eq_value(*y),
        (GVal::Str(x), GVal::Str(y)) => same(x.as_str(), y.as_str()),
        (GVal::Bool(x), GVal::Bool(y)) => *x == *y,
        (GVal::Null, GVal::Null) => true,
        _ => false,
    }
}

fn rank_of(a: &GVal, b: &GVal) -> (r: Option<i8>)
    ensures
        match rank_vals(val(*a), val(*b)) {
            Some(k) => r is Some && r->Some_0 == k,
            None => r is None,
        },
{
    match (a, b) {
        (GVal::Int(x), GVal::Int(y)) => Some(
            if *x < *y {
                -1i8
            } else if *x > *y {
                1i8
            } else {
                0i8
            },
        ),
        _ => match (real_of(a), real_of(b)) {
            (Some(x), Some(y)) => Some(
                if x.lt(y) {
                    -1i8
                } else if y.lt(x) {
                    1i8
                } else {
                    0i8
                },
            ),
            _ => None,
        },
    }
}

fn compare_vals(op: OpCode, a: &GVal, b: &GVal) -> (o: Outcome)
    ensures
        out(o) == compare_out(op, val(*a), val(*b)),
{
    match rank_of(a, b) {
        Some(r) => {
            let holds = match op {
                OpCode::Lt => r < 0,
                OpCode::Gt => r > 0,
                OpCode::Lte => r <= 0,
                _ => r >= 0,
            };
            Outcome::Value(GVal::Bool(holds))
        },
        None => fail_pair("cannot compare ", a, " and ", b),
    }
}

fn neg_val(a: &GVal) -> (o: Outcome)
    ensures
        out(o) == neg_out(val(*a)),
{
    match a {
        GVal::Int(n) => if *n == i64::MIN {
            Outcome::Panic
        } else {
            Outcome::Value(GVal::Int(-*n))
        },
        GVal::Float(f) => Outcome::Value(GVal::Float(f.negated())),
        _ => fail_kind("cannot negate ", a),
    }
}

fn abs_val(a: &GVal) -> (o: Outcome)
    ensures
        out(o) == abs_out(val(*a)),
{
    match a {
        GVal::Int(n) => if *n == i64::MIN {
            fail("integer overflow in abs")
        } else {
            Outcome::Value(GVal::Int(magnitude_of(*n) as i64))
        },
        GVal::Float(f) => if f.is_finite() {
            Outcome::Value(GVal::Float(f.abs()))
        } else {
            fail("abs requires finite float")
        },
        _ => fail_kind("cannot abs ", a),
    }
}

fn floor_val(a: &GVal) -> (o: Outcome)
    ensures
        out(o) == floor_out(val(*a)),
{
    match a {
        GVal::Int(n) => Outcome::Value(GVal::Int(*n)),
        GVal::Float(f) => if f.is_finite() {
            Outcome::Compute(FloatOp::Floor, *f, *f)
        } else {
            fail("floor requires finite float")
        },
        _ => fail_kind("cannot floor ", a),
    }
}

fn round_val(a: &GVal) -> (o: Outcome)
    ensures
        out(o) == round_out(val(*a)),
{
    match a {
        GVal::Int(n) => Outcome::Value(GVal::Int(*n)),
        GVal::Float(f) => if f.is_finite() {
            Outcome::Compute(FloatOp::Round, *f, *f)
        } else {
            fail("round requires finite float")
        },
        _ => fail_kind("cannot round ", a),
    }
}

fn unary_float(op: FloatOp, name: &str, a: &GVal) -> (o: Outcome)
    ensures
        out(o) == wave_out(op, name@, val(*a)),
{
    match real_of(a) {
        Some(x) => if x.is_finite() {
            Outcome::Compute(op, x, x)
        } else {
            let mut m = String::from_str(name);
            m.append(" requires finite input");
            Outcome::Fail(m)
        },
        None => {
            let mut m = String::from_str(name);
            m.append(" requires number, got ");
            m.append(a.kind_name());
            Outcome::Fail(m)
        },
    }
}

fn sqrt_val(a: &GVal) -> (o: Outcome)
    ensures
        out(o) == sqrt_out(val(*a)),
{
    match real_of(a) {
        Some(x) => if !x.is_finite() {
            fail("sqrt requires finite input")
        } else if x.lt(Real::zero()) {
            fail("sqrt requires non-negative input")
        } else {
            Outcome::Compute(FloatOp::Sqrt, x, x)
        },
        None => fail_kind("cannot sqrt ", a),
    }
}

fn ln_val(a: &GVal) -> (o: Outcome)
    ensures
        out(o) == ln_out(val(*a)),
{
    match a {
        GVal::Float(f) => if Real::zero().lt(*f) {
            Outcome::Compute(FloatOp::Ln, *f, *f)
        } else {
            fail("ln requires positive number")
        },
        GVal::Int(n) => if *n > 0 {
            let x = Real::of_i64(*n);
            Outcome::Compute(FloatOp::Ln, x, x)
        } else {
            fail("ln requires positive number")
        },
        _ => fail("ln requires positive number"),
    }
}

fn exp_val(a: &GVal) -> (o: Outcome)
    ensures
        out(o) == exp_out(val(*a)),
{
    match real_of(a) {
        Some(x) => Outcome::Compute(FloatOp::Exp, x, x),
        None => fail("exp requires number"),
    }
}

fn or_zero(a: &GVal) -> (r: Real)
    ensures
        r == real_or_zero(val(*a)),
{
    match real_of(a) {
        Some(x) => x,
        None => Real::zero(),
    }
}

fn index_val(a: &GVal, i: &GVal) -> (o: Outcome)
    ensures
        out(o) == index_out(val(*a), val(*i)),
{
    match (a, i) {
        (GVal::Array(items), GVal::Int(n)) => {
            let at: usize = *n as usize;
            if at < items.len() {
                Outcome::Value(copy_val(&items[at]))
            } else {
                let mut m = labelled("index ", at as u64);
                m.append(" out of bounds (len ");
                push_u64(&mut m, items.len() as u64);
                m.append(")");
                Outcome::Fail(m)
            }
        },
        _ => fail_pair("cannot index ", a, " with ", i),
    }
}

fn range_val(a: &GVal, b: &GVal) -> (o: Outcome)
    ensures
        out(o) == range_out(val(*a), val(*b)),
{
    match (a, b) {
        (GVal::Int(x), GVal::Int(y)) => {
            let mut items: Vec<GVal> = Vec::new();
            let mut i: i64 = *x;
            while i < *y
                invariant
                    *x <= i,
                    *x < *y ==> i <= *y,
                    *x >= *y ==> i == *x,
                    items@.len() == i - *x,
                    forall|k: int| 0 <= k < items@.len() ==> val(items@[k]) == Val::Int((*x + k) as i64),
                decreases *y - i,
            {
                items.push(GVal::Int(i));
                i = i + 1;
            }
            assert(vals(items@) =~= int_range(*x as int, *y as int));
            Outcome::Value(GVal::Array(items))
        },
        _ => fail("range requires integers"),
    }
}

fn chars_val(a: &GVal) -> (o: Outcome)
    ensures
        out(o) == chars_out(val(*a)),
{
    match a {
        GVal::Str(s) => {
            let v = chars_of(s.as_str());
            let mut items: Vec<GVal> = Vec::new();
            let mut i: usize = 0;
            while i < v.len()
                invariant
                    i <= v.len(),
                    items@.len() == i,
                    forall|k: int|
                        0 <= k < items@.len() ==> val(items@[k]) == Val::Str(seq![v@[k]]),
                decreases v.len() - i,
            {
                let t = text_of(&v, i, i + 1);
                assert(t@ == seq![v@[i as int]]);
                items.push(GVal::Str(t));
                i = i + 1;
            }
            assert(vals(items@) =~= s@.map_values(|c: char| Val::Str(seq![c])));
            Outcome::Value(GVal::Array(items))
        },
        _ => fail_kind("cannot get chars of ", a),
    }
}

fn length_val(a: &GVal) -> (o: Outcome)
    ensures
        out(o) == length_out(val(*a)),
{
    match a {
        GVal::Array(items) => Outcome::Value(GVal::Int(items.len() as i64)),
        GVal::Str(s) => Outcome::Value(GVal::Int(s.as_str().len() as i64)),
        _ => fail_kind("cannot get length of ", a),
    }
}

fn number_val(a: &GVal) -> (o: Outcome)
    ensures
        out(o) == number_out(val(*a)),
{
    match a {
        GVal::Str(s) => {
            let t = trim(s.as_str());
            match parse_i64(t.as_str()) {
                Some(n) => Outcome::Value(GVal::Int(n)),
                None => Outcome::ParseReal(t),
            }
        },
        GVal::Int(n) => Outcome::Value(GVal::Int(*n)),
        GVal::Float(f) => Outcome::Value(GVal::Float(*f)),
        _ => {
            let mut m = String::from_str("cannot convert ");
            m.append(a.kind_name());
            m.append(" to number");
            Outcome::Fail(m)
        },
    }
}

/// Splits a text, by a blank where the delimiter is no text.
pub fn split_val(a: &GVal, delim: Option<&GVal>) -> (o: Outcome)
    ensures
        out(o) == split_out(
            val(*a),
            match delim {
                Some(d) => Some(val(*d)),
                None => None,
            },
        ),
{
    let blank = " ";
    let d: &str = match delim {
        Some(GVal::Str(s)) => s.as_str(),
        _ => blank,
    };
    match a {
        GVal::Str(s) => {
            let parts = split_pieces(s.as_str(), d);
            let ghost all = pieces(s@, d@, 0);
            let mut items: Vec<GVal> = Vec::new();
            let mut i: usize = 0;
            while i < parts.len()
                invariant
                    i <= parts.len(),
                    parts@.map_values(|t: String| t@) == all,
                    items@.len() == i,
                    forall|k: int| 0 <= k < items@.len() ==> val(items@[k]) == Val::Str(all[k]),
                decreases parts.len() - i,
            {
                assert(parts@.map_values(|t: String| t@)[i as int] == parts@[i as int]@);
                items.push(GVal::Str(parts[i].clone()));
                i = i + 1;
            }
            assert(vals(items@) =~= all.map_values(|p: Seq<char>| Val::Str(p)));
            Outcome::Value(GVal::Array(items))
        },
        _ => fail_kind("cannot split ", a),
    }
}

/// Applies an operation on values.
pub fn apply_op(op: OpCode, args: &Vec<GVal>) -> (o: Outcome)
    requires
        arity(op) == Some(args@.len()),
    ensures
        out(o) == op_out(op, vals(args@)),
{
    match op {
        OpCode::Add => add_vals(&args[0], &args[1]),
        OpCode::Sub => arith_vals(FloatOp::Sub, &args[0], &args[1]),
        OpCode::Mul => arith_vals(FloatOp::Mul, &args[0], &args[1]),
        OpCode::Div => div_vals(&args[0], &args[1]),
        OpCode::Mod => arith_vals(FloatOp::Rem, &args[0], &args[1]),
        OpCode::Eq => Outcome::Value(GVal::Bool(gval_eq(&args[0], &args[1]))),
        OpCode::Neq => Outcome::Value(GVal::Bool(!gval_eq(&args[0], &args[1]))),
        OpCode::Lt | OpCode::Gt | OpCode::Lte | OpCode::Gte => compare_vals(op, &args[0], &args[1]),
        OpCode::And => {
            let a = args[0].is_truthy();
            let b = args[1].is_truthy();
            Outcome::Value(GVal::Bool(a && b))
        },
        OpCode::Or => {
            let a = args[0].is_truthy();
            let b = args[1].is_truthy();
            Outcome::Value(GVal::Bool(a || b))
        },
        OpCode::Not => Outcome::Value(GVal::Bool(!args[0].is_truthy())),
        OpCode::Index => index_val(&args[0], &args[1]),
        OpCode::Range => range_val(&args[0], &args[1]),
        OpCode::Atan2 => Outcome::Compute(FloatOp::Atan2, or_zero(&args[0]), or_zero(&args[1])),
        OpCode::Neg => neg_val(&args[0]),
        OpCode::Abs => abs_val(&args[0]),
        OpCode::Floor => floor_val(&args[0]),
        OpCode::Sin => unary_float(FloatOp::Sin, "sin", &args[0]),
        OpCode::Cos => unary_float(FloatOp::Cos, "cos", &args[0]),
        OpCode::Round => round_val(&args[0]),
        OpCode::Sqrt => sqrt_val(&args[0]),
        OpCode::Ln => ln_val(&args[0]),
        OpCode::Exp => exp_val(&args[0]),
        OpCode::Chars => chars_val(&args[0]),
        OpCode::Length => length_val(&args[0]),
        OpCode::ParseNum => number_val(&args[0]),
        _ => Outcome::Shown(String::new(), copy_val(&args[0]), String::new()),
    }
}

/// What a number that the host computed comes to.
pub fn finish_computed(op: FloatOp, r: Real) -> (o: Outcome)
    ensures
        out(o) == computed_out(op, r),
{
    match op {
        FloatOp::Sin => if r.is_finite() {
            Outcome::Value(GVal::Float(r))
        } else {
            fail("sin produced non-finite output")
        },
        FloatOp::Cos => if r.is_finite() {
            Outcome::Value(GVal::Float(r))
        } else {
            fail("cos produced non-finite output")
        },
        FloatOp::Round => if r.lt(Real { bits: LOWEST }) || (Real { bits: HIGHEST }).lt(r) {
            fail("round result out of i64 range")
        } else {
            Outcome::Value(GVal::Int(r.to_i64()))
        },
        _ => Outcome::Value(GVal::Float(r)),
    }
}

} // verus!
