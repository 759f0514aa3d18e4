//! Reading the arguments of a capability.
use crate::cap_value::{Cap, CapValue, cap, caps};
use crate::number::{HIDDEN, Real, cut_to_i64, real_of_int};
use crate::strings::{begins, cat2, cat3, cat4, cat5, starts_with};
use crate::text::{dec, u64_text};
use vstd::arithmetic::power2::*;
use vstd::prelude::*;
use vstd::string::StringExecFns;

verus! {

/// `capability` followed by a message about argument number `i`.
pub open spec fn arg_error(capability: Seq<char>, i: int, told: Seq<char>) -> Seq<char> {
    capability + " argument "@ + dec(i + 1) + told
}

pub open spec fn missing_error(capability: Seq<char>, i: int) -> Seq<char> {
    capability + " missing argument "@ + dec(i + 1)
}

pub open spec fn arity_error(capability: Seq<char>, expected: int, got: int) -> Seq<char> {
    capability + " expects "@ + dec(expected) + " arguments, got "@ + dec(got)
}

fn size_text(n: usize) -> (s: String)
    ensures
        s@ == dec(n as int),
{
    u64_text(n as u64)
}

fn arg_error_text(capability: &str, i: usize, told: &str) -> (s: String)
    requires
        i < usize::MAX,
    ensures
        s@ == arg_error(capability@, i as int, told@),
{
    cat4(capability, " argument ", size_text(i + 1).as_str(), told)
}

fn missing_text(capability: &str, i: usize) -> (s: String)
    requires
        i < usize::MAX,
    ensures
        s@ == missing_error(capability@, i as int),
{
    cat3(capability, " missing argument ", size_text(i + 1).as_str())
}

pub open spec fn arity(args: Seq<Cap>, expected: int, capability: Seq<char>) -> Result<(), Seq<char>> {
    if args.len() == expected {
        Ok(())
    } else {
        Err(arity_error(capability, expected, args.len() as int))
    }
}

/// Checks the number of arguments.
pub fn expect_arity(args: &Vec<CapValue>, expected: usize, capability: &str) -> (r: Result<
    (),
    String,
>)
    ensures
        match arity(caps(args@), expected as int, capability@) {
            Ok(_) => r is Ok,
            Err(e) => r is Err && r->Err_0@ == e,
        },
{
    if args.len() != expected {
        return Err(
            cat5(
                capability,
                " expects ",
                size_text(expected).as_str(),
                " arguments, got ",
                size_text(args.len()).as_str(),
            ),
        );
    }
    Ok(())
}

/// The text that an argument holds.
pub open spec fn str_arg(args: Seq<Cap>, i: int, capability: Seq<char>) -> Result<
    Seq<char>,
    Seq<char>,
> {
    if i >= args.len() {
        Err(missing_error(capability, i))
    } else {
        match args[i] {
            Cap::Str(s) => Ok(s),
            other => Err(arg_error(capability, i, " must be string, got "@ + other.kind())),
        }
    }
}

/// Reads an argument that must be a text.
pub fn expect_str<'a>(args: &'a Vec<CapValue>, idx: usize, capability: &str) -> (r: Result<
    &'a str,
    String,
>)
    requires
        idx < usize::MAX,
    ensures
        match str_arg(caps(args@), idx as int, capability@) {
            Ok(s) => r is Ok && r->Ok_0@ == s,
            Err(e) => r is Err && r->Err_0@ == e,
        },
{
    if idx >= args.len() {
        return Err(missing_text(capability, idx));
    }
    match &args[idx] {
        CapValue::Str(s) => Ok(s.as_str()),
        other => {
            let told = cat2(" must be string, got ", other.kind_name());
            Err(arg_error_text(capability, idx, told.as_str()))
        },
    }
}

/// A finite number without a fractional part.
pub open spec fn is_whole(r: Real) -> bool {
    let e = r.spec_exponent();
    &&& r.spec_is_finite()
    &&& if e >= 1075 {
        true
    } else if e >= 1023 {
        (HIDDEN + r.spec_fraction()) as nat % pow2((1075 - e) as nat) == 0
    } else {
        e == 0 && r.spec_fraction() == 0
    }
}

/// Whether a number is finite and has no fractional part.
pub fn whole_number(r: Real) -> (b: bool)
    ensures
        b == is_whole(r),
{
    if !r.is_finite() {
        return false;
    }
    let e: u64 = (r.bits / HIDDEN) % 0x800;
    let f: u64 = r.bits % HIDDEN;
    if e >= 1075 {
        return true;
    }
    if e < 1023 {
        return e == 0 && f == 0;
    }
    let left: u64 = 1075 - e;
    let mut p: u64 = 1;
    let mut k: u64 = 0;
    proof {
        lemma2_to64();
    }
    while k < left
        invariant
            k <= left <= 52,
            p == pow2(k as nat),
        decreases left - k,
    {
        proof {
            lemma2_to64();
            lemma2_to64_rest();
            lemma_pow2_unfold((k + 1) as nat);
            lemma_pow2_strictly_increases(k as nat, 53);
        }
        p = p * 2;
        k = k + 1;
    }
    proof {
        lemma_pow2_pos(left as nat);
    }
    (HIDDEN + f) % p == 0
}

/// The integer that an argument holds.
pub open spec fn int_arg(args: Seq<Cap>, i: int, capability: Seq<char>) -> Result<int, Seq<char>> {
    if i >= args.len() {
        Err(missing_error(capability, i))
    } else {
        match args[i] {
            Cap::Int(n) => Ok(n as int),
            other => if other is Float && is_whole(other->Float_0) {
                Ok(cut_to_i64(other->Float_0))
            } else {
                Err(arg_error(capability, i, " must be int, got "@ + other.kind()))
            },
        }
    }
}

/// Reads an argument that must be an integer, or a real without a fraction.
pub fn integer(args: &Vec<CapValue>, idx: usize, capability: &str) -> (r: Result<i64, String>)
    requires
        idx < usize::MAX,
    ensures
        match int_arg(caps(args@), idx as int, capability@) {
            Ok(n) => r is Ok && r->Ok_0 == n,
            Err(e) => r is Err && r->Err_0@ == e,
        },
{
    if idx >= args.len() {
        return Err(missing_text(capability, idx));
    }
    match &args[idx] {
        CapValue::Int(n) => {
            return Ok(*n);
        },
        CapValue::Float(f) => {
            if whole_number(*f) {
                return Ok(f.to_i64());
            }
        },
        _ => {},
    }
    let told = cat2(" must be int, got ", args[idx].kind_name());
    Err(arg_error_text(capability, idx, told.as_str()))
}

/// The finite number that a value holds, or what is wrong with it.
pub open spec fn finite_number(c: Cap) -> Result<Real, Seq<char>> {
    match c {
        Cap::Int(n) => Ok(real_of_int(n as int)),
        Cap::Float(f) => if f.spec_is_finite() {
            Ok(f)
        } else {
            Err(" must be finite"@)
        },
        other => Err(" must be number, got "@ + other.kind()),
    }
}

fn read_number(c: &CapValue) -> (r: Result<Real, String>)
    ensures
        match finite_number(cap(*c)) {
            Ok(x) => r is Ok && r->Ok_0 == x,
            Err(e) => r is Err && r->Err_0@ == e,
        },
{
    match c {
        CapValue::Int(n) => Ok(Real::of_i64(*n)),
        CapValue::Float(f) => if f.is_finite() {
            Ok(*f)
        } else {
            Err(String::from_str(" must be finite"))
        },
        other => Err(cat2(" must be number, got ", other.kind_name())),
    }
}

/// The number that an argument holds.
pub open spec fn number_arg(args: Seq<Cap>, i: int, capability: Seq<char>) -> Result<
    Real,
    Seq<char>,
> {
    if i >= args.len() {
        Err(missing_error(capability, i))
    } else {
        match finite_number(args[i]) {
            Ok(x) => Ok(x),
            Err(told) => Err(arg_error(capability, i, told)),
        }
    }
}

/// Reads an argument that must be a finite number.
pub fn number(args: &Vec<CapValue>, idx: usize, capability: &str) -> (r: Result<Real, String>)
    requires
        idx < usize::MAX,
    ensures
        match number_arg(caps(args@), idx as int, capability@) {
            Ok(x) => r is Ok && r->Ok_0 == x,
            Err(e) => r is Err && r->Err_0@ == e,
        },
{
    if idx >= args.len() {
        return Err(missing_text(capability, idx));
    }
    match read_number(&args[idx]) {
        Ok(x) => Ok(x),
        Err(told) => Err(arg_error_text(capability, idx, told.as_str())),
    }
}

/// The first `n` arguments as numbers, or the first error among them.
pub open spec fn number_args(args: Seq<Cap>, n: nat, capability: Seq<char>) -> Result<
    Seq<Real>,
    Seq<char>,
>
    decreases n,
{
    if n == 0 {
        Ok(Seq::empty())
    } else {
        match number_args(args, (n - 1) as nat, capability) {
            Ok(v) => match number_arg(args, n - 1, capability) {
                Ok(x) => Ok(v.push(x)),
                Err(e) => Err(e),
            },
            Err(e) => Err(e),
        }
    }
}

proof fn number_args_fail(args: Seq<Cap>, k: nat, n: nat, capability: Seq<char>)
    requires
        k <= n,
        number_args(args, k, capability) is Err,
    ensures
        number_args(args, n, capability) == number_args(args, k, capability),
    decreases n,
{
    if k < n {
        number_args_fail(args, k, (n - 1) as nat, capability);
    }
}

/// Exactly `count` arguments, all of them finite numbers.
pub open spec fn all_numbers(args: Seq<Cap>, count: nat, capability: Seq<char>) -> Result<
    Seq<Real>,
    Seq<char>,
> {
    match arity(args, count as int, capability) {
        Ok(_) => number_args(args, count, capability),
        Err(e) => Err(e),
    }
}

/// Reads exactly `count` arguments that must all be finite numbers.
pub fn numbers(args: &Vec<CapValue>, count: usize, capability: &str) -> (r: Result<
    Vec<Real>,
    String,
>)
    ensures
        match all_numbers(caps(args@), count as nat, capability@) {
            Ok(v) => r is Ok && r->Ok_0@ == v,
            Err(e) => r is Err && r->Err_0@ == e,
        },
{
    if let Err(e) = expect_arity(args, count, capability) {
        return Err(e);
    }
    let mut v: Vec<Real> = Vec::new();
    let mut i: usize = 0;
    while i < count
        invariant
            i <= count,
            arity(caps(args@), count as int, capability@) is Ok,
            number_args(caps(args@), i as nat, capability@) == Ok::<Seq<Real>, Seq<char>>(v@),
        decreases count - i,
    {
        match number(args, i, capability) {
            Ok(x) => v.push(x),
            Err(e) => {
                proof {
                    number_args_fail(caps(args@), (i + 1) as nat, count as nat, capability@);
                }
                return Err(e);
            },
        }
        i = i + 1;
    }
    Ok(v)
}

/// The items as numbers, or the first error among them.
pub open spec fn item_numbers(items: Seq<Cap>, capability: Seq<char>) -> Result<
    Seq<Real>,
    Seq<char>,
>
    decreases items.len(),
{
    if items.len() == 0 {
        Ok(Seq::empty())
    } else {
        match item_numbers(items.drop_last(), capability) {
            Ok(v) => match finite_number(items.last()) {
                Ok(x) => Ok(v.push(x)),
                Err(told) => Err(
                    capability + " array item "@ + dec(items.len() as int) + told,
                ),
            },
            Err(e) => Err(e),
        }
    }
}

proof fn item_numbers_fail(items: Seq<Cap>, k: int, capability: Seq<char>)
    requires
        0 <= k <= items.len(),
        item_numbers(items.take(k), capability) is Err,
    ensures
        item_numbers(items, capability) == item_numbers(items.take(k), capability),
    decreases items.len(),
{
    if k < items.len() {
        assert(items.drop_last().take(k) == items.take(k));
        item_numbers_fail(items.drop_last(), k, capability);
    } else {
        assert(items.take(k) == items);
    }
}

/// The numbers of an argument that must be a non-empty list of them.
pub open spec fn array_arg(args: Seq<Cap>, i: int, capability: Seq<char>) -> Result<
    Seq<Real>,
    Seq<char>,
> {
    if i >= args.len() {
        Err(missing_error(capability, i))
    } else {
        match args[i] {
            Cap::Array(items) => if items.len() == 0 {
                Err(capability + " requires a non-empty numeric array"@)
            } else {
                item_numbers(items, capability)
            },
            other => Err(arg_error(capability, i, " must be array, got "@ + other.kind())),
        }
    }
}

/// Reads an argument that must be a non-empty list of finite numbers.
pub fn numeric_array(args: &Vec<CapValue>, idx: usize, capability: &str) -> (r: Result<
    Vec<Real>,
    String,
>)
    requires
        idx < usize::MAX,
    ensures
        match array_arg(caps(args@), idx as int, capability@) {
            Ok(v) => r is Ok && r->Ok_0@ == v && v.len() > 0,
            Err(e) => r is Err && r->Err_0@ == e,
        },
{
    if idx >= args.len() {
        return Err(missing_text(capability, idx));
    }
    let items = match &args[idx] {
        CapValue::Array(items) => items,
        other => {
            let told = cat2(" must be array, got ", other.kind_name());
            return Err(arg_error_text(capability, idx, told.as_str()));
        },
    };
    if items.len() == 0 {
        return Err(cat2(capability, " requires a non-empty numeric array"));
    }
    let ghost all = caps(items@);
    let mut v: Vec<Real> = Vec::new();
    let mut i: usize = 0;
    assert(all.take(0) == Seq::<Cap>::empty());
    while i < items.len()
        invariant
            i <= items.len(),
            all == caps(items@),
            idx < args.len(),
            caps(args@)[idx as int] == Cap::Array(all),
            all.len() > 0,
            v@.len() == i,
            item_numbers(all.take(i as int), capability@) == Ok::<Seq<Real>, Seq<char>>(v@),
        decreases items.len() - i,
    {
        assert(all.take(i + 1).drop_last() == all.take(i as int));
        match read_number(&items[i]) {
            Ok(x) => v.push(x),
            Err(told) => {
                proof {
                    item_numbers_fail(all, i + 1, capability@);
                }
                return Err(
                    cat4(capability, " array item ", size_text(i + 1).as_str(), told.as_str()),
                );
            },
        }
        i = i + 1;
    }
    assert(all.take(i as int) == all);
    Ok(v)
}

/// Whether the text is an HTTP address.
pub open spec fn is_url(s: Seq<char>) -> bool {
    begins(s, "http://"@) || begins(s, "https://"@)
}

/// The address that an argument holds.
pub open spec fn url_arg(args: Seq<Cap>, i: int, capability: Seq<char>) -> Result<
    Seq<char>,
    Seq<char>,
> {
    match str_arg(args, i, capability) {
        Ok(s) => if is_url(s) {
            Ok(s)
        } else {
            Err(capability + " only accepts http:// or https:// URLs"@)
        },
        Err(e) => Err(e),
    }
}

/// Reads an argument that must be an HTTP address.
pub fn expect_url<'a>(args: &'a Vec<CapValue>, idx: usize, capability: &str) -> (r: Result<
    &'a str,
    String,
>)
    requires
        idx < usize::MAX,
    ensures
        match url_arg(caps(args@), idx as int, capability@) {
            Ok(s) => r is Ok && r->Ok_0@ == s,
            Err(e) => r is Err && r->Err_0@ == e,
        },
{
    match expect_str(args, idx, capability) {
        Ok(s) => if starts_with(s, "http://") || starts_with(s, "https://") {
            Ok(s)
        } else {
            Err(cat2(capability, " only accepts http:// or https:// URLs"))
        },
        Err(e) => Err(e),
    }
}

} // verus!
