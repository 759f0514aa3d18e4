//! Which arguments capabilities take.

use crate::cap_args::{all_numbers, arity, int_arg, is_whole, number_arg, number_args, str_arg, url_arg};
use crate::cap_value::Cap;
use crate::number::{Real, real_of_int};
use crate::strings::begins;
use vstd::prelude::*;

verus! {

/// A value that counts as a finite number, and the number.
pub open spec fn counts_as(c: Cap, x: Real) -> bool {
    match c {
        Cap::Int(n) => x == real_of_int(n as int),
        Cap::Float(f) => x == f && f.spec_is_finite(),
        _ => false,
    }
}

/// As many arguments are taken as are expected.
pub proof fn arguments_are_counted(args: Seq<Cap>, expected: int, capability: Seq<char>)
    ensures
        arity(args, expected, capability) is Ok <==> args.len() == expected,
{
}

/// A text is taken where one is given, as it is; an address only where it begins with
/// a scheme of the web.
pub proof fn texts_are_taken(args: Seq<Cap>, i: int, capability: Seq<char>, s: Seq<char>)
    requires
        0 <= i,
    ensures
        str_arg(args, i, capability) == Ok::<Seq<char>, Seq<char>>(s) <==> i < args.len() && args[i]
            == Cap::Str(s),
        url_arg(args, i, capability) == Ok::<Seq<char>, Seq<char>>(s) <==> i < args.len() && args[i]
            == Cap::Str(s) && (begins(s, "http://"@) || begins(s, "https://"@)),
{
}

/// A number is taken where an integer or a finite number is given; an integer where
/// one is given, or a number that is whole.
pub proof fn numbers_are_taken(args: Seq<Cap>, i: int, capability: Seq<char>, x: Real, n: i64)
    requires
        0 <= i,
    ensures
        number_arg(args, i, capability) == Ok::<Real, Seq<char>>(x) <==> i < args.len()
            && counts_as(args[i], x),
        i < args.len() && args[i] == Cap::Int(n) ==> int_arg(args, i, capability) == Ok::<
            int,
            Seq<char>,
        >(n as int),
        i < args.len() && args[i] is Float ==> (int_arg(args, i, capability) is Ok <==> is_whole(
            args[i]->Float_0,
        )),
        i >= args.len() || (!(args[i] is Int) && !(args[i] is Float)) ==> int_arg(
            args,
            i,
            capability,
        ) is Err,
{
}

/// All arguments are taken as numbers, each in its place, or none is.
pub proof fn all_numbers_are_taken(
    args: Seq<Cap>,
    count: nat,
    capability: Seq<char>,
    v: Seq<Real>,
)
    ensures
        all_numbers(args, count, capability) == Ok::<Seq<Real>, Seq<char>>(v) <==> args.len()
            == count && v.len() == count && forall|i: int|
            0 <= i < count ==> counts_as(#[trigger] args[i], v[i]),
{
    if args.len() == count {
        first_numbers_are_taken(args, count, capability, v);
    }
}

proof fn first_numbers_are_taken(args: Seq<Cap>, n: nat, capability: Seq<char>, v: Seq<Real>)
    requires
        n <= args.len(),
    ensures
        number_args(args, n, capability) == Ok::<Seq<Real>, Seq<char>>(v) <==> v.len() == n
            && forall|i: int| 0 <= i < n ==> counts_as(#[trigger] args[i], v[i]),
    decreases n,
{
    if n > 0 {
        let front = v.drop_last();
        first_numbers_are_taken(args, (n - 1) as nat, capability, front);
        if number_args(args, n, capability) == Ok::<Seq<Real>, Seq<char>>(v) {
            let w = number_args(args, (n - 1) as nat, capability)->Ok_0;
            assert(front =~= w);
            assert(v[n - 1] == v.last());
            assert forall|i: int| 0 <= i < n implies counts_as(#[trigger] args[i], v[i]) by {
                if i < n - 1 {
                    assert(front[i] == v[i]);
                }
            }
        }
        if v.len() == n && (forall|i: int| 0 <= i < n ==> counts_as(#[trigger] args[i], v[i])) {
            assert forall|i: int| 0 <= i < n - 1 implies counts_as(#[trigger] args[i], front[i]) by {
                assert(front[i] == v[i]);
            }
            assert(counts_as(args[n - 1], v[n - 1]));
            assert(front.push(v[n - 1]) =~= v);
        }
    } else {
        if v.len() == 0 {
            assert(v =~= Seq::<Real>::empty());
        }
    }
}

} // verus!
