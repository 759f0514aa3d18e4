//! What each capability answers, in terms of its arguments.
//!
//! Calls are told by their names and plain arguments, and answers by what they
//! must satisfy.

use crate::cap_args::{array_arg, item_numbers, number_args};
use crate::cap_calls::{FileWorkView, HUNDRED, KernelView, StepView, call_step, first_denied, greatest, input_step, input_walk, is_pair, least, pair_value, permitted_step, reads_only, scaled, sorted_values, work_on_file};
use crate::cap_value::{Cap, CapValue, cap};
use crate::capabilities::entry_named;
use crate::capability_list::listing;
use crate::conformal::sorted_length;
use crate::context::{ExecutionContext, ExecutionPolicy};
use crate::json::{Js, Number, field};
use crate::json_path::{js_cap, js_path, js_step, js_walk};
use crate::json_text::text_js;
use crate::number::{ONE, Real, bit_length, cut_to_i64, real_of_int};
use crate::parse::{all_digits, digits_value, is_digit, natural};
use crate::sorting::{by_key, sorting_orders};
use crate::strings::parts;
use vstd::arithmetic::power2::{lemma2_to64, lemma2_to64_rest};
use vstd::prelude::*;
use vstd::utf8::encode_utf8;

verus! {

/// A call that no policy limits.
pub open spec fn unlimited(ctx: Option<ExecutionContext>) -> bool {
    ctx is None || ctx->Some_0.policy is None
}

/// A list of numbers as the argument of a call.
pub open spec fn list_arg(v: Seq<Real>) -> Cap {
    Cap::Array(v.map_values(|r: Real| Cap::Float(r)))
}

/// A list of numbers and a number as the arguments of a call.
pub open spec fn list_and(v: Seq<Real>, x: Real) -> Seq<Cap> {
    seq![list_arg(v), Cap::Float(x)]
}

/// Every number of the list is finite.
pub open spec fn all_finite(v: Seq<Real>) -> bool {
    forall|i: int| 0 <= i < v.len() ==> (#[trigger] v[i]).spec_is_finite()
}

/// How the names of the capabilities differ.
proof fn names_differ()
    ensures
        "runtime.capabilities"@.len() == 20,
        "runtime.input"@.len() == 13,
        "runtime.inputGet"@.len() == 16,
        "runtime.publish"@.len() == 15,
        "file.exists"@.len() == 11,
        "file.readText"@.len() == 13,
        "file.writeText"@.len() == 14,
        "http.get"@.len() == 8,
        "http.post"@.len() == 9,
        "json.get"@.len() == 8,
        "json.has"@.len() == 8,
        "json.len"@.len() == 8,
        "sql.sqliteQuery"@.len() == 15,
        "stats.mean"@.len() == 10,
        "stats.stdDev"@.len() == 12,
        "stats.min"@.len() == 9,
        "stats.max"@.len() == 9,
        "stats.percentile"@.len() == 16,
        "series.ewmaForecast"@.len() == 19,
        "ops.autoScaleRecommend"@.len() == 22,
        "nav.norm3"@.len() == 9,
        "nav.distance3"@.len() == 13,
        "nav.dot3"@.len() == 8,
        "nav.radialVelocity"@.len() == 18,
        "nav.ephemerisState"@.len() == 18,
        "nav.horizonsVectors"@.len() == 19,
        "astro.lambertSolve"@.len() == 18,
        "runtime.input"@ != "file.readText"@,
        "runtime.input"@ != "nav.distance3"@,
        "runtime.inputGet"@ != "stats.percentile"@,
        "runtime.publish"@ != "sql.sqliteQuery"@,
        "file.readText"@ != "nav.distance3"@,
        "http.get"@ != "json.get"@,
        "http.get"@ != "json.has"@,
        "http.get"@ != "json.len"@,
        "http.get"@ != "nav.dot3"@,
        "http.post"@ != "stats.min"@,
        "http.post"@ != "stats.max"@,
        "http.post"@ != "nav.norm3"@,
        "json.get"@ != "json.has"@,
        "json.get"@ != "json.len"@,
        "json.get"@ != "nav.dot3"@,
        "json.has"@ != "json.len"@,
        "json.has"@ != "nav.dot3"@,
        "json.len"@ != "nav.dot3"@,
        "stats.min"@ != "stats.max"@,
        "stats.min"@ != "nav.norm3"@,
        "stats.max"@ != "nav.norm3"@,
        "series.ewmaForecast"@ != "nav.horizonsVectors"@,
        "nav.radialVelocity"@ != "nav.ephemerisState"@,
        "nav.radialVelocity"@ != "astro.lambertSolve"@,
        "nav.ephemerisState"@ != "astro.lambertSolve"@,
{
    reveal_strlit("runtime.capabilities");
    reveal_strlit("runtime.input");
    reveal_strlit("runtime.inputGet");
    reveal_strlit("runtime.publish");
    reveal_strlit("file.exists");
    reveal_strlit("file.readText");
    reveal_strlit("file.writeText");
    reveal_strlit("http.get");
    reveal_strlit("http.post");
    reveal_strlit("json.get");
    reveal_strlit("json.has");
    reveal_strlit("json.len");
    reveal_strlit("sql.sqliteQuery");
    reveal_strlit("stats.mean");
    reveal_strlit("stats.stdDev");
    reveal_strlit("stats.min");
    reveal_strlit("stats.max");
    reveal_strlit("stats.percentile");
    reveal_strlit("series.ewmaForecast");
    reveal_strlit("ops.autoScaleRecommend");
    reveal_strlit("nav.norm3");
    reveal_strlit("nav.distance3");
    reveal_strlit("nav.dot3");
    reveal_strlit("nav.radialVelocity");
    reveal_strlit("nav.ephemerisState");
    reveal_strlit("nav.horizonsVectors");
    reveal_strlit("astro.lambertSolve");
    assert("runtime.input"@[0] != "file.readText"@[0]);
    assert("runtime.input"@[0] != "nav.distance3"@[0]);
    assert("runtime.inputGet"@[0] != "stats.percentile"@[0]);
    assert("runtime.publish"@[0] != "sql.sqliteQuery"@[0]);
    assert("file.readText"@[0] != "nav.distance3"@[0]);
    assert("http.get"@[0] != "json.get"@[0]);
    assert("http.get"@[0] != "json.has"@[0]);
    assert("http.get"@[0] != "json.len"@[0]);
    assert("http.get"@[0] != "nav.dot3"@[0]);
    assert("http.post"@[0] != "stats.min"@[0]);
    assert("http.post"@[0] != "stats.max"@[0]);
    assert("http.post"@[0] != "nav.norm3"@[0]);
    assert("json.get"@[5] != "json.has"@[5]);
    assert("json.get"@[5] != "json.len"@[5]);
    assert("json.get"@[0] != "nav.dot3"@[0]);
    assert("json.has"@[5] != "json.len"@[5]);
    assert("json.has"@[0] != "nav.dot3"@[0]);
    assert("json.len"@[0] != "nav.dot3"@[0]);
    assert("stats.min"@[7] != "stats.max"@[7]);
    assert("stats.min"@[0] != "nav.norm3"@[0]);
    assert("stats.max"@[0] != "nav.norm3"@[0]);
    assert("series.ewmaForecast"@[0] != "nav.horizonsVectors"@[0]);
    assert("nav.radialVelocity"@[4] != "nav.ephemerisState"@[4]);
    assert("nav.radialVelocity"@[0] != "astro.lambertSolve"@[0]);
    assert("nav.ephemerisState"@[0] != "astro.lambertSolve"@[0]);
}

/// A list of finite numbers is read as those numbers, in order.
pub proof fn lists_are_read_as_they_are(v: Seq<Real>, name: Seq<char>)
    requires
        all_finite(v),
    ensures
        item_numbers(v.map_values(|r: Real| Cap::Float(r)), name) == Ok::<Seq<Real>, Seq<char>>(v),
    decreases v.len(),
{
    let items = v.map_values(|r: Real| Cap::Float(r));
    if v.len() > 0 {
        let front = v.drop_last();
        assert forall|i: int| 0 <= i < front.len() implies (
        #[trigger] front[i]).spec_is_finite() by {
            assert(front[i] == v[i]);
        }
        lists_are_read_as_they_are(front, name);
        assert(items.drop_last() =~= front.map_values(|r: Real| Cap::Float(r)));
        assert(v.last() == v[v.len() - 1]);
        assert(front.push(v.last()) =~= v);
    } else {
        assert(v =~= Seq::<Real>::empty());
    }
}

proof fn list_is_read(v: Seq<Real>, more: Seq<Cap>, name: Seq<char>)
    requires
        all_finite(v),
        v.len() > 0,
    ensures
        array_arg(seq![list_arg(v)] + more, 0, name) == Ok::<Seq<Real>, Seq<char>>(v),
{
    lists_are_read_as_they_are(v, name);
    assert((seq![list_arg(v)] + more)[0] == list_arg(v));
}

proof fn finite_is_no_nan(r: Real)
    requires
        r.spec_is_finite(),
    ensures
        !r.spec_is_nan(),
{
}

proof fn least_is_least(v: Seq<Real>) -> (i: int)
    requires
        v.len() > 0,
        all_finite(v),
    ensures
        0 <= i < v.len(),
        least(v) == v[i],
        forall|k: int| 0 <= k < v.len() ==> !(#[trigger] v[k]).below(v[i]),
        forall|k: int| 0 <= k < i ==> v[i].below(#[trigger] v[k]),
    decreases v.len(),
{
    if v.len() == 1 {
        0
    } else {
        let front = v.drop_last();
        assert forall|k: int| 0 <= k < front.len() implies (
        #[trigger] front[k]).spec_is_finite() by {
            assert(front[k] == v[k]);
        }
        let i = least_is_least(front);
        assert(v.last() == v[v.len() - 1]);
        assert(v[v.len() - 1].spec_is_finite() && v[i].spec_is_finite());
        if v.last().below(front[i]) {
            assert forall|k: int| 0 <= k < v.len() implies !(#[trigger] v[k]).below(v.last()) by {
                if k < front.len() {
                    assert(v[k] == front[k]);
                    assert(!front[k].below(front[i]));
                    assert(v[k].spec_is_finite());
                }
            }
            assert forall|k: int| 0 <= k < v.len() - 1 implies v.last().below(#[trigger] v[k]) by {
                assert(v[k] == front[k]);
                assert(!front[k].below(front[i]));
                assert(v[k].spec_is_finite());
            }
            v.len() - 1
        } else {
            assert forall|k: int| 0 <= k < v.len() implies !(#[trigger] v[k]).below(v[i]) by {
                if k < front.len() {
                    assert(v[k] == front[k]);
                    assert(!front[k].below(front[i]));
                }
            }
            assert forall|k: int| 0 <= k < i implies v[i].below(#[trigger] v[k]) by {
                assert(v[k] == front[k]);
            }
            i
        }
    }
}

proof fn greatest_is_greatest(v: Seq<Real>) -> (i: int)
    requires
        v.len() > 0,
        all_finite(v),
    ensures
        0 <= i < v.len(),
        greatest(v) == v[i],
        forall|k: int| 0 <= k < v.len() ==> !v[i].below(#[trigger] v[k]),
        forall|k: int| 0 <= k < i ==> (#[trigger] v[k]).below(v[i]),
    decreases v.len(),
{
    if v.len() == 1 {
        0
    } else {
        let front = v.drop_last();
        assert forall|k: int| 0 <= k < front.len() implies (
        #[trigger] front[k]).spec_is_finite() by {
            assert(front[k] == v[k]);
        }
        let i = greatest_is_greatest(front);
        assert(v.last() == v[v.len() - 1]);
        assert(v[v.len() - 1].spec_is_finite() && v[i].spec_is_finite());
        if front[i].below(v.last()) {
            assert forall|k: int| 0 <= k < v.len() implies !v.last().below(#[trigger] v[k]) by {
                if k < front.len() {
                    assert(v[k] == front[k]);
                    assert(!front[i].below(front[k]));
                    assert(v[k].spec_is_finite());
                }
            }
            assert forall|k: int| 0 <= k < v.len() - 1 implies (#[trigger] v[k]).below(v.last()) by {
                assert(v[k] == front[k]);
                assert(!front[i].below(front[k]));
                assert(v[k].spec_is_finite());
            }
            v.len() - 1
        } else {
            assert forall|k: int| 0 <= k < v.len() implies !v[i].below(#[trigger] v[k]) by {
                if k < front.len() {
                    assert(v[k] == front[k]);
                    assert(!front[i].below(front[k]));
                }
            }
            assert forall|k: int| 0 <= k < i implies (#[trigger] v[k]).below(v[i]) by {
                assert(v[k] == front[k]);
            }
            i
        }
    }
}

/// `stats.min` answers the first of the list's numbers that no other is below.
pub proof fn min_is_the_first_least(v: Seq<Real>, ctx: Option<ExecutionContext>)
    requires
        unlimited(ctx),
        v.len() > 0,
        all_finite(v),
    ensures
        exists|i: int|
            0 <= i < v.len() && call_step("stats.min"@, seq![list_arg(v)], ctx) == Ok::<
                StepView,
                Seq<char>,
            >(StepView::Done(Cap::Float(#[trigger] v[i]))) && (forall|k: int|
                0 <= k < v.len() ==> !(#[trigger] v[k]).below(v[i])) && (forall|k: int|
                0 <= k < i ==> v[i].below(#[trigger] v[k])),
{
    names_differ();
    list_is_read(v, Seq::empty(), "stats.min"@);
    assert(seq![list_arg(v)] + Seq::empty() =~= seq![list_arg(v)]);
    let i = least_is_least(v);
    assert(call_step("stats.min"@, seq![list_arg(v)], ctx) == Ok::<StepView, Seq<char>>(
        StepView::Done(Cap::Float(v[i])),
    ));
}

/// `stats.max` answers the first of the list's numbers that is below no other.
pub proof fn max_is_the_first_greatest(v: Seq<Real>, ctx: Option<ExecutionContext>)
    requires
        unlimited(ctx),
        v.len() > 0,
        all_finite(v),
    ensures
        exists|i: int|
            0 <= i < v.len() && call_step("stats.max"@, seq![list_arg(v)], ctx) == Ok::<
                StepView,
                Seq<char>,
            >(StepView::Done(Cap::Float(#[trigger] v[i]))) && (forall|k: int|
                0 <= k < v.len() ==> !v[i].below(#[trigger] v[k])) && (forall|k: int|
                0 <= k < i ==> (#[trigger] v[k]).below(v[i])),
{
    names_differ();
    list_is_read(v, Seq::empty(), "stats.max"@);
    assert(seq![list_arg(v)] + Seq::empty() =~= seq![list_arg(v)]);
    let i = greatest_is_greatest(v);
    assert(call_step("stats.max"@, seq![list_arg(v)], ctx) == Ok::<StepView, Seq<char>>(
        StepView::Done(Cap::Float(v[i])),
    ));
}

/// What the host is to compute for a call.
pub open spec fn computes(
    name: Seq<char>,
    args: Seq<Cap>,
    ctx: Option<ExecutionContext>,
    k: KernelView,
) -> bool {
    call_step(name, args, ctx) == Ok::<StepView, Seq<char>>(StepView::Compute(k))
}

/// The mean, the deviation and the forecast are computed of the list's numbers in
/// their order; the percentile of the same numbers in growing order.
pub proof fn lists_reach_the_host(v: Seq<Real>, x: Real, ctx: Option<ExecutionContext>)
    requires
        unlimited(ctx),
        v.len() > 0,
        all_finite(v),
        x.spec_is_finite(),
    ensures
        computes("stats.mean"@, seq![list_arg(v)], ctx, KernelView::Mean(v)),
        computes("stats.stdDev"@, seq![list_arg(v)], ctx, KernelView::StdDev(v)),
        (Real { bits: 0 }).at_most(x) && x.at_most(Real { bits: ONE }) ==> computes(
            "series.ewmaForecast"@,
            list_and(v, x),
            ctx,
            KernelView::Ewma(v, x),
        ),
        !((Real { bits: 0 }).at_most(x) && x.at_most(Real { bits: ONE })) ==> call_step(
            "series.ewmaForecast"@,
            list_and(v, x),
            ctx,
        ) is Err,
        (Real { bits: 0 }).at_most(x) && x.at_most(real_of_int(100)) ==> exists|s: Seq<Real>|
            #[trigger] computes(
                "stats.percentile"@,
                list_and(v, x),
                ctx,
                KernelView::Percentile(s, x),
            ) && s.to_multiset() == v.to_multiset() && (forall|i: int, j: int|
                0 <= i <= j < s.len() ==> (#[trigger] s[i]).at_most(#[trigger] s[j])),
        !((Real { bits: 0 }).at_most(x) && x.at_most(real_of_int(100))) ==> call_step(
            "stats.percentile"@,
            list_and(v, x),
            ctx,
        ) is Err,
{
    names_differ();
    let one = seq![list_arg(v)];
    let two = list_and(v, x);
    assert(one + Seq::empty() =~= one);
    assert(one + seq![Cap::Float(x)] =~= two);
    list_is_read(v, Seq::empty(), "stats.mean"@);
    list_is_read(v, Seq::empty(), "stats.stdDev"@);
    list_is_read(v, seq![Cap::Float(x)], "series.ewmaForecast"@);
    list_is_read(v, seq![Cap::Float(x)], "stats.percentile"@);
    assert(real_of_int(100) == (Real { bits: HUNDRED })) by {
        hundred_is_a_hundred();
    }
    values_in_order(v);
    if (Real { bits: 0 }).at_most(x) && x.at_most(real_of_int(100)) {
        assert(computes(
            "stats.percentile"@,
            two,
            ctx,
            KernelView::Percentile(sorted_values(v), x),
        ));
    }
}

proof fn hundred_is_a_hundred()
    ensures
        real_of_int(100) == (Real { bits: HUNDRED }),
{
    lemma2_to64();
    lemma2_to64_rest();
    reveal_with_fuel(bit_length, 8);
    assert(bit_length(100) == 7);
}

/// Sorted values are the same values, and each is at most those behind it.
pub proof fn values_in_order(v: Seq<Real>)
    requires
        all_finite(v),
    ensures
        sorted_values(v).len() == v.len(),
        sorted_values(v).to_multiset() == v.to_multiset(),
        forall|i: int, j: int|
            0 <= i <= j < v.len() ==> (#[trigger] sorted_values(v)[i]).at_most(
                #[trigger] sorted_values(v)[j],
            ),
{
    let p = v.map_values(|r: Real| (r, ()));
    assert forall|i: int| 0 <= i < p.len() implies !(#[trigger] p[i]).0.spec_is_nan() by {
        assert(v[i].spec_is_finite());
    }
    sorting_orders(p);
    let q = by_key(p);
    sorted_length(v);
    assert forall|r: Real| #[trigger] sorted_values(v).to_multiset().count(r)
        == v.to_multiset().count(r) by {
        keys_are_counted(q, r);
        keys_are_counted(p, r);
        assert(p.map_values(|x: (Real, ())| x.0) =~= v);
    }
    assert(sorted_values(v).to_multiset() =~= v.to_multiset());
    assert forall|i: int, j: int| 0 <= i <= j < v.len() implies (
    #[trigger] sorted_values(v)[i]).at_most(#[trigger] sorted_values(v)[j]) by {
        assert(!q[i].0.spec_is_nan() && !q[j].0.spec_is_nan());
        if i < j {
            assert(!q[j].0.below(q[i].0));
        }
    }
}

proof fn keys_are_counted(s: Seq<(Real, ())>, r: Real)
    ensures
        s.map_values(|x: (Real, ())| x.0).to_multiset().count(r) == s.to_multiset().count((r, ())),
    decreases s.len(),
{
    broadcast use vstd::seq_lib::group_to_multiset_ensures;

    let t = s.map_values(|x: (Real, ())| x.0);
    if s.len() > 0 {
        let front = s.drop_last();
        keys_are_counted(front, r);
        assert(front.push(s.last()) =~= s);
        assert(front.map_values(|x: (Real, ())| x.0).push(s.last().0) =~= t);
        assert(s.last().1 == ());
        assert(s.last() == (s.last().0, ()));
    } else {
        assert(s =~= Seq::<(Real, ())>::empty());
        assert(t =~= Seq::<Real>::empty());
    }
}

/// Which effect of the outside world a call has, by its name.
pub open spec fn effect_of(name: Seq<char>) -> Option<Seq<char>> {
    if name == "file.exists"@ || name == "file.readText"@ || name == "sql.sqliteQuery"@ || name
        == "nav.ephemerisState"@ {
        Some("file_read"@)
    } else if name == "file.writeText"@ {
        Some("file_write"@)
    } else if name == "http.get"@ || name == "http.post"@ || name == "nav.horizonsVectors"@ {
        Some("network"@)
    } else {
        None
    }
}

/// What a policy says of an effect.
pub open spec fn allowed(effect: Seq<char>, p: ExecutionPolicy) -> bool {
    (effect == "file_read"@ ==> p.allow_file_read) && (effect == "file_write"@
        ==> p.allow_file_write) && (effect == "network"@ ==> p.allow_network)
}

/// A policy refuses exactly the calls whose effect it does not allow: reading
/// needs leave to read, writing leave to write, requests leave for the network,
/// and everything else needs none.
#[verifier::rlimit(40)]
pub proof fn policies_refuse_by_effect(
    name: Seq<char>,
    args: Seq<Cap>,
    ctx: ExecutionContext,
)
    requires
        ctx.policy is Some,
    ensures
        match effect_of(name) {
            Some(effect) => if allowed(effect, ctx.policy->Some_0) {
                call_step(name, args, Some(ctx)) == permitted_step(name, args, Some(ctx))
            } else {
                call_step(name, args, Some(ctx)) == Err::<StepView, Seq<char>>(
                    "capability="@ + name + " effect="@ + effect + " denied by policy"@,
                )
            },
            None => call_step(name, args, Some(ctx)) == permitted_step(name, args, Some(ctx)),
        },
{
    names_differ();
    reveal_strlit("file_read");
    reveal_strlit("file_write");
    reveal_strlit("network");
    reveal_strlit("publish");
    assert("network"@[0] != "publish"@[0]);
    let p = ctx.policy->Some_0;
    reveal_with_fuel(entry_named, 28);
    reveal_with_fuel(first_denied, 3);
    let all = listing();
    assert forall|k: int| 0 <= k < 27 implies (#[trigger] all.skip(k)).drop_first() =~= all.skip(
        k + 1,
    ) by {}
    assert(all.skip(0) =~= all);
    entry_at(name, 0);
}

/// What is listed from entry `k` on.
proof fn entry_at(name: Seq<char>, k: int)
    requires
        0 <= k <= 27,
    ensures
        match entry_named(listing().skip(k), name) {
            Some(e) => exists|i: int| k <= i < 27 && listing()[i] == e && e.name == name,
            None => forall|i: int| k <= i < 27 ==> (#[trigger] listing()[i]).name != name,
        },
    decreases 27 - k,
{
    let all = listing();
    if k < 27 {
        assert(all.skip(k).drop_first() =~= all.skip(k + 1));
        assert(all.skip(k)[0] == all[k]);
        entry_at(name, k + 1);
    }
}

/// A path through JSON goes step by step: one more segment goes one step further.
pub proof fn paths_go_step_by_step(j: Js, path: Seq<Seq<char>>, segment: Seq<char>)
    requires
        segment.len() > 0,
    ensures
        js_walk(j, Seq::empty()) == Some(j),
        js_walk(j, path) is None ==> js_walk(j, path.push(segment)) is None,
        js_walk(j, path) is Some ==> js_walk(j, path.push(segment)) == js_step(
            js_walk(j, path)->Some_0,
            segment,
        ),
{
    assert(path.push(segment).drop_last() =~= path);
}

/// A step into a list takes the item with the segment's number, and a step into an
/// object takes a field with the segment's name; where there is none, the path
/// leads nowhere, and no other value has parts.
pub proof fn steps_take_items_and_fields(j: Js, segment: Seq<char>)
    ensures
        match j {
            Js::Arr(a) => match js_step(j, segment) {
                Some(v) => natural(segment) matches Some(n) && 0 <= n < a.len() && v == a[n],
                None => natural(segment) matches Some(n) ==> !(0 <= n < a.len()),
            },
            Js::Obj(o) => match js_step(j, segment) {
                Some(v) => exists|i: int| 0 <= i < o.len() && #[trigger] o[i] == (segment, v),
                None => forall|i: int| 0 <= i < o.len() ==> (#[trigger] o[i]).0 != segment,
            },
            _ => js_step(j, segment) is None,
        },
{
    if let Js::Obj(o) = j {
        fields_are_found(o, segment);
    }
    if let Some(n) = natural(segment) {
        naturals_are_no_less(segment);
    }
}

proof fn naturals_are_no_less(s: Seq<char>)
    ensures
        natural(s) matches Some(n) ==> n >= 0,
{
    digits_are_no_less(s);
    if s.len() > 0 {
        digits_are_no_less(s.drop_first());
    }
}

proof fn digits_are_no_less(s: Seq<char>)
    ensures
        all_digits(s) ==> digits_value(s) >= 0,
    decreases s.len(),
{
    if s.len() > 0 && all_digits(s) {
        assert forall|i: int| 0 <= i < s.drop_last().len() implies is_digit(
            #[trigger] s.drop_last()[i],
        ) by {
            assert(is_digit(s[i]));
        }
        digits_are_no_less(s.drop_last());
        assert(is_digit(s[s.len() - 1]));
    }
}

proof fn fields_are_found(o: Seq<(Seq<char>, Js)>, key: Seq<char>)
    ensures
        match field(o, key) {
            Some(v) => exists|i: int| 0 <= i < o.len() && #[trigger] o[i] == (key, v),
            None => forall|i: int| 0 <= i < o.len() ==> (#[trigger] o[i]).0 != key,
        },
    decreases o.len(),
{
    if o.len() > 0 {
        assert(o.last() == o[o.len() - 1]);
        if o.last().0 == key {
            assert(o[o.len() - 1] == (key, o.last().1));
        } else {
            let front = o.drop_last();
            fields_are_found(front, key);
            if let Some(v) = field(front, key) {
                let i = choose|i: int| 0 <= i < front.len() && #[trigger] front[i] == (key, v);
                assert(o[i] == (key, v));
            } else {
                assert forall|i: int| 0 <= i < o.len() implies (#[trigger] o[i]).0 != key by {
                    if i < front.len() {
                        assert(front[i].0 != key);
                    }
                }
            }
        }
    }
}

/// `json.get`, `json.has` and `json.len` answer for the value at the path: what it
/// is, whether there is one, and how many items, fields or characters it has.
pub proof fn json_calls_answer_for_the_path(
    text: Seq<char>,
    path: Seq<char>,
    root: Js,
    ctx: Option<ExecutionContext>,
)
    requires
        unlimited(ctx),
        text_js(text) == Ok::<Js, Seq<char>>(root),
    ensures
        ({
            let args = seq![Cap::Str(text), Cap::Str(path)];
            let found = js_path(root, path);
            &&& call_step("json.has"@, args, ctx) == Ok::<StepView, Seq<char>>(
                StepView::Done(Cap::Bool(found is Some)),
            )
            &&& match found {
                Some(v) => call_step("json.get"@, args, ctx) == Ok::<StepView, Seq<char>>(
                    StepView::Done(js_cap(v)),
                ),
                None => call_step("json.get"@, args, ctx) is Err && call_step(
                    "json.len"@,
                    args,
                    ctx,
                ) is Err,
            }
            &&& found matches Some(Js::Arr(a)) ==> a.len() <= i64::MAX ==> call_step(
                "json.len"@,
                args,
                ctx,
            ) == Ok::<StepView, Seq<char>>(StepView::Done(Cap::Int(a.len() as i64)))
            &&& found matches Some(Js::Obj(o)) ==> o.len() <= i64::MAX ==> call_step(
                "json.len"@,
                args,
                ctx,
            ) == Ok::<StepView, Seq<char>>(StepView::Done(Cap::Int(o.len() as i64)))
            &&& found matches Some(Js::Str(s)) ==> s.len() <= i64::MAX ==> call_step(
                "json.len"@,
                args,
                ctx,
            ) == Ok::<StepView, Seq<char>>(StepView::Done(Cap::Int(s.len() as i64)))
            &&& found matches Some(v) ==> (v is Null || v is Bool || v is Num) ==> call_step(
                "json.len"@,
                args,
                ctx,
            ) is Err
        }),
{
    names_differ();
}

/// The empty path and `$` lead to the whole value, and `$.` in front of a path
/// changes nothing.
pub proof fn roots_lead_to_the_whole(j: Js, path: Seq<char>)
    ensures
        js_path(j, Seq::empty()) == Some(j),
        js_path(j, "$"@) == Some(j),
        path.len() > 0 && path != "$"@ ==> js_path(j, seq!['$', '.'] + path) == js_path(j, path),
{
    let s = seq!['$', '.'] + path;
    assert(s.skip(2) =~= path);
    reveal_strlit("$");
}

/// The plain values of JSON come back from a call as they are.
pub proof fn plain_json_comes_back(n: i64, s: Seq<char>, b: bool, a: Seq<Js>, i: int)
    requires
        0 <= i < a.len(),
    ensures
        js_cap(Js::Null) == Cap::Null,
        js_cap(Js::Bool(b)) == Cap::Bool(b),
        js_cap(Js::Str(s)) == Cap::Str(s),
        n >= 0 ==> js_cap(Js::Num(Number::Natural(n as u64))) == Cap::Int(n),
        n < 0 ==> js_cap(Js::Num(Number::Negative(n))) == Cap::Int(n),
        js_cap(Js::Arr(a)) is Array,
        js_cap(Js::Arr(a))->Array_0.len() == a.len(),
        js_cap(Js::Arr(a))->Array_0[i] == js_cap(a[i]),
{
}

/// A run's input is answered whole, and by a dotted path; without an input the
/// answer is null.
pub proof fn inputs_are_answered(path: Seq<char>, ctx: Option<ExecutionContext>, c: CapValue)
    requires
        unlimited(ctx),
    ensures
        ctx is None ==> call_step("runtime.input"@, Seq::empty(), ctx) == Ok::<
            StepView,
            Seq<char>,
        >(StepView::Done(Cap::Null)),
        ctx is Some && ctx->Some_0.input == Some(c) ==> call_step(
            "runtime.input"@,
            Seq::empty(),
            ctx,
        ) == Ok::<StepView, Seq<char>>(StepView::Done(cap(c))),
        ctx is Some && ctx->Some_0.input == Some(c) ==> call_step(
            "runtime.inputGet"@,
            seq![Cap::Str(path)],
            ctx,
        ) == Ok::<StepView, Seq<char>>(StepView::Done(input_walk(cap(c), parts(path, '.')))),
{
    names_differ();
}

/// A path through an input goes step by step: a number enters a list at its item,
/// a key enters the value of the first pair with that key, and everything else
/// leads to null.
pub proof fn inputs_are_entered(c: Cap, path: Seq<Seq<char>>, segment: Seq<char>)
    ensures
        input_walk(c, Seq::empty()) == c,
        input_walk(c, path.push(segment)) == input_step(input_walk(c, path), segment),
        !(c is Array) ==> input_step(c, segment) == Cap::Null,
        c matches Cap::Array(items) ==> {
            &&& natural(segment) is Some && natural(segment)->Some_0 < items.len() && natural(
                segment,
            )->Some_0 <= usize::MAX ==> input_step(c, segment) == items[natural(segment)->Some_0]
            &&& natural(segment) is Some && natural(segment)->Some_0 >= items.len() && natural(
                segment,
            )->Some_0 <= usize::MAX ==> input_step(c, segment) == Cap::Null
            &&& natural(segment) is None ==> {
                ||| input_step(c, segment) == Cap::Null && forall|i: int|
                    0 <= i < items.len() ==> !is_pair(#[trigger] items[i], segment)
                ||| exists|i: int|
                    0 <= i < items.len() && #[trigger] items[i] == Cap::Array(
                        seq![Cap::Str(segment), input_step(c, segment)],
                    ) && forall|j: int| 0 <= j < i ==> !is_pair(#[trigger] items[j], segment)
            }
        },
{
    assert(path.push(segment).drop_last() =~= path);
    if let Cap::Array(items) = c {
        pairs_are_found(items, segment);
    }
}

proof fn pairs_are_found(items: Seq<Cap>, key: Seq<char>)
    ensures
        (pair_value(items, key) == Cap::Null && forall|i: int|
            0 <= i < items.len() ==> !is_pair(#[trigger] items[i], key)) || exists|i: int|
            0 <= i < items.len() && #[trigger] items[i] == Cap::Array(
                seq![Cap::Str(key), pair_value(items, key)],
            ) && forall|j: int| 0 <= j < i ==> !is_pair(#[trigger] items[j], key),
    decreases items.len(),
{
    if items.len() > 0 {
        if is_pair(items[0], key) {
            let p = items[0]->Array_0;
            assert(p =~= seq![Cap::Str(key), p[1]]);
            assert(items[0] == Cap::Array(seq![Cap::Str(key), pair_value(items, key)]));
        } else {
            let rest = items.drop_first();
            pairs_are_found(rest, key);
            if pair_value(rest, key) == Cap::Null && forall|i: int|
                0 <= i < rest.len() ==> !is_pair(#[trigger] rest[i], key) {
                assert forall|i: int| 0 <= i < items.len() implies !is_pair(
                    #[trigger] items[i],
                    key,
                ) by {
                    if i > 0 {
                        assert(items[i] == rest[i - 1]);
                    }
                }
            } else {
                let v = pair_value(rest, key);
                let i = choose|i: int|
                    0 <= i < rest.len() && #[trigger] rest[i] == Cap::Array(
                        seq![Cap::Str(key), v],
                    ) && forall|j: int| 0 <= j < i ==> !is_pair(#[trigger] rest[j], key);
                assert(items[i + 1] == rest[i]);
                assert forall|j: int| 0 <= j < i + 1 implies !is_pair(#[trigger] items[j], key) by {
                    if j > 0 {
                        assert(items[j] == rest[j - 1]);
                    }
                }
            }
        }
    }
}

/// What is published under a key is the value: read back from JSON it is the same.
pub proof fn published_values_read_back(
    key: Seq<char>,
    v: Cap,
    ctx: Option<ExecutionContext>,
)
    requires
        unlimited(ctx),
    ensures
        match call_step("runtime.publish"@, seq![Cap::Str(key), v], ctx) {
            Ok(StepView::Publish(k, j)) => k == key && js_cap(j) == v && !(v is Array),
            Ok(_) => false,
            Err(_) => v is Array || (v is Float && !v->Float_0.spec_is_finite()),
        },
{
    names_differ();
}

/// The number of instances lies within its bounds, is what is needed where that
/// does, and never falls as more is needed.
pub proof fn recommendations_are_bounded(a: Real, b: Real, min: int, max: int)
    requires
        min <= max,
    ensures
        min <= scaled(a, min, max) <= max,
        min <= cut_to_i64(a) <= max ==> scaled(a, min, max) == cut_to_i64(a),
        cut_to_i64(a) <= cut_to_i64(b) ==> scaled(a, min, max) <= scaled(b, min, max),
{
}

/// The load, the target and the bounds reach the host as they are, and a target
/// that is not above zero, or bounds that are negative or crossed, are refused.
pub proof fn scaling_is_asked_for(
    load: Real,
    target: Real,
    min: i64,
    max: i64,
    ctx: Option<ExecutionContext>,
)
    requires
        unlimited(ctx),
        load.spec_is_finite(),
        target.spec_is_finite(),
    ensures
        ({
            let args = seq![Cap::Float(load), Cap::Float(target), Cap::Int(min), Cap::Int(max)];
            if (Real { bits: 0 }).below(target) && 0 <= min <= max {
                computes(
                    "ops.autoScaleRecommend"@,
                    args,
                    ctx,
                    KernelView::Scale(load, target, min as int, max as int),
                )
            } else {
                call_step("ops.autoScaleRecommend"@, args, ctx) is Err
            }
        }),
{
    names_differ();
}

/// Vectors reach the host number by number, each under its own computation.
pub proof fn vectors_reach_the_host(v: Seq<Real>, ctx: Option<ExecutionContext>)
    requires
        unlimited(ctx),
        all_finite(v),
    ensures
        ({
            let args = v.map_values(|r: Real| Cap::Float(r));
            &&& v.len() == 3 ==> computes("nav.norm3"@, args, ctx, KernelView::Norm3(v))
            &&& v.len() == 6 ==> computes("nav.distance3"@, args, ctx, KernelView::Distance3(v))
            &&& v.len() == 6 ==> computes("nav.dot3"@, args, ctx, KernelView::Dot3(v))
            &&& v.len() == 6 ==> computes(
                "nav.radialVelocity"@,
                args,
                ctx,
                KernelView::RadialVelocity(v),
            )
            &&& v.len() == 8 ==> computes("astro.lambertSolve"@, args, ctx, KernelView::Lambert(v))
            &&& v.len() != 3 ==> call_step("nav.norm3"@, args, ctx) is Err
            &&& v.len() != 6 ==> call_step("nav.distance3"@, args, ctx) is Err
            &&& v.len() != 6 ==> call_step("nav.dot3"@, args, ctx) is Err
            &&& v.len() != 6 ==> call_step("nav.radialVelocity"@, args, ctx) is Err
            &&& v.len() != 8 ==> call_step("astro.lambertSolve"@, args, ctx) is Err
        }),
{
    names_differ();
    numbers_are_read(v, v.len(), "nav.norm3"@);
    numbers_are_read(v, v.len(), "nav.distance3"@);
    numbers_are_read(v, v.len(), "nav.dot3"@);
    numbers_are_read(v, v.len(), "nav.radialVelocity"@);
    numbers_are_read(v, v.len(), "astro.lambertSolve"@);
    assert(v.take(v.len() as int) =~= v);
}

proof fn numbers_are_read(v: Seq<Real>, n: nat, name: Seq<char>)
    requires
        all_finite(v),
        n <= v.len(),
    ensures
        number_args(v.map_values(|r: Real| Cap::Float(r)), n, name) == Ok::<Seq<Real>, Seq<char>>(
            v.take(n as int),
        ),
    decreases n,
{
    if n > 0 {
        numbers_are_read(v, (n - 1) as nat, name);
        assert(v[n - 1].spec_is_finite());
        assert(v.take(n - 1).push(v[n - 1]) =~= v.take(n as int));
    } else {
        assert(v.take(0) =~= Seq::<Real>::empty());
    }
}

/// A call on a file does to it what its name says: it looks, reads, writes the
/// given text, or runs the given statement if that only reads.
pub proof fn file_calls_do_what_they_say(path: Seq<char>, text: Seq<char>)
    ensures
        ({
            let one = seq![Cap::Str(path)];
            let two = seq![Cap::Str(path), Cap::Str(text)];
            &&& work_on_file("file.exists"@, one) == Ok::<FileWorkView, Seq<char>>(
                FileWorkView::Exists,
            )
            &&& work_on_file("file.readText"@, one) == Ok::<FileWorkView, Seq<char>>(
                FileWorkView::ReadText,
            )
            &&& encode_utf8(text).len() <= 1048576 ==> work_on_file("file.writeText"@, two) == Ok::<
                FileWorkView,
                Seq<char>,
            >(FileWorkView::WriteText(text))
            &&& encode_utf8(text).len() > 1048576 ==> work_on_file("file.writeText"@, two) is Err
            &&& match work_on_file("sql.sqliteQuery"@, two) {
                Ok(w) => w == FileWorkView::Query(text) && reads_only(text),
                Err(_) => !reads_only(text),
            }
        }),
{
    names_differ();
}

} // verus!
