//! What a call of a capability comes to: a result, an error, or what is left to
//! do outside.
use crate::cap_args::{all_numbers, arity, array_arg, expect_arity, expect_str, expect_url, int_arg, integer, is_whole, number, number_arg, numbers, numeric_array, str_arg, url_arg, whole_number};
use crate::cap_value::{Cap, CapValue, cap, caps, copy_cap};
use crate::capabilities::{entry_named, get, names};
use crate::capability_list::{Entry, listing, strs};
use crate::context::{ExecutionContext, ExecutionPolicy};
use crate::json::{Js, Json, Number, js};
use crate::json_path::{js_cap, js_kind, js_len, js_path, json_length, json_path, json_to_cap, len_int};
use crate::json_text::{parse_json_text, parse_value, text_js, value_js};
use crate::number::{ONE, Real, cut_to_i64};
use crate::parse::{chars_of, natural, parse_u64, trim_front, trim_start};
use crate::sandbox::{Gate, GateView, Place, Spot, check_network_sandbox, gate_for, given, place_for, resolve_sandbox_path};
use crate::sorting::{by_key, sort_by_key};
use crate::strings::{begins, cat2, cat3, cat5, lower, parts, split_char, starts_with, to_lower};
use crate::text::{dec, digit, hex_byte, lossy, lossy_text, push_i64, same};
use crate::values::texts;
use vstd::prelude::*;
use vstd::string::StringExecFns;
use vstd::utf8::encode_utf8;

verus! {

/// The most bytes that a file, a request or a response may have.
pub const MAX_BYTES: usize = 0x10_0000;

/// The most rows that a query gives.
pub const MAX_SQL_ROWS: usize = 1000;

/// Arithmetic on reals that is left to the host.
#[derive(Debug)]
pub enum Kernel {
    Mean(Vec<Real>),
    StdDev(Vec<Real>),
    /// Values in order, and the percentile.
    Percentile(Vec<Real>, Real),
    Ewma(Vec<Real>, Real),
    /// The load, the target, and the bounds of the answer.
    Scale(Real, Real, i64, i64),
    Norm3(Vec<Real>),
    Distance3(Vec<Real>),
    Dot3(Vec<Real>),
    RadialVelocity(Vec<Real>),
    Lambert(Vec<Real>),
}

/// A kernel with its lists as sequences.
pub enum KernelView {
    Mean(Seq<Real>),
    StdDev(Seq<Real>),
    Percentile(Seq<Real>, Real),
    Ewma(Seq<Real>, Real),
    Scale(Real, Real, int, int),
    Norm3(Seq<Real>),
    Distance3(Seq<Real>),
    Dot3(Seq<Real>),
    RadialVelocity(Seq<Real>),
    Lambert(Seq<Real>),
}

impl Kernel {
    pub open spec fn seen(self) -> KernelView {
        match self {
            Kernel::Mean(v) => KernelView::Mean(v@),
            Kernel::StdDev(v) => KernelView::StdDev(v@),
            Kernel::Percentile(v, p) => KernelView::Percentile(v@, p),
            Kernel::Ewma(v, a) => KernelView::Ewma(v@, a),
            Kernel::Scale(l, t, lo, hi) => KernelView::Scale(l, t, lo as int, hi as int),
            Kernel::Norm3(v) => KernelView::Norm3(v@),
            Kernel::Distance3(v) => KernelView::Distance3(v@),
            Kernel::Dot3(v) => KernelView::Dot3(v@),
            Kernel::RadialVelocity(v) => KernelView::RadialVelocity(v@),
            Kernel::Lambert(v) => KernelView::Lambert(v@),
        }
    }
}

/// What a call comes to.
#[derive(Debug)]
pub enum Step {
    Done(CapValue),
    /// A value to publish under a name; the result is null.
    Publish(String, Json),
    /// A path to resolve; then the file work.
    File(Place),
    /// A host to settle; then the request.
    Net(Gate),
    Compute(Kernel),
}

/// A step with what it holds as sequences.
pub enum StepView {
    Done(Cap),
    Publish(Seq<char>, Js),
    File(Spot),
    Net(GateView),
    Compute(KernelView),
}

impl Step {
    pub open spec fn seen(self) -> StepView {
        match self {
            Step::Done(c) => StepView::Done(cap(c)),
            Step::Publish(k, v) => StepView::Publish(k@, js(v)),
            Step::File(p) => StepView::File(p.spot()),
            Step::Net(g) => StepView::Net(g.seen()),
            Step::Compute(k) => StepView::Compute(k.seen()),
        }
    }
}

/// `r` is what `s` says.
pub open spec fn step_is(r: Result<Step, String>, s: Result<StepView, Seq<char>>) -> bool {
    match s {
        Ok(v) => r is Ok && r->Ok_0.seen() == v,
        Err(e) => r is Err && r->Err_0@ == e,
    }
}

// Policy

pub open spec fn effect_denied(effect: Seq<char>, policy: ExecutionPolicy) -> bool {
    if effect == "file_read"@ {
        !policy.allow_file_read
    } else if effect == "file_write"@ {
        !policy.allow_file_write
    } else if effect == "network"@ {
        !policy.allow_network
    } else {
        false
    }
}

/// The first effect that the policy denies.
pub open spec fn first_denied(effects: Seq<Seq<char>>, policy: ExecutionPolicy) -> Option<Seq<char>>
    decreases effects.len(),
{
    if effects.len() == 0 {
        None
    } else if effect_denied(effects[0], policy) {
        Some(effects[0])
    } else {
        first_denied(effects.drop_first(), policy)
    }
}

/// The effect for which a call is denied.
pub open spec fn denied_effect(name: Seq<char>, ctx: Option<ExecutionContext>) -> Option<Seq<char>> {
    match entry_named(listing(), name) {
        Some(e) => if ctx is Some && ctx->Some_0.policy is Some {
            first_denied(e.effects, ctx->Some_0.policy->Some_0)
        } else {
            None
        },
        None => None,
    }
}

fn find_denied(name: &str, ctx: Option<&ExecutionContext>) -> (r: Option<&'static str>)
    ensures
        match denied_effect(name@, given(ctx)) {
            Some(e) => r is Some && r->Some_0@ == e,
            None => r is None,
        },
{
    let policy = match ctx {
        Some(context) => match &context.policy {
            Some(policy) => policy,
            None => {
                return None;
            },
        },
        None => {
            return None;
        },
    };
    match get(name) {
        Some(spec) => {
            let ghost all = strs(spec.effects@);
            let mut i: usize = 0;
            assert(all.skip(0) == all);
            while i < spec.effects.len()
                invariant
                    i <= spec.effects.len(),
                    all == strs(spec.effects@),
                    given(ctx) is Some && given(ctx)->Some_0.policy == Some(*policy),
                    denied_effect(name@, given(ctx)) == first_denied(all, *policy),
                    first_denied(all, *policy) == first_denied(all.skip(i as int), *policy),
                decreases spec.effects.len() - i,
            {
                let effect = spec.effects[i];
                assert(all.skip(i as int)[0] == effect@);
                let denied = if same(effect, "file_read") {
                    !policy.allow_file_read
                } else if same(effect, "file_write") {
                    !policy.allow_file_write
                } else if same(effect, "network") {
                    !policy.allow_network
                } else {
                    false
                };
                if denied {
                    return Some(effect);
                }
                assert(all.skip(i as int).drop_first() == all.skip(i + 1));
                i = i + 1;
            }
            None
        },
        None => None,
    }
}

// The runtime's own capabilities

/// The input of the run, or null.
pub open spec fn run_input(ctx: Option<ExecutionContext>) -> Cap {
    if ctx is Some && ctx->Some_0.input is Some {
        cap(ctx->Some_0.input->Some_0)
    } else {
        Cap::Null
    }
}

fn input_of(ctx: Option<&ExecutionContext>) -> (c: CapValue)
    ensures
        cap(c) == run_input(given(ctx)),
{
    match ctx {
        Some(context) => match &context.input {
            Some(input) => copy_cap(input),
            None => CapValue::Null,
        },
        None => CapValue::Null,
    }
}

/// The value of a key in a list of pairs; null where it has none.
pub open spec fn pair_value(items: Seq<Cap>, key: Seq<char>) -> Cap
    decreases items.len(),
{
    if items.len() == 0 {
        Cap::Null
    } else if is_pair(items[0], key) {
        items[0]->Array_0[1]
    } else {
        pair_value(items.drop_first(), key)
    }
}

/// A list of two, the first of which is the text `key`.
pub open spec fn is_pair(item: Cap, key: Seq<char>) -> bool {
    item is Array && item->Array_0.len() == 2 && item->Array_0[0] == Cap::Str(key)
}

/// One step along a path through an input: a list is entered by a number, or by
/// a key of its pairs.
pub open spec fn input_step(c: Cap, segment: Seq<char>) -> Cap {
    match c {
        Cap::Array(items) => match natural(segment) {
            Some(n) => if n > usize::MAX {
                pair_value(items, segment)
            } else if n < items.len() {
                items[n]
            } else {
                Cap::Null
            },
            None => pair_value(items, segment),
        },
        _ => Cap::Null,
    }
}

/// Where the segments lead in an input; null where they lead nowhere.
pub open spec fn input_walk(c: Cap, segments: Seq<Seq<char>>) -> Cap
    decreases segments.len(),
{
    if segments.len() == 0 {
        c
    } else {
        input_step(input_walk(c, segments.drop_last()), segments.last())
    }
}

fn find_pair(items: &Vec<CapValue>, key: &str) -> (c: CapValue)
    ensures
        cap(c) == pair_value(caps(items@), key@),
{
    let ghost all = caps(items@);
    let mut i: usize = 0;
    assert(all.skip(0) == all);
    while i < items.len()
        invariant
            i <= items.len(),
            all == caps(items@),
            pair_value(all, key@) == pair_value(all.skip(i as int), key@),
        decreases items.len() - i,
    {
        assert(all.skip(i as int)[0] == cap(items@[i as int]));
        if let CapValue::Array(pair) = &items[i] {
            if pair.len() == 2 {
                assert(caps(pair@)[0] == cap(pair@[0]));
                if let CapValue::Str(k) = &pair[0] {
                    if same(k.as_str(), key) {
                        return copy_cap(&pair[1]);
                    }
                }
            }
        }
        assert(all.skip(i as int).drop_first() == all.skip(i + 1));
        i = i + 1;
    }
    CapValue::Null
}

fn step_into(c: &CapValue, segment: &str) -> (r: CapValue)
    ensures
        cap(r) == input_step(cap(*c), segment@),
{
    match c {
        CapValue::Array(items) => match parse_u64(segment) {
            Some(n) => if n > usize::MAX as u64 {
                find_pair(items, segment)
            } else if n < items.len() as u64 {
                copy_cap(&items[n as usize])
            } else {
                CapValue::Null
            },
            None => find_pair(items, segment),
        },
        _ => CapValue::Null,
    }
}

/// The value at a dotted path through an input; null where there is none.
pub fn navigate_input_path(value: &CapValue, path: &str) -> (c: CapValue)
    ensures
        cap(c) == input_walk(cap(*value), parts(path@, '.')),
{
    let segments = split_char(path, '.');
    let ghost all = texts(segments@);
    let mut current = copy_cap(value);
    let mut i: usize = 0;
    assert(all.take(0) == Seq::<Seq<char>>::empty());
    while i < segments.len()
        invariant
            i <= segments.len(),
            all == texts(segments@),
            cap(current) == input_walk(cap(*value), all.take(i as int)),
        decreases segments.len() - i,
    {
        assert(all.take(i + 1).drop_last() == all.take(i as int));
        assert(all.take(i + 1).last() == segments@[i as int]@);
        current = step_into(&current, segments[i].as_str());
        i = i + 1;
    }
    assert(all.take(i as int) == all);
    current
}

pub open spec fn input_get_step(
    args: Seq<Cap>,
    ctx: Option<ExecutionContext>,
    name: Seq<char>,
) -> Result<StepView, Seq<char>> {
    match (arity(args, 1, name), str_arg(args, 0, name)) {
        (Err(e), _) => Err(e),
        (_, Err(e)) => Err(e),
        (Ok(_), Ok(path)) => Ok(StepView::Done(input_walk(run_input(ctx), parts(path, '.')))),
    }
}

fn input_get(args: &Vec<CapValue>, ctx: Option<&ExecutionContext>, name: &str) -> (r: Result<
    Step,
    String,
>)
    ensures
        step_is(r, input_get_step(caps(args@), given(ctx), name@)),
{
    if let Err(e) = expect_arity(args, 1, name) {
        return Err(e);
    }
    match expect_str(args, 0, name) {
        Ok(path) => Ok(Step::Done(navigate_input_path(&input_of(ctx), path))),
        Err(e) => Err(e),
    }
}

/// A value that can be published, as JSON.
pub open spec fn published_js(c: Cap, name: Seq<char>) -> Result<Js, Seq<char>> {
    match c {
        Cap::Int(n) => Ok(
            Js::Num(
                if n >= 0 {
                    Number::Natural(n as u64)
                } else {
                    Number::Negative(n)
                },
            ),
        ),
        Cap::Float(f) => if f.spec_is_finite() {
            Ok(Js::Num(Number::Float(f)))
        } else {
            Err(name + ": value is non-finite"@)
        },
        Cap::Str(s) => Ok(Js::Str(s)),
        Cap::Bool(b) => Ok(Js::Bool(b)),
        Cap::Null => Ok(Js::Null),
        Cap::Array(_) => Err(name + ": array values not supported in v1"@),
    }
}

pub open spec fn publish_step(args: Seq<Cap>, name: Seq<char>) -> Result<StepView, Seq<char>> {
    match (arity(args, 2, name), str_arg(args, 0, name)) {
        (Err(e), _) => Err(e),
        (_, Err(e)) => Err(e),
        (Ok(_), Ok(key)) => match published_js(args[1], name) {
            Ok(v) => Ok(StepView::Publish(key, v)),
            Err(e) => Err(e),
        },
    }
}

fn publish(args: &Vec<CapValue>, name: &str) -> (r: Result<Step, String>)
    ensures
        step_is(r, publish_step(caps(args@), name@)),
{
    if let Err(e) = expect_arity(args, 2, name) {
        return Err(e);
    }
    let key = match expect_str(args, 0, name) {
        Ok(key) => String::from_str(key),
        Err(e) => {
            return Err(e);
        },
    };
    assert(caps(args@)[1] == cap(args@[1]));
    let v = match &args[1] {
        CapValue::Int(n) => Json::Num(
            if *n >= 0 {
                Number::Natural(*n as u64)
            } else {
                Number::Negative(*n)
            },
        ),
        CapValue::Float(f) => {
            if !f.is_finite() {
                return Err(cat2(name, ": value is non-finite"));
            }
            Json::Num(Number::Float(*f))
        },
        CapValue::Str(s) => Json::Str(s.clone()),
        CapValue::Bool(b) => Json::Bool(*b),
        CapValue::Null => Json::Null,
        CapValue::Array(_) => {
            return Err(cat2(name, ": array values not supported in v1"));
        },
    };
    Ok(Step::Publish(key, v))
}

pub open spec fn names_cap() -> Cap {
    Cap::Array(listing().map_values(|e: Entry| Cap::Str(e.name)))
}

fn names_value() -> (c: CapValue)
    ensures
        cap(c) == names_cap(),
{
    let all = names();
    let mut r: Vec<CapValue> = Vec::new();
    let mut i: usize = 0;
    while i < all.len()
        invariant
            i <= all.len(),
            r@.len() == i,
            forall|k: int| 0 <= k < i ==> cap(#[trigger] r@[k]) == Cap::Str(all@[k]@),
        decreases all.len() - i,
    {
        r.push(CapValue::Str(String::from_str(all[i])));
        i = i + 1;
    }
    proof {
        let l = listing();
        assert(strs(all@).len() == all@.len());
        assert forall|k: int| 0 <= k < r@.len() implies cap(#[trigger] r@[k]) == Cap::Str(
            l[k].name,
        ) by {
            assert(strs(all@)[k] == l[k].name);
        }
        assert(caps(r@) =~= l.map_values(|e: Entry| Cap::Str(e.name)));
    }
    CapValue::Array(r)
}

// JSON

/// The value that the first argument's text stands for, and the second
/// argument's path.
pub open spec fn json_args(args: Seq<Cap>, name: Seq<char>) -> Result<(Js, Seq<char>), Seq<char>> {
    match (arity(args, 2, name), str_arg(args, 0, name)) {
        (Err(e), _) => Err(e),
        (_, Err(e)) => Err(e),
        (Ok(_), Ok(text)) => match (text_js(text), str_arg(args, 1, name)) {
            (Err(e), _) => Err(name + " invalid JSON: "@ + e),
            (_, Err(e)) => Err(e),
            (Ok(root), Ok(path)) => Ok((root, path)),
        },
    }
}

fn read_json<'a>(args: &'a Vec<CapValue>, name: &str) -> (r: Result<
    (serde_json::Value, &'a str),
    String,
>)
    ensures
        match json_args(caps(args@), name@) {
            Ok(p) => r is Ok && value_js(r->Ok_0.0) == p.0 && r->Ok_0.1@ == p.1,
            Err(e) => r is Err && r->Err_0@ == e,
        },
{
    if let Err(e) = expect_arity(args, 2, name) {
        return Err(e);
    }
    let text = match expect_str(args, 0, name) {
        Ok(text) => text,
        Err(e) => {
            return Err(e);
        },
    };
    let root = match parse_value(text) {
        Ok(root) => root,
        Err(e) => {
            return Err(cat3(name, " invalid JSON: ", e.as_str()));
        },
    };
    match expect_str(args, 1, name) {
        Ok(path) => Ok((root, path)),
        Err(e) => Err(e),
    }
}

pub open spec fn json_get_step(args: Seq<Cap>, name: Seq<char>) -> Result<StepView, Seq<char>> {
    match json_args(args, name) {
        Err(e) => Err(e),
        Ok((root, path)) => match js_path(root, path) {
            Some(v) => Ok(StepView::Done(js_cap(v))),
            None => Err("json.get path '"@ + path + "' not found"@),
        },
    }
}

fn json_get(args: &Vec<CapValue>, name: &str) -> (r: Result<Step, String>)
    ensures
        step_is(r, json_get_step(caps(args@), name@)),
{
    match read_json(args, name) {
        Err(e) => Err(e),
        Ok((root, path)) => match json_path(root, path) {
            Some(v) => Ok(Step::Done(json_to_cap(v))),
            None => Err(cat3("json.get path '", path, "' not found")),
        },
    }
}

pub open spec fn json_has_step(args: Seq<Cap>, name: Seq<char>) -> Result<StepView, Seq<char>> {
    match json_args(args, name) {
        Err(e) => Err(e),
        Ok((root, path)) => Ok(StepView::Done(Cap::Bool(js_path(root, path) is Some))),
    }
}

fn json_has(args: &Vec<CapValue>, name: &str) -> (r: Result<Step, String>)
    ensures
        step_is(r, json_has_step(caps(args@), name@)),
{
    match read_json(args, name) {
        Err(e) => Err(e),
        Ok((root, path)) => Ok(Step::Done(CapValue::Bool(json_path(root, path).is_some()))),
    }
}

pub open spec fn json_len_step(args: Seq<Cap>, name: Seq<char>) -> Result<StepView, Seq<char>> {
    match json_args(args, name) {
        Err(e) => Err(e),
        Ok((root, path)) => match js_path(root, path) {
            Some(v) => match js_len(v) {
                Some(n) => Ok(StepView::Done(Cap::Int(len_int(n)))),
                None => Err("json.len cannot measure "@ + js_kind(v)),
            },
            None => Err("json.len path '"@ + path + "' not found"@),
        },
    }
}

fn json_len(args: &Vec<CapValue>, name: &str) -> (r: Result<Step, String>)
    ensures
        step_is(r, json_len_step(caps(args@), name@)),
{
    match read_json(args, name) {
        Err(e) => Err(e),
        Ok((root, path)) => match json_path(root, path) {
            Some(v) => match json_length(v) {
                Ok(n) => Ok(Step::Done(CapValue::Int(n))),
                Err(kind) => Err(cat2("json.len cannot measure ", kind)),
            },
            None => Err(cat3("json.len path '", path, "' not found")),
        },
    }
}

// Files

/// A path argument on its way to the file system.
pub open spec fn file_step(
    args: Seq<Cap>,
    ctx: Option<ExecutionContext>,
    name: Seq<char>,
    count: int,
    texts: int,
) -> Result<StepView, Seq<char>> {
    match (arity(args, count, name), str_arg(args, 0, name)) {
        (Err(e), _) => Err(e),
        (_, Err(e)) => Err(e),
        (Ok(_), Ok(path)) => if texts >= 2 && str_arg(args, 1, name) is Err {
            Err(str_arg(args, 1, name)->Err_0)
        } else {
            match place_for(ctx, path, name) {
                Ok(p) => Ok(StepView::File(p)),
                Err(e) => Err(e),
            }
        },
    }
}

fn file_call(
    args: &Vec<CapValue>,
    ctx: Option<&ExecutionContext>,
    name: &str,
    count: usize,
    texts: usize,
) -> (r: Result<Step, String>)
    ensures
        step_is(r, file_step(caps(args@), given(ctx), name@, count as int, texts as int)),
{
    if let Err(e) = expect_arity(args, count, name) {
        return Err(e);
    }
    let path = match expect_str(args, 0, name) {
        Ok(path) => path,
        Err(e) => {
            return Err(e);
        },
    };
    if texts >= 2 {
        if let Err(e) = expect_str(args, 1, name) {
            return Err(e);
        }
    }
    match resolve_sandbox_path(ctx, path, name) {
        Ok(place) => Ok(Step::File(place)),
        Err(e) => Err(e),
    }
}

pub open spec fn ephemeris_step(
    args: Seq<Cap>,
    ctx: Option<ExecutionContext>,
    name: Seq<char>,
) -> Result<StepView, Seq<char>> {
    match (arity(args, 3, name), str_arg(args, 0, name)) {
        (Err(e), _) => Err(e),
        (_, Err(e)) => Err(e),
        (Ok(_), Ok(path)) => match (str_arg(args, 1, name), number_arg(args, 2, name)) {
            (Err(e), _) => Err(e),
            (_, Err(e)) => Err(e),
            (Ok(_), Ok(_)) => match place_for(ctx, path, name) {
                Ok(p) => Ok(StepView::File(p)),
                Err(e) => Err(e),
            },
        },
    }
}

fn ephemeris_call(args: &Vec<CapValue>, ctx: Option<&ExecutionContext>, name: &str) -> (r: Result<
    Step,
    String,
>)
    ensures
        step_is(r, ephemeris_step(caps(args@), given(ctx), name@)),
{
    if let Err(e) = expect_arity(args, 3, name) {
        return Err(e);
    }
    let path = match expect_str(args, 0, name) {
        Ok(path) => path,
        Err(e) => {
            return Err(e);
        },
    };
    if let Err(e) = expect_str(args, 1, name) {
        return Err(e);
    }
    if let Err(e) = number(args, 2, name) {
        return Err(e);
    }
    match resolve_sandbox_path(ctx, path, name) {
        Ok(place) => Ok(Step::File(place)),
        Err(e) => Err(e),
    }
}

// The network

pub open spec fn http_step(
    args: Seq<Cap>,
    ctx: Option<ExecutionContext>,
    name: Seq<char>,
    count: int,
) -> Result<StepView, Seq<char>> {
    match (arity(args, count, name), url_arg(args, 0, name)) {
        (Err(e), _) => Err(e),
        (_, Err(e)) => Err(e),
        (Ok(_), Ok(url)) => match gate_for(ctx, url, name) {
            Ok(g) => Ok(StepView::Net(g)),
            Err(e) => Err(e),
        },
    }
}

fn http_call(args: &Vec<CapValue>, ctx: Option<&ExecutionContext>, name: &str, count: usize) -> (r:
    Result<Step, String>)
    ensures
        step_is(r, http_step(caps(args@), given(ctx), name@, count as int)),
{
    if let Err(e) = expect_arity(args, count, name) {
        return Err(e);
    }
    match expect_url(args, 0, name) {
        Ok(url) => match check_network_sandbox(ctx, url, name) {
            Ok(gate) => Ok(Step::Net(gate)),
            Err(e) => Err(e),
        },
        Err(e) => Err(e),
    }
}

/// Letters, digits, hyphens and underscores.
pub open spec fn is_body_name(s: Seq<char>) -> bool {
    forall|i: int| 0 <= i < s.len() ==> body_char(#[trigger] s[i])
}

pub open spec fn body_char(c: char) -> bool {
    ('a' <= c && c <= 'z') || ('A' <= c && c <= 'Z') || ('0' <= c && c <= '9') || c == '-' || c
        == '_'
}

fn check_body_name(s: &str) -> (b: bool)
    ensures
        b == is_body_name(s@),
{
    let v = chars_of(s);
    let mut i: usize = 0;
    while i < v.len()
        invariant
            i <= v.len(),
            v@ == s@,
            forall|k: int| 0 <= k < i ==> body_char(#[trigger] s@[k]),
        decreases v.len() - i,
    {
        let c: char = v[i];
        if !(('a' <= c && c <= 'z') || ('A' <= c && c <= 'Z') || ('0' <= c && c <= '9') || c == '-'
            || c == '_') {
            assert(!body_char(s@[i as int]));
            return false;
        }
        i = i + 1;
    }
    true
}

/// The bits of 365.
pub const YEAR_DAYS: u64 = 0x4076_D000_0000_0000;

/// The bits of 100.
pub const HUNDRED: u64 = 0x4059_0000_0000_0000;

pub open spec fn horizons_step(
    args: Seq<Cap>,
    ctx: Option<ExecutionContext>,
    name: Seq<char>,
) -> Result<StepView, Seq<char>> {
    match (arity(args, 4, name), str_arg(args, 0, name)) {
        (Err(e), _) => Err(e),
        (_, Err(e)) => Err(e),
        (Ok(_), Ok(body)) => match (str_arg(args, 1, name), str_arg(args, 2, name)) {
            (Err(e), _) => Err(e),
            (_, Err(e)) => Err(e),
            (Ok(_), Ok(_)) => match number_arg(args, 3, name) {
                Err(e) => Err(e),
                Ok(days) => if !((Real { bits: 0 }).below(days) && days.at_most(
                    Real { bits: YEAR_DAYS },
                )) {
                    Err(name + " expects step_days in 0..365"@)
                } else if !is_body_name(body) {
                    Err(name + " body must be a Horizons command id/name"@)
                } else {
                    match gate_for(ctx, "https://ssd.jpl.nasa.gov/api/horizons.api"@, name) {
                        Ok(g) => Ok(StepView::Net(g)),
                        Err(e) => Err(e),
                    }
                },
            },
        },
    }
}

fn horizons_vectors(args: &Vec<CapValue>, ctx: Option<&ExecutionContext>, name: &str) -> (r: Result<
    Step,
    String,
>)
    ensures
        step_is(r, horizons_step(caps(args@), given(ctx), name@)),
{
    if let Err(e) = expect_arity(args, 4, name) {
        return Err(e);
    }
    let body = match expect_str(args, 0, name) {
        Ok(body) => body,
        Err(e) => {
            return Err(e);
        },
    };
    if let Err(e) = expect_str(args, 1, name) {
        return Err(e);
    }
    if let Err(e) = expect_str(args, 2, name) {
        return Err(e);
    }
    let days = match number(args, 3, name) {
        Ok(days) => days,
        Err(e) => {
            return Err(e);
        },
    };
    if !(Real::zero().lt(days) && days.le(Real { bits: YEAR_DAYS })) {
        return Err(cat2(name, " expects step_days in 0..365"));
    }
    if !check_body_name(body) {
        return Err(cat2(name, " body must be a Horizons command id/name"));
    }
    match check_network_sandbox(ctx, "https://ssd.jpl.nasa.gov/api/horizons.api", name) {
        Ok(gate) => Ok(Step::Net(gate)),
        Err(e) => Err(e),
    }
}

// Numbers

/// The least of the values; the first of equals.
pub open spec fn least(s: Seq<Real>) -> Real
    decreases s.len(),
{
    if s.len() <= 1 {
        s[0]
    } else {
        let m = least(s.drop_last());
        if s.last().below(m) {
            s.last()
        } else {
            m
        }
    }
}

/// The greatest of the values; the first of equals.
pub open spec fn greatest(s: Seq<Real>) -> Real
    decreases s.len(),
{
    if s.len() <= 1 {
        s[0]
    } else {
        let m = greatest(s.drop_last());
        if m.below(s.last()) {
            s.last()
        } else {
            m
        }
    }
}

fn extreme(v: &Vec<Real>, up: bool) -> (r: Real)
    requires
        v@.len() > 0,
    ensures
        r == (if up {
            greatest(v@)
        } else {
            least(v@)
        }),
{
    let mut m = v[0];
    let mut i: usize = 1;
    assert(v@.take(1)[0] == v@[0]);
    while i < v.len()
        invariant
            1 <= i <= v.len(),
            m == (if up {
                greatest(v@.take(i as int))
            } else {
                least(v@.take(i as int))
            }),
        decreases v.len() - i,
    {
        assert(v@.take(i + 1).drop_last() == v@.take(i as int));
        let x = v[i];
        if up {
            if m.lt(x) {
                m = x;
            }
        } else {
            if x.lt(m) {
                m = x;
            }
        }
        i = i + 1;
    }
    assert(v@.take(i as int) == v@);
    m
}

/// The values in growing order.
pub open spec fn sorted_values(s: Seq<Real>) -> Seq<Real> {
    by_key(s.map_values(|r: Real| (r, ()))).map_values(|p: (Real, ())| p.0)
}

pub fn sort_values(v: &Vec<Real>) -> (r: Vec<Real>)
    ensures
        r@ == sorted_values(v@),
{
    let mut p: Vec<(Real, ())> = Vec::new();
    let mut i: usize = 0;
    while i < v.len()
        invariant
            i <= v.len(),
            p@.len() == i,
            forall|k: int| 0 <= k < i ==> p@[k] == (v@[k], ()),
        decreases v.len() - i,
    {
        p.push((v[i], ()));
        i = i + 1;
    }
    assert(p@ =~= v@.map_values(|r: Real| (r, ())));
    let q = sort_by_key(p);
    let mut r: Vec<Real> = Vec::new();
    let mut j: usize = 0;
    while j < q.len()
        invariant
            j <= q.len(),
            r@.len() == j,
            forall|k: int| 0 <= k < j ==> r@[k] == q@[k].0,
        decreases q.len() - j,
    {
        r.push(q[j].0);
        j = j + 1;
    }
    assert(r@ =~= sorted_values(v@));
    r
}

/// A list and a bounded number behind it.
pub open spec fn list_and_number(args: Seq<Cap>, name: Seq<char>) -> Result<
    (Seq<Real>, Real),
    Seq<char>,
> {
    match (arity(args, 2, name), array_arg(args, 0, name)) {
        (Err(e), _) => Err(e),
        (_, Err(e)) => Err(e),
        (Ok(_), Ok(v)) => match number_arg(args, 1, name) {
            Ok(x) => Ok((v, x)),
            Err(e) => Err(e),
        },
    }
}

fn read_list_and_number(args: &Vec<CapValue>, name: &str) -> (r: Result<(Vec<Real>, Real), String>)
    ensures
        match list_and_number(caps(args@), name@) {
            Ok(p) => r is Ok && r->Ok_0.0@ == p.0 && r->Ok_0.1 == p.1,
            Err(e) => r is Err && r->Err_0@ == e,
        },
{
    if let Err(e) = expect_arity(args, 2, name) {
        return Err(e);
    }
    match numeric_array(args, 0, name) {
        Ok(v) => match number(args, 1, name) {
            Ok(x) => Ok((v, x)),
            Err(e) => Err(e),
        },
        Err(e) => Err(e),
    }
}

pub open spec fn percentile_step(args: Seq<Cap>, name: Seq<char>) -> Result<StepView, Seq<char>> {
    match list_and_number(args, name) {
        Err(e) => Err(e),
        Ok((v, p)) => if (Real { bits: 0 }).at_most(p) && p.at_most(Real { bits: HUNDRED }) {
            Ok(StepView::Compute(KernelView::Percentile(sorted_values(v), p)))
        } else {
            Err("stats.percentile expects percentile in 0..100"@)
        },
    }
}

fn percentile(args: &Vec<CapValue>, name: &str) -> (r: Result<Step, String>)
    ensures
        step_is(r, percentile_step(caps(args@), name@)),
{
    match read_list_and_number(args, name) {
        Err(e) => Err(e),
        Ok((v, p)) => if Real::zero().le(p) && p.le(Real { bits: HUNDRED }) {
            Ok(Step::Compute(Kernel::Percentile(sort_values(&v), p)))
        } else {
            Err(String::from_str("stats.percentile expects percentile in 0..100"))
        },
    }
}

pub open spec fn ewma_step(args: Seq<Cap>, name: Seq<char>) -> Result<StepView, Seq<char>> {
    match list_and_number(args, name) {
        Err(e) => Err(e),
        Ok((v, a)) => if (Real { bits: 0 }).at_most(a) && a.at_most(Real { bits: ONE }) {
            Ok(StepView::Compute(KernelView::Ewma(v, a)))
        } else {
            Err("series.ewmaForecast expects alpha in 0..1"@)
        },
    }
}

fn ewma(args: &Vec<CapValue>, name: &str) -> (r: Result<Step, String>)
    ensures
        step_is(r, ewma_step(caps(args@), name@)),
{
    match read_list_and_number(args, name) {
        Err(e) => Err(e),
        Ok((v, a)) => if Real::zero().le(a) && a.le(Real::one()) {
            Ok(Step::Compute(Kernel::Ewma(v, a)))
        } else {
            Err(String::from_str("series.ewmaForecast expects alpha in 0..1"))
        },
    }
}

pub open spec fn scale_step(args: Seq<Cap>, name: Seq<char>) -> Result<StepView, Seq<char>> {
    match (arity(args, 4, name), number_arg(args, 0, name)) {
        (Err(e), _) => Err(e),
        (_, Err(e)) => Err(e),
        (Ok(_), Ok(load)) => match (number_arg(args, 1, name), int_arg(args, 2, name)) {
            (Err(e), _) => Err(e),
            (_, Err(e)) => Err(e),
            (Ok(target), Ok(min)) => match int_arg(args, 3, name) {
                Err(e) => Err(e),
                Ok(max) => if target.at_most(Real { bits: 0 }) || min < 0 || max < min {
                    Err("ops.autoScaleRecommend expects target > 0 and 0 <= min <= max"@)
                } else {
                    Ok(StepView::Compute(KernelView::Scale(load, target, min, max)))
                },
            },
        },
    }
}

fn scale(args: &Vec<CapValue>, name: &str) -> (r: Result<Step, String>)
    ensures
        step_is(r, scale_step(caps(args@), name@)),
        r matches Ok(Step::Compute(Kernel::Scale(_, _, min, max))) ==> min <= max,
{
    if let Err(e) = expect_arity(args, 4, name) {
        return Err(e);
    }
    let load = match number(args, 0, name) {
        Ok(x) => x,
        Err(e) => {
            return Err(e);
        },
    };
    let target = match number(args, 1, name) {
        Ok(x) => x,
        Err(e) => {
            return Err(e);
        },
    };
    let min: i64 = match integer(args, 2, name) {
        Ok(x) => x,
        Err(e) => {
            return Err(e);
        },
    };
    let max: i64 = match integer(args, 3, name) {
        Ok(x) => x,
        Err(e) => {
            return Err(e);
        },
    };
    if target.le(Real::zero()) || min < 0 || max < min {
        return Err(
            String::from_str("ops.autoScaleRecommend expects target > 0 and 0 <= min <= max"),
        );
    }
    Ok(Step::Compute(Kernel::Scale(load, target, min, max)))
}

/// The number of instances for a whole number that are needed, within bounds.
pub open spec fn scaled(needed: Real, min: int, max: int) -> int {
    let n = cut_to_i64(needed);
    if n < min {
        min
    } else if n > max {
        max
    } else {
        n
    }
}

/// The number of instances to recommend, given how many are needed.
pub fn finish_scale(needed: Real, min: i64, max: i64) -> (c: CapValue)
    requires
        min <= max,
    ensures
        c == CapValue::Int(scaled(needed, min as int, max as int) as i64),
        min <= scaled(needed, min as int, max as int) <= max,
{
    let n: i64 = needed.to_i64();
    if n < min {
        CapValue::Int(min)
    } else if n > max {
        CapValue::Int(max)
    } else {
        CapValue::Int(n)
    }
}

/// The radial velocity, given the distance and the velocity along it; there is
/// none at distance zero.
pub fn finish_radial(distance: Real, velocity: Real) -> (r: Result<CapValue, String>)
    ensures
        distance.same_value(Real { bits: 0 }) ==> r is Err && r->Err_0@
            == "nav.radialVelocity requires non-zero position"@,
        !distance.same_value(Real { bits: 0 }) ==> r == Ok::<CapValue, String>(
            CapValue::Float(velocity),
        ),
{
    if distance.eq_value(Real::zero()) {
        Err(String::from_str("nav.radialVelocity requires non-zero position"))
    } else {
        Ok(CapValue::Float(velocity))
    }
}

/// Reals as a list of capability values.
pub fn real_list(v: &Vec<Real>) -> (c: CapValue)
    ensures
        cap(c) == Cap::Array(v@.map_values(|r: Real| Cap::Float(r))),
{
    let mut a: Vec<CapValue> = Vec::new();
    let mut i: usize = 0;
    while i < v.len()
        invariant
            i <= v.len(),
            a@.len() == i,
            forall|k: int| 0 <= k < i ==> cap(#[trigger] a@[k]) == Cap::Float(v@[k]),
        decreases v.len() - i,
    {
        a.push(CapValue::Float(v[i]));
        i = i + 1;
    }
    assert(caps(a@) =~= v@.map_values(|r: Real| Cap::Float(r)));
    CapValue::Array(a)
}

/// The velocities of a transfer, and one or zero for whether it was found.
pub fn finish_lambert(velocities: &Vec<Real>, converged: bool) -> (c: CapValue)
    ensures
        cap(c) == Cap::Array(
            velocities@.map_values(|r: Real| Cap::Float(r)).push(
                Cap::Float(
                    Real {
                        bits: if converged {
                            ONE
                        } else {
                            0
                        },
                    },
                ),
            ),
        ),
{
    let mut all: Vec<Real> = Vec::new();
    let mut i: usize = 0;
    while i < velocities.len()
        invariant
            i <= velocities.len(),
            all@ == velocities@.take(i as int),
        decreases velocities.len() - i,
    {
        all.push(velocities[i]);
        i = i + 1;
        assert(velocities@.take(i as int) =~= velocities@.take(i - 1).push(velocities@[i - 1]));
    }
    assert(all@ =~= velocities@);
    all.push(
        if converged {
            Real::one()
        } else {
            Real::zero()
        },
    );
    let c = real_list(&all);
    assert(all@.map_values(|r: Real| Cap::Float(r)) =~= velocities@.map_values(
        |r: Real| Cap::Float(r),
    ).push(
        Cap::Float(
            Real {
                bits: if converged {
                    ONE
                } else {
                    0
                },
            },
        ),
    ));
    c
}

// The call

/// The numbers of a list, for a kernel.
pub open spec fn stats_step(args: Seq<Cap>, name: Seq<char>) -> Result<StepView, Seq<char>> {
    match array_arg(args, 0, name) {
        Err(e) => Err(e),
        Ok(v) => Ok(
            if name == "stats.mean"@ {
                StepView::Compute(KernelView::Mean(v))
            } else if name == "stats.stdDev"@ {
                StepView::Compute(KernelView::StdDev(v))
            } else if name == "stats.min"@ {
                StepView::Done(Cap::Float(least(v)))
            } else {
                StepView::Done(Cap::Float(greatest(v)))
            },
        ),
    }
}

fn stats(args: &Vec<CapValue>, name: &str) -> (r: Result<Step, String>)
    ensures
        step_is(r, stats_step(caps(args@), name@)),
{
    match numeric_array(args, 0, name) {
        Err(e) => Err(e),
        Ok(v) => Ok(
            if same(name, "stats.mean") {
                Step::Compute(Kernel::Mean(v))
            } else if same(name, "stats.stdDev") {
                Step::Compute(Kernel::StdDev(v))
            } else if same(name, "stats.min") {
                Step::Done(CapValue::Float(extreme(&v, false)))
            } else {
                Step::Done(CapValue::Float(extreme(&v, true)))
            },
        ),
    }
}

/// Vectors, for a kernel.
pub open spec fn vector_step(args: Seq<Cap>, name: Seq<char>) -> Result<StepView, Seq<char>> {
    let count: nat = if name == "nav.norm3"@ {
        3
    } else if name == "astro.lambertSolve"@ {
        8
    } else {
        6
    };
    match all_numbers(args, count, name) {
        Err(e) => Err(e),
        Ok(v) => Ok(
            StepView::Compute(
                if name == "nav.norm3"@ {
                    KernelView::Norm3(v)
                } else if name == "astro.lambertSolve"@ {
                    KernelView::Lambert(v)
                } else if name == "nav.distance3"@ {
                    KernelView::Distance3(v)
                } else if name == "nav.dot3"@ {
                    KernelView::Dot3(v)
                } else {
                    KernelView::RadialVelocity(v)
                },
            ),
        ),
    }
}

fn vectors(args: &Vec<CapValue>, name: &str) -> (r: Result<Step, String>)
    ensures
        step_is(r, vector_step(caps(args@), name@)),
{
    let count: usize = if same(name, "nav.norm3") {
        3
    } else if same(name, "astro.lambertSolve") {
        8
    } else {
        6
    };
    match numbers(args, count, name) {
        Err(e) => Err(e),
        Ok(v) => Ok(
            Step::Compute(
                if same(name, "nav.norm3") {
                    Kernel::Norm3(v)
                } else if same(name, "astro.lambertSolve") {
                    Kernel::Lambert(v)
                } else if same(name, "nav.distance3") {
                    Kernel::Distance3(v)
                } else if same(name, "nav.dot3") {
                    Kernel::Dot3(v)
                } else {
                    Kernel::RadialVelocity(v)
                },
            ),
        ),
    }
}

/// What a permitted call comes to.
pub open spec fn permitted_step(
    name: Seq<char>,
    args: Seq<Cap>,
    ctx: Option<ExecutionContext>,
) -> Result<StepView, Seq<char>> {
    if name == "runtime.capabilities"@ {
        Ok(StepView::Done(names_cap()))
    } else if name == "runtime.input"@ {
        Ok(StepView::Done(run_input(ctx)))
    } else if name == "runtime.inputGet"@ {
        input_get_step(args, ctx, name)
    } else if name == "runtime.publish"@ {
        publish_step(args, name)
    } else if name == "file.exists"@ || name == "file.readText"@ {
        file_step(args, ctx, name, 1, 1)
    } else if name == "file.writeText"@ {
        file_step(args, ctx, name, 2, 2)
    } else if name == "http.get"@ {
        http_step(args, ctx, name, 1)
    } else if name == "http.post"@ {
        http_step(args, ctx, name, 3)
    } else if name == "json.get"@ {
        json_get_step(args, name)
    } else if name == "json.has"@ {
        json_has_step(args, name)
    } else if name == "json.len"@ {
        json_len_step(args, name)
    } else if name == "sql.sqliteQuery"@ {
        file_step(args, ctx, name, 2, 1)
    } else if name == "stats.mean"@ || name == "stats.stdDev"@ || name == "stats.min"@ || name
        == "stats.max"@ {
        stats_step(args, name)
    } else if name == "stats.percentile"@ {
        percentile_step(args, name)
    } else if name == "series.ewmaForecast"@ {
        ewma_step(args, name)
    } else if name == "ops.autoScaleRecommend"@ {
        scale_step(args, name)
    } else if name == "nav.ephemerisState"@ {
        ephemeris_step(args, ctx, name)
    } else if name == "nav.horizonsVectors"@ {
        horizons_step(args, ctx, name)
    } else if name == "nav.norm3"@ || name == "nav.distance3"@ || name == "nav.dot3"@ || name
        == "nav.radialVelocity"@ || name == "astro.lambertSolve"@ {
        vector_step(args, name)
    } else {
        Err("unknown capability '"@ + name + "'"@)
    }
}

/// What a call comes to: a denial where the policy denies one of its effects,
/// else what the capability does.
pub open spec fn call_step(
    name: Seq<char>,
    args: Seq<Cap>,
    ctx: Option<ExecutionContext>,
) -> Result<StepView, Seq<char>> {
    match denied_effect(name, ctx) {
        Some(effect) => Err(
            "capability="@ + name + " effect="@ + effect + " denied by policy"@,
        ),
        None => permitted_step(name, args, ctx),
    }
}

/// Calls a capability, as far as nothing outside is needed. A step that is left
/// is taken by the host: it resolves the path with `admit_path` and goes on with
/// `file_work`, settles the host with `judge_host` and goes on with `net_work`,
/// or computes.
pub fn execute(name: &str, args: &Vec<CapValue>, ctx: Option<&ExecutionContext>) -> (r: Result<
    Step,
    String,
>)
    ensures
        step_is(r, call_step(name@, caps(args@), given(ctx))),
{
    if let Some(effect) = find_denied(name, ctx) {
        return Err(cat5("capability=", name, " effect=", effect, " denied by policy"));
    }
    if same(name, "runtime.capabilities") {
        Ok(Step::Done(names_value()))
    } else if same(name, "runtime.input") {
        Ok(Step::Done(input_of(ctx)))
    } else if same(name, "runtime.inputGet") {
        input_get(args, ctx, name)
    } else if same(name, "runtime.publish") {
        publish(args, name)
    } else if same(name, "file.exists") || same(name, "file.readText") {
        file_call(args, ctx, name, 1, 1)
    } else if same(name, "file.writeText") {
        file_call(args, ctx, name, 2, 2)
    } else if same(name, "http.get") {
        http_call(args, ctx, name, 1)
    } else if same(name, "http.post") {
        http_call(args, ctx, name, 3)
    } else if same(name, "json.get") {
        json_get(args, name)
    } else if same(name, "json.has") {
        json_has(args, name)
    } else if same(name, "json.len") {
        json_len(args, name)
    } else if same(name, "sql.sqliteQuery") {
        file_call(args, ctx, name, 2, 1)
    } else if same(name, "stats.mean") || same(name, "stats.stdDev") || same(name, "stats.min")
        || same(name, "stats.max") {
        stats(args, name)
    } else if same(name, "stats.percentile") {
        percentile(args, name)
    } else if same(name, "series.ewmaForecast") {
        ewma(args, name)
    } else if same(name, "ops.autoScaleRecommend") {
        scale(args, name)
    } else if same(name, "nav.ephemerisState") {
        ephemeris_call(args, ctx, name)
    } else if same(name, "nav.horizonsVectors") {
        horizons_vectors(args, ctx, name)
    } else if same(name, "nav.norm3") || same(name, "nav.distance3") || same(name, "nav.dot3")
        || same(name, "nav.radialVelocity") || same(name, "astro.lambertSolve") {
        vectors(args, name)
    } else {
        Err(cat3("unknown capability '", name, "'"))
    }
}

// What follows the outside steps

/// The work on a file whose path is resolved.
#[derive(Debug)]
pub enum FileWork {
    Exists,
    ReadText,
    WriteText(String),
    Query(String),
    Ephemeris(String, Real),
}

/// File work with its texts as sequences.
pub enum FileWorkView {
    Exists,
    ReadText,
    WriteText(Seq<char>),
    Query(Seq<char>),
    Ephemeris(Seq<char>, Real),
}

impl FileWork {
    pub open spec fn seen(self) -> FileWorkView {
        match self {
            FileWork::Exists => FileWorkView::Exists,
            FileWork::ReadText => FileWorkView::ReadText,
            FileWork::WriteText(s) => FileWorkView::WriteText(s@),
            FileWork::Query(s) => FileWorkView::Query(s@),
            FileWork::Ephemeris(b, et) => FileWorkView::Ephemeris(b@, et),
        }
    }
}

/// The statement only reads, by its first word.
pub open spec fn reads_only(sql: Seq<char>) -> bool {
    let s = lower(trim_front(sql));
    begins(s, "select"@) || begins(s, "with"@) || begins(s, "pragma"@)
}

/// The work on a resolved path.
pub open spec fn work_on_file(name: Seq<char>, args: Seq<Cap>) -> Result<FileWorkView, Seq<char>> {
    if name == "file.exists"@ {
        Ok(FileWorkView::Exists)
    } else if name == "file.readText"@ {
        Ok(FileWorkView::ReadText)
    } else if name == "file.writeText"@ {
        match str_arg(args, 1, name) {
            Ok(s) => if encode_utf8(s).len() > MAX_BYTES {
                Err("file.writeText refuses contents larger than 1048576 bytes"@)
            } else {
                Ok(FileWorkView::WriteText(s))
            },
            Err(e) => Err(e),
        }
    } else if name == "sql.sqliteQuery"@ {
        match str_arg(args, 1, name) {
            Ok(s) => if reads_only(s) {
                Ok(FileWorkView::Query(s))
            } else {
                Err("sql.sqliteQuery only allows SELECT, WITH, or PRAGMA statements"@)
            },
            Err(e) => Err(e),
        }
    } else if name == "nav.ephemerisState"@ {
        match (str_arg(args, 1, name), number_arg(args, 2, name)) {
            (Err(e), _) => Err(e),
            (_, Err(e)) => Err(e),
            (Ok(b), Ok(et)) => Ok(FileWorkView::Ephemeris(b, et)),
        }
    } else {
        Err("unknown capability '"@ + name + "'"@)
    }
}

/// Decides what to do with a file whose path is resolved.
pub fn file_work(name: &str, args: &Vec<CapValue>) -> (r: Result<FileWork, String>)
    ensures
        match work_on_file(name@, caps(args@)) {
            Ok(w) => r is Ok && r->Ok_0.seen() == w,
            Err(e) => r is Err && r->Err_0@ == e,
        },
{
    if same(name, "file.exists") {
        Ok(FileWork::Exists)
    } else if same(name, "file.readText") {
        Ok(FileWork::ReadText)
    } else if same(name, "file.writeText") {
        match expect_str(args, 1, name) {
            Ok(s) => if s.as_bytes().len() > MAX_BYTES {
                Err(String::from_str("file.writeText refuses contents larger than 1048576 bytes"))
            } else {
                Ok(FileWork::WriteText(String::from_str(s)))
            },
            Err(e) => Err(e),
        }
    } else if same(name, "sql.sqliteQuery") {
        match expect_str(args, 1, name) {
            Ok(s) => {
                let head = to_lower(trim_start(s).as_str());
                if starts_with(head.as_str(), "select") || starts_with(head.as_str(), "with")
                    || starts_with(head.as_str(), "pragma") {
                    Ok(FileWork::Query(String::from_str(s)))
                } else {
                    Err(
                        String::from_str(
                            "sql.sqliteQuery only allows SELECT, WITH, or PRAGMA statements",
                        ),
                    )
                }
            },
            Err(e) => Err(e),
        }
    } else if same(name, "nav.ephemerisState") {
        match expect_str(args, 1, name) {
            Ok(b) => match number(args, 2, name) {
                Ok(et) => Ok(FileWork::Ephemeris(String::from_str(b), et)),
                Err(e) => Err(e),
            },
            Err(e) => Err(e),
        }
    } else {
        Err(cat3("unknown capability '", name, "'"))
    }
}

/// Whether a file may be read, by its size.
pub fn readable_size(bytes: u64) -> (r: Result<(), String>)
    ensures
        bytes <= MAX_BYTES ==> r is Ok,
        bytes > MAX_BYTES ==> r is Err && r->Err_0@
            == "file.readText refuses files larger than 1048576 bytes"@,
{
    if bytes > MAX_BYTES as u64 {
        Err(String::from_str("file.readText refuses files larger than 1048576 bytes"))
    } else {
        Ok(())
    }
}

/// The work on the network, once the host is settled.
#[derive(Debug)]
pub enum NetWork {
    Get(String),
    /// Address, body, content type.
    Post(String, String, String),
    /// Body, start, stop, step in days, and the step's text where it is a whole
    /// number of them.
    Horizons(String, String, String, Real, Option<String>),
}

/// Network work with its texts as sequences.
pub enum NetWorkView {
    Get(Seq<char>),
    Post(Seq<char>, Seq<char>, Seq<char>),
    Horizons(Seq<char>, Seq<char>, Seq<char>, Real, Option<Seq<char>>),
}

impl NetWork {
    pub open spec fn seen(self) -> NetWorkView {
        match self {
            NetWork::Get(u) => NetWorkView::Get(u@),
            NetWork::Post(u, b, c) => NetWorkView::Post(u@, b@, c@),
            NetWork::Horizons(b, from, to, days, text) => NetWorkView::Horizons(
                b@,
                from@,
                to@,
                days,
                match text {
                    Some(t) => Some(t@),
                    None => None,
                },
            ),
        }
    }
}

/// The request that a call makes.
pub open spec fn work_on_net(name: Seq<char>, args: Seq<Cap>) -> Result<NetWorkView, Seq<char>> {
    if name == "http.get"@ {
        match url_arg(args, 0, name) {
            Ok(url) => Ok(NetWorkView::Get(url)),
            Err(e) => Err(e),
        }
    } else if name == "http.post"@ {
        match (url_arg(args, 0, name), str_arg(args, 1, name)) {
            (Err(e), _) => Err(e),
            (_, Err(e)) => Err(e),
            (Ok(url), Ok(body)) => match str_arg(args, 2, name) {
                Err(e) => Err(e),
                Ok(kind) => if encode_utf8(body).len() > MAX_BYTES {
                    Err("http.post refuses bodies larger than 1048576 bytes"@)
                } else {
                    Ok(NetWorkView::Post(url, body, kind))
                },
            },
        }
    } else if name == "nav.horizonsVectors"@ {
        match (str_arg(args, 0, name), str_arg(args, 1, name)) {
            (Err(e), _) => Err(e),
            (_, Err(e)) => Err(e),
            (Ok(body), Ok(from)) => match (str_arg(args, 2, name), number_arg(args, 3, name)) {
                (Err(e), _) => Err(e),
                (_, Err(e)) => Err(e),
                (Ok(to), Ok(days)) => Ok(
                    NetWorkView::Horizons(
                        body,
                        from,
                        to,
                        days,
                        if is_whole(days) {
                            Some(dec(cut_to_i64(days)) + "d"@)
                        } else {
                            None
                        },
                    ),
                ),
            },
        }
    } else {
        Err("unknown capability '"@ + name + "'"@)
    }
}

fn horizons_work(name: &str, args: &Vec<CapValue>) -> (r: Result<NetWork, String>)
    requires
        name@ == "nav.horizonsVectors"@,
        name@ != "http.get"@,
        name@ != "http.post"@,
    ensures
        match work_on_net(name@, caps(args@)) {
            Ok(w) => r is Ok && r->Ok_0.seen() == w,
            Err(e) => r is Err && r->Err_0@ == e,
        },
{
    let body = match expect_str(args, 0, name) {
        Ok(s) => String::from_str(s),
        Err(e) => {
            return Err(e);
        },
    };
    let from = match expect_str(args, 1, name) {
        Ok(s) => String::from_str(s),
        Err(e) => {
            return Err(e);
        },
    };
    let to = match expect_str(args, 2, name) {
        Ok(s) => String::from_str(s),
        Err(e) => {
            return Err(e);
        },
    };
    match number(args, 3, name) {
        Ok(days) => {
            let text = if whole_number(days) {
                let mut t = String::new();
                push_i64(&mut t, days.to_i64());
                let ghost before = t@;
                t.append("d");
                assert(before =~= dec(cut_to_i64(days)));
                Some(t)
            } else {
                None
            };
            Ok(NetWork::Horizons(body, from, to, days, text))
        },
        Err(e) => Err(e),
    }
}

/// Decides on the request, once the host is settled.
pub fn net_work(name: &str, args: &Vec<CapValue>) -> (r: Result<NetWork, String>)
    ensures
        match work_on_net(name@, caps(args@)) {
            Ok(w) => r is Ok && r->Ok_0.seen() == w,
            Err(e) => r is Err && r->Err_0@ == e,
        },
{
    if same(name, "http.get") {
        match expect_url(args, 0, name) {
            Ok(url) => Ok(NetWork::Get(String::from_str(url))),
            Err(e) => Err(e),
        }
    } else if same(name, "http.post") {
        let url = match expect_url(args, 0, name) {
            Ok(url) => String::from_str(url),
            Err(e) => {
                return Err(e);
            },
        };
        let body = match expect_str(args, 1, name) {
            Ok(s) => s,
            Err(e) => {
                return Err(e);
            },
        };
        match expect_str(args, 2, name) {
            Ok(kind) => if body.as_bytes().len() > MAX_BYTES {
                Err(String::from_str("http.post refuses bodies larger than 1048576 bytes"))
            } else {
                Ok(NetWork::Post(url, String::from_str(body), String::from_str(kind)))
            },
            Err(e) => Err(e),
        }
    } else if same(name, "nav.horizonsVectors") {
        horizons_work(name, args)
    } else {
        Err(cat3("unknown capability '", name, "'"))
    }
}

/// Whether a response may be taken, by its size.
pub fn response_size(capability: &str, bytes: usize) -> (r: Result<(), String>)
    ensures
        bytes <= MAX_BYTES ==> r is Ok,
        bytes > MAX_BYTES ==> r is Err && r->Err_0@ == capability@
            + " refuses responses larger than 1048576 bytes"@,
{
    if bytes > MAX_BYTES {
        Err(cat2(capability, " refuses responses larger than 1048576 bytes"))
    } else {
        Ok(())
    }
}

/// The text of the vectors in an answer of Horizons, or what is wrong with it.
pub open spec fn horizons_text(answer: Seq<char>, capability: Seq<char>) -> Result<
    Seq<char>,
    Seq<char>,
> {
    match text_js(answer) {
        Err(e) => Err(capability + " invalid JSON: "@ + e),
        Ok(root) => horizons_result(root, capability),
    }
}

pub open spec fn horizons_result(root: Js, capability: Seq<char>) -> Result<Seq<char>, Seq<char>> {
    match root.str_at("error"@) {
        Some(e) => Err(capability + " Horizons error: "@ + e),
        None => match root.str_at("result"@) {
            Some(t) => Ok(t),
            None => Err(capability + " Horizons response missing result text"@),
        },
    }
}

/// The text of the vectors in a parsed answer of Horizons.
pub fn horizons_answer(root: &Json, capability: &str) -> (r: Result<String, String>)
    ensures
        match horizons_result(js(*root), capability@) {
            Ok(t) => r is Ok && r->Ok_0@ == t,
            Err(e) => r is Err && r->Err_0@ == e,
        },
{
    match root.str_at("error") {
        Some(e) => Err(cat3(capability, " Horizons error: ", e)),
        None => match root.str_at("result") {
            Some(t) => Ok(String::from_str(t)),
            None => Err(cat2(capability, " Horizons response missing result text")),
        },
    }
}

/// The text of the vectors in an answer of Horizons.
pub fn read_horizons_answer(answer: &str, capability: &str) -> (r: Result<String, String>)
    ensures
        match horizons_text(answer@, capability@) {
            Ok(t) => r is Ok && r->Ok_0@ == t,
            Err(e) => r is Err && r->Err_0@ == e,
        },
{
    match parse_json_text(answer) {
        Ok(root) => horizons_answer(&root, capability),
        Err(e) => Err(cat3(capability, " invalid JSON: ", e.as_str())),
    }
}

/// A value of a database.
#[derive(Debug)]
pub enum SqlValue {
    Null,
    Integer(i64),
    Real(Real),
    Text(Vec<u8>),
    Blob(Vec<u8>),
}

/// The bytes as lower-case hexadecimal digits.
pub open spec fn hex_text(b: Seq<u8>) -> Seq<char>
    decreases b.len(),
{
    if b.len() == 0 {
        Seq::empty()
    } else {
        hex_text(b.drop_last()) + hex_byte(b.last())
    }
}

/// The bytes as lower-case hexadecimal digits.
pub fn hex(bytes: &[u8]) -> (r: String)
    ensures
        r@ == hex_text(bytes@),
{
    let mut r = String::new();
    let mut i: usize = 0;
    assert(bytes@.take(0) =~= Seq::<u8>::empty());
    while i < bytes.len()
        invariant
            i <= bytes.len(),
            r@ == hex_text(bytes@.take(i as int)),
        decreases bytes.len() - i,
    {
        let ghost before = r@;
        assert(bytes@.take(i + 1).drop_last() =~= bytes@.take(i as int));
        r.push(digit(bytes[i] / 16));
        r.push(digit(bytes[i] % 16));
        assert(r@ =~= before + hex_byte(bytes@[i as int]));
        i = i + 1;
    }
    assert(bytes@.take(i as int) =~= bytes@);
    r
}

/// A value of a database as a capability value: text by its characters, other
/// bytes by their digits.
pub open spec fn sql_cap(v: SqlValue) -> Cap {
    match v {
        SqlValue::Null => Cap::Null,
        SqlValue::Integer(n) => Cap::Int(n),
        SqlValue::Real(r) => Cap::Float(r),
        SqlValue::Text(b) => Cap::Str(lossy_text(b@)),
        SqlValue::Blob(b) => Cap::Str(hex_text(b@)),
    }
}

/// A value of a database as a capability value.
pub fn sql_value_to_cap(value: &SqlValue) -> (c: CapValue)
    ensures
        cap(c) == sql_cap(*value),
{
    match value {
        SqlValue::Null => CapValue::Null,
        SqlValue::Integer(n) => CapValue::Int(*n),
        SqlValue::Real(r) => CapValue::Float(*r),
        SqlValue::Text(b) => CapValue::Str(lossy(b.as_slice())),
        SqlValue::Blob(b) => CapValue::Str(hex(b.as_slice())),
    }
}

/// Whether another row may be added to a result.
pub fn room_for_row(rows: usize) -> (b: bool)
    ensures
        b == (rows < MAX_SQL_ROWS),
{
    rows < MAX_SQL_ROWS
}

} // verus!
