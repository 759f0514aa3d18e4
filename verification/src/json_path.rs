//! Reading JSON texts by path, and JSON values as capability values.
use crate::cap_value::{Cap, CapValue, cap, caps};
use crate::json::{Js, Json, Number, field, fields, js, jss};
use crate::json_text::{Opened, js_text, open_value, reversed, value_js, value_text};
use crate::number::Real;
use crate::parse::{chars_of, natural, parse_u64, text_of};
use crate::strings::{char_count, parts, split_char};
use crate::text::same;
use crate::values::texts;
use vstd::prelude::*;
use vstd::string::StringExecFns;

verus! {

/// One step along a path: a field of an object, or an item of a list.
pub open spec fn js_step(j: Js, segment: Seq<char>) -> Option<Js> {
    match j {
        Js::Obj(o) => field(o, segment),
        Js::Arr(a) => match natural(segment) {
            Some(n) => if n < a.len() {
                Some(a[n])
            } else {
                None
            },
            None => None,
        },
        _ => None,
    }
}

/// Where the segments lead; empty ones lead nowhere.
pub open spec fn js_walk(j: Js, segments: Seq<Seq<char>>) -> Option<Js>
    decreases segments.len(),
{
    if segments.len() == 0 {
        Some(j)
    } else {
        match js_walk(j, segments.drop_last()) {
            None => None,
            Some(at) => if segments.last().len() == 0 {
                Some(at)
            } else {
                js_step(at, segments.last())
            },
        }
    }
}

/// `s` without the `$.` at its front, however often it stands there.
pub open spec fn without_root(s: Seq<char>) -> Seq<char>
    decreases s.len(),
{
    if s.len() >= 2 && s[0] == '$' && s[1] == '.' {
        without_root(s.skip(2))
    } else {
        s
    }
}

/// The value at a dotted path.
pub open spec fn js_path(j: Js, path: Seq<char>) -> Option<Js> {
    if path.len() == 0 || path == "$"@ {
        Some(j)
    } else {
        js_walk(j, parts(without_root(path), '.'))
    }
}

fn strip_root(path: &str) -> (r: String)
    ensures
        r@ == without_root(path@),
{
    let v = chars_of(path);
    let mut i: usize = 0;
    assert(v@.skip(0) == v@);
    while i < v.len() && v.len() - i >= 2 && v[i] == '$' && v[i + 1] == '.'
        invariant
            i <= v.len(),
            without_root(v@) == without_root(v@.skip(i as int)),
        decreases v.len() - i,
    {
        assert(v@.skip(i as int).skip(2) == v@.skip(i + 2));
        i = i + 2;
    }
    assert(v@.subrange(i as int, v@.len() as int) == v@.skip(i as int));
    text_of(&v, i, v.len())
}

fn descend(v: serde_json::Value, segment: &str) -> (r: Option<serde_json::Value>)
    ensures
        match js_step(value_js(v), segment@) {
            Some(j) => r is Some && value_js(r->Some_0) == j,
            None => r is None,
        },
{
    match open_value(v) {
        Opened::Obj(o) => {
            let mut o = o;
            let ghost items = o@;
            let ghost all = items.map_values(
                |f: (String, serde_json::Value)| (f.0@, value_js(f.1)),
            );
            let mut i: usize = o.len();
            assert(all.take(i as int) =~= all);
            while i > 0
                invariant
                    i <= o.len(),
                    o@ == items,
                    value_js(v) == Js::Obj(all),
                    all.len() == items.len(),
                    forall|k: int|
                        0 <= k < items.len() ==> all[k] == (
                            (#[trigger] items[k]).0@,
                            value_js(items[k].1),
                        ),
                    field(all, segment@) == field(all.take(i as int), segment@),
                decreases i,
            {
                assert(all.take(i as int).drop_last() =~= all.take(i - 1));
                assert(all.take(i as int).last() == all[i - 1]);
                assert(all[i - 1] == (items[i - 1].0@, value_js(items[i - 1].1)));
                if same(o[i - 1].0.as_str(), segment) {
                    let found = o.swap_remove(i - 1);
                    return Some(found.1);
                }
                i = i - 1;
            }
            None
        },
        Opened::Arr(a) => {
            let mut a = a;
            assert(forall|k: int|
                0 <= k < a@.len() ==> value_js(v)->Arr_0[k] == value_js(#[trigger] a@[k]));
            match parse_u64(segment) {
                Some(n) => if n < a.len() as u64 {
                    Some(a.swap_remove(n as usize))
                } else {
                    None
                },
                None => None,
            }
        },
        _ => None,
    }
}

proof fn lost_stays_lost(j: Js, segments: Seq<Seq<char>>, i: int)
    requires
        0 <= i <= segments.len(),
        js_walk(j, segments.take(i)) is None,
    ensures
        js_walk(j, segments) is None,
    decreases segments.len(),
{
    if i < segments.len() {
        assert(segments.drop_last().take(i) == segments.take(i));
        lost_stays_lost(j, segments.drop_last(), i);
    } else {
        assert(segments.take(i) == segments);
    }
}

/// The value at a dotted path of a parsed value.
pub(crate) fn json_path(root: serde_json::Value, path: &str) -> (r: Option<serde_json::Value>)
    ensures
        match js_path(value_js(root), path@) {
            Some(j) => r is Some && value_js(r->Some_0) == j,
            None => r is None,
        },
{
    if char_count(path) == 0 || same(path, "$") {
        return Some(root);
    }
    let segments = split_char(strip_root(path).as_str(), '.');
    let ghost all = texts(segments@);
    let ghost start = value_js(root);
    let mut current = root;
    let mut i: usize = 0;
    while i < segments.len()
        invariant
            i <= segments.len(),
            all == texts(segments@),
            js_path(start, path@) == js_walk(start, all),
            js_walk(start, all.take(i as int)) == Some(value_js(current)),
            start == value_js(root),
        decreases segments.len() - i,
    {
        assert(all.take(i + 1).drop_last() == all.take(i as int));
        assert(all.take(i + 1).last() == segments@[i as int]@);
        if char_count(segments[i].as_str()) > 0 {
            match descend(current, segments[i].as_str()) {
                Some(next) => {
                    current = next;
                },
                None => {
                    proof {
                        lost_stays_lost(start, all, i + 1);
                    }
                    return None;
                },
            }
        }
        i = i + 1;
    }
    assert(all.take(i as int) == all);
    Some(current)
}

/// A number as a capability value: an integer where it fits.
pub open spec fn number_cap(n: Number) -> Cap {
    match Js::Num(n).as_i64() {
        Some(i) => Cap::Int(i),
        None => Cap::Float(Js::Num(n).as_real()->Some_0),
    }
}

fn number_to_cap(n: Number) -> (c: CapValue)
    ensures
        cap(c) == number_cap(n),
{
    match n {
        Number::Natural(u) => if u <= 0x7FFF_FFFF_FFFF_FFFF {
            CapValue::Int(u as i64)
        } else {
            CapValue::Float(Real::of_u64(u))
        },
        Number::Negative(i) => CapValue::Int(i),
        Number::Float(r) => CapValue::Float(r),
    }
}

/// A JSON value as a capability's result; an object becomes its text.
pub open spec fn js_cap(j: Js) -> Cap
    decreases j,
{
    match j {
        Js::Null => Cap::Null,
        Js::Bool(b) => Cap::Bool(b),
        Js::Num(n) => number_cap(n),
        Js::Str(s) => Cap::Str(s),
        Js::Arr(a) => Cap::Array(js_caps(a)),
        Js::Obj(_) => Cap::Str(js_text(j)),
    }
}

pub open spec fn js_caps(s: Seq<Js>) -> Seq<Cap>
    decreases s,
{
    Seq::new(
        s.len(),
        |i: int|
            if 0 <= i < s.len() {
                js_cap(s[i])
            } else {
                Cap::Null
            },
    )
}

/// Turns a parsed value into a capability's result.
pub(crate) fn json_to_cap(v: serde_json::Value) -> (c: CapValue)
    ensures
        cap(c) == js_cap(value_js(v)),
    decreases value_js(v),
{
    let ghost whole = value_js(v);
    if v.is_object() {
        return CapValue::Str(value_text(&v));
    }
    match open_value(v) {
        Opened::Null => CapValue::Null,
        Opened::Bool(b) => CapValue::Bool(b),
        Opened::Num(n) => number_to_cap(n),
        Opened::Str(s) => CapValue::Str(s),
        Opened::Arr(a) => {
            let ghost items = a@;
            let ghost shown = whole->Arr_0;
            assert(shown == items.map_values(|v: serde_json::Value| value_js(v)));
            let mut r: Vec<CapValue> = Vec::new();
            let mut rest = reversed(a);
            while rest.len() > 0
                invariant
                    whole == value_js(v),
                    whole == Js::Arr(shown),
                    shown.len() == items.len(),
                    forall|k: int|
                        0 <= k < items.len() ==> shown[k] == value_js(#[trigger] items[k]),
                    r@.len() + rest@.len() == items.len(),
                    forall|k: int|
                        0 <= k < rest@.len() ==> rest@[k] == items[items.len() - 1 - k],
                    forall|k: int| 0 <= k < r@.len() ==> cap(r@[k]) == js_cap(shown[k]),
                decreases rest@.len(),
            {
                let ghost n = r@.len() as int;
                assert(rest@[rest@.len() - 1] == items[n]);
                assert(decreases_to!(whole => whole->Arr_0));
                assert(decreases_to!(shown => shown[n]));
                if let Some(x) = rest.pop() {
                    assert(value_js(x) == shown[n]);
                    r.push(json_to_cap(x));
                }
            }
            assert(caps(r@) =~= js_caps(shown));
            CapValue::Array(r)
        },
        Opened::Obj(_) => CapValue::Null,
    }
}

pub open spec fn js_kind(j: Js) -> Seq<char> {
    match j {
        Js::Null => "null"@,
        Js::Bool(_) => "bool"@,
        Js::Num(_) => "number"@,
        Js::Str(_) => "string"@,
        Js::Arr(_) => "array"@,
        Js::Obj(_) => "object"@,
    }
}

/// The number of items, fields or characters of a value that has them.
pub open spec fn js_len(j: Js) -> Option<nat> {
    match j {
        Js::Arr(a) => Some(a.len()),
        Js::Obj(o) => Some(o.len()),
        Js::Str(s) => Some(s.len()),
        _ => None,
    }
}

/// A length as an integer.
pub open spec fn len_int(n: nat) -> i64 {
    if n <= i64::MAX {
        n as i64
    } else {
        i64::MAX
    }
}

fn as_length(n: usize) -> (i: i64)
    ensures
        i == len_int(n as nat),
{
    if n as u64 <= 0x7FFF_FFFF_FFFF_FFFF {
        n as i64
    } else {
        i64::MAX
    }
}

/// The length of a value, or the name of a kind that has none.
pub(crate) fn json_length(v: serde_json::Value) -> (r: Result<i64, &'static str>)
    ensures
        match js_len(value_js(v)) {
            Some(n) => r is Ok && r->Ok_0 == len_int(n),
            None => r is Err && r->Err_0@ == js_kind(value_js(v)),
        },
{
    match open_value(v) {
        Opened::Arr(a) => Ok(as_length(a.len())),
        Opened::Obj(o) => Ok(as_length(o.len())),
        Opened::Str(s) => Ok(as_length(char_count(s.as_str()))),
        Opened::Null => Err("null"),
        Opened::Bool(_) => Err("bool"),
        Opened::Num(_) => Err("number"),
    }
}

/// A JSON value as the input of a run: an object becomes a list of pairs.
pub open spec fn input_cap(j: Js) -> Cap
    decreases j,
{
    match j {
        Js::Null => Cap::Null,
        Js::Bool(b) => Cap::Bool(b),
        Js::Num(n) => number_cap(n),
        Js::Str(s) => Cap::Str(s),
        Js::Arr(a) => Cap::Array(input_caps(a)),
        Js::Obj(o) => Cap::Array(input_pairs(o)),
    }
}

pub open spec fn input_caps(s: Seq<Js>) -> Seq<Cap>
    decreases s,
{
    Seq::new(
        s.len(),
        |i: int|
            if 0 <= i < s.len() {
                input_cap(s[i])
            } else {
                Cap::Null
            },
    )
}

pub open spec fn input_pairs(s: Seq<(Seq<char>, Js)>) -> Seq<Cap>
    decreases s,
{
    Seq::new(
        s.len(),
        |i: int|
            if 0 <= i < s.len() {
                Cap::Array(seq![Cap::Str(s[i].0), input_cap(s[i].1)])
            } else {
                Cap::Null
            },
    )
}

impl CapValue {
    /// A JSON value as the input of a run; an object becomes a list of pairs.
    pub fn from_json(v: &Json) -> (c: CapValue)
        ensures
            cap(c) == input_cap(js(*v)),
        decreases v, 0int,
    {
        match v {
            Json::Null => CapValue::Null,
            Json::Bool(b) => CapValue::Bool(*b),
            Json::Num(n) => number_to_cap(*n),
            Json::Str(s) => CapValue::Str(s.clone()),
            Json::Arr(a) => CapValue::Array(inputs_of(a)),
            Json::Obj(o) => CapValue::Array(pairs_of(o)),
        }
    }
}

fn inputs_of(a: &Vec<Json>) -> (r: Vec<CapValue>)
    ensures
        caps(r@) == input_caps(jss(a@)),
    decreases a, 1int,
{
    let mut r: Vec<CapValue> = Vec::new();
    let mut i: usize = 0;
    while i < a.len()
        invariant
            i <= a.len(),
            r@.len() == i,
            forall|k: int| 0 <= k < i ==> cap(r@[k]) == input_cap(js(a@[k])),
        decreases a.len() - i,
    {
        assert(decreases_to!(a => a@[i as int]));
        r.push(CapValue::from_json(&a[i]));
        i = i + 1;
    }
    assert(caps(r@) =~= input_caps(jss(a@)));
    r
}

fn pairs_of(o: &Vec<(String, Json)>) -> (r: Vec<CapValue>)
    ensures
        caps(r@) == input_pairs(fields(o@)),
    decreases o, 1int,
{
    let mut r: Vec<CapValue> = Vec::new();
    let mut i: usize = 0;
    while i < o.len()
        invariant
            i <= o.len(),
            r@.len() == i,
            forall|k: int|
                0 <= k < i ==> cap(r@[k]) == Cap::Array(
                    seq![Cap::Str(o@[k].0@), input_cap(js(o@[k].1))],
                ),
        decreases o.len() - i,
    {
        assert(decreases_to!(o => o@[i as int]));
        assert(decreases_to!(o@[i as int] => o@[i as int].1));
        let mut pair: Vec<CapValue> = Vec::new();
        pair.push(CapValue::Str(o[i].0.clone()));
        pair.push(CapValue::from_json(&o[i].1));
        assert(caps(pair@) =~= seq![Cap::Str(o@[i as int].0@), input_cap(js(o@[i as int].1))]);
        r.push(CapValue::Array(pair));
        i = i + 1;
    }
    assert(caps(r@) =~= input_pairs(fields(o@)));
    r
}

} // verus!
