//! JSON texts: parsed and rendered by `serde_json`.
use crate::json::{Js, Json, Number, fields, js, jss};
use crate::number::Real;
use vstd::prelude::*;

verus! {

/// `serde_json::Value`, a parsed JSON value.
#[verifier::external_type_specification]
#[verifier::external_body]
pub struct ExJsonValue(serde_json::Value);

/// What a parsed value holds.
pub uninterp spec fn value_js(v: serde_json::Value) -> Js;

/// What `serde_json::from_str` makes of a text: a value, or the message of its
/// error.
pub uninterp spec fn text_js(text: Seq<char>) -> Result<Js, Seq<char>>;

/// The compact text that `serde_json` renders a value as.
pub uninterp spec fn js_text(j: Js) -> Seq<char>;

/// The outermost layer of a parsed value.
pub enum Opened {
    Null,
    Bool(bool),
    Num(Number),
    Str(String),
    Arr(Vec<serde_json::Value>),
    Obj(Vec<(String, serde_json::Value)>),
}

/// What the layer and the values under it hold.
pub open spec fn opened_js(o: Opened) -> Js {
    match o {
        Opened::Null => Js::Null,
        Opened::Bool(b) => Js::Bool(b),
        Opened::Num(n) => Js::Num(n),
        Opened::Str(s) => Js::Str(s@),
        Opened::Arr(a) => Js::Arr(a@.map_values(|v: serde_json::Value| value_js(v))),
        Opened::Obj(o) => Js::Obj(
            o@.map_values(|f: (String, serde_json::Value)| (f.0@, value_js(f.1))),
        ),
    }
}

/// Calls `serde_json::from_str`: gives the value that the text stands for, or
/// the message of the error.
#[verifier::external_body]
pub(crate) fn parse_value(text: &str) -> (r: Result<serde_json::Value, String>)
    ensures
        match r {
            Ok(v) => text_js(text@) == Ok::<Js, Seq<char>>(value_js(v)),
            Err(e) => text_js(text@) == Err::<Js, Seq<char>>(e@),
        },
{
    serde_json::from_str(text).map_err(|e: serde_json::Error| e.to_string())
}

/// Takes a `serde_json::Value` apart by one layer. A number is a natural number
/// where `as_u64` gives one, else a negative integer where `as_i64` does, else
/// a real; the fields of an object come in the order in which it is walked.
#[verifier::external_body]
pub(crate) fn open_value(v: serde_json::Value) -> (o: Opened)
    ensures
        opened_js(o) == value_js(v),
{
    match v {
        serde_json::Value::Null => Opened::Null,
        serde_json::Value::Bool(b) => Opened::Bool(b),
        serde_json::Value::Number(n) => Opened::Num(match (n.as_u64(), n.as_i64()) {
            (Some(u), _) => Number::Natural(u),
            (None, Some(i)) => Number::Negative(i),
            _ => Number::Float(Real { bits: n.as_f64().unwrap_or_default().to_bits() }),
        }),
        serde_json::Value::String(s) => Opened::Str(s),
        serde_json::Value::Array(a) => Opened::Arr(a),
        serde_json::Value::Object(o) => Opened::Obj(o.into_iter().collect()),
    }
}

/// `serde_json::Value::is_object` tells whether a value is an object.
pub assume_specification[ serde_json::Value::is_object ](v: &serde_json::Value) -> (b: bool)
    ensures
        b == (value_js(*v) is Obj),
;

/// Calls `to_string` of `serde_json::Value`: its compact text.
#[verifier::external_body]
pub(crate) fn value_text(v: &serde_json::Value) -> (s: String)
    ensures
        s@ == js_text(value_js(*v)),
{
    v.to_string()
}

/// The items in reverse order.
pub(crate) fn reversed<T>(v: Vec<T>) -> (r: Vec<T>)
    ensures
        r@ == v@.reverse(),
{
    let ghost all = v@;
    let mut left = v;
    let mut r: Vec<T> = Vec::new();
    while left.len() > 0
        invariant
            left@.len() + r@.len() == all.len(),
            forall|k: int| 0 <= k < left@.len() ==> left@[k] == all[k],
            forall|k: int| 0 <= k < r@.len() ==> r@[k] == all[all.len() - 1 - k],
        decreases left@.len(),
    {
        if let Some(x) = left.pop() {
            r.push(x);
        }
    }
    assert(r@ =~= all.reverse());
    r
}

/// The JSON value that a parsed value holds.
pub(crate) fn json_of_value(v: serde_json::Value) -> (j: Json)
    ensures
        js(j) == value_js(v),
    decreases value_js(v),
{
    let ghost whole = value_js(v);
    match open_value(v) {
        Opened::Null => Json::Null,
        Opened::Bool(b) => Json::Bool(b),
        Opened::Num(n) => Json::Num(n),
        Opened::Str(s) => Json::Str(s),
        Opened::Arr(a) => {
            let ghost items = a@;
            let ghost shown = whole->Arr_0;
            assert(shown == items.map_values(|v: serde_json::Value| value_js(v)));
            let mut r: Vec<Json> = Vec::new();
            let mut rest = reversed(a);
            while rest.len() > 0
                invariant
                    whole == value_js(v),
                    whole == Js::Arr(shown),
                    shown.len() == items.len(),
                    forall|k: int| 0 <= k < items.len() ==> shown[k] == value_js(#[trigger] items[k]),
                    r@.len() + rest@.len() == items.len(),
                    forall|k: int|
                        0 <= k < rest@.len() ==> rest@[k] == items[items.len() - 1 - k],
                    forall|k: int| 0 <= k < r@.len() ==> js(r@[k]) == shown[k],
                decreases rest@.len(),
            {
                let ghost n = r@.len() as int;
                assert(rest@[rest@.len() - 1] == items[n]);
                assert(decreases_to!(whole => whole->Arr_0));
                assert(decreases_to!(shown => shown[n]));
                if let Some(x) = rest.pop() {
                    assert(value_js(x) == shown[n]);
                    r.push(json_of_value(x));
                }
            }
            assert(jss(r@) =~= shown);
            Json::Arr(r)
        },
        Opened::Obj(o) => {
            let ghost items = o@;
            let ghost shown = whole->Obj_0;
            assert(shown == items.map_values(
                |f: (String, serde_json::Value)| (f.0@, value_js(f.1)),
            ));
            let mut r: Vec<(String, Json)> = Vec::new();
            let mut rest = reversed(o);
            while rest.len() > 0
                invariant
                    whole == value_js(v),
                    whole == Js::Obj(shown),
                    shown.len() == items.len(),
                    forall|k: int|
                        0 <= k < items.len() ==> shown[k] == (
                            (#[trigger] items[k]).0@,
                            value_js(items[k].1),
                        ),
                    r@.len() + rest@.len() == items.len(),
                    forall|k: int|
                        0 <= k < rest@.len() ==> rest@[k] == items[items.len() - 1 - k],
                    forall|k: int|
                        0 <= k < r@.len() ==> r@[k].0@ == shown[k].0 && js(r@[k].1) == shown[k].1,
                decreases rest@.len(),
            {
                let ghost n = r@.len() as int;
                assert(rest@[rest@.len() - 1] == items[n]);
                assert(decreases_to!(whole => whole->Obj_0));
                assert(decreases_to!(shown => shown[n]));
                assert(decreases_to!(shown[n] => shown[n].1));
                if let Some((k, x)) = rest.pop() {
                    assert(value_js(x) == shown[n].1);
                    r.push((k, json_of_value(x)));
                }
            }
            assert(fields(r@) =~= shown);
            Json::Obj(r)
        },
    }
}

/// The JSON value of a text, or the message of the parser's error.
pub fn parse_json_text(text: &str) -> (r: Result<Json, String>)
    ensures
        match text_js(text@) {
            Ok(v) => r is Ok && js(r->Ok_0) == v,
            Err(e) => r is Err && r->Err_0@ == e,
        },
{
    match parse_value(text) {
        Ok(v) => Ok(json_of_value(v)),
        Err(e) => Err(e),
    }
}

} // verus!
