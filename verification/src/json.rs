//! JSON values.
use crate::number::{Real, real_of_int};
use crate::text::same;
use vstd::prelude::*;
use vstd::string::StringExecFns;

verus! {

/// A JSON number: a natural number, a negative integer, or a finite real.
#[derive(Clone, Copy, Debug, PartialEq, Eq, Structural)]
pub enum Number {
    Natural(u64),
    Negative(i64),
    Float(Real),
}

/// A JSON value.
#[derive(Debug)]
pub enum Json {
    Null,
    Bool(bool),
    Num(Number),
    Str(String),
    Arr(Vec<Json>),
    /// Fields in order, each name once.
    Obj(Vec<(String, Json)>),
}

/// A JSON value with texts and lists as sequences.
pub enum Js {
    Null,
    Bool(bool),
    Num(Number),
    Str(Seq<char>),
    Arr(Seq<Js>),
    Obj(Seq<(Seq<char>, Js)>),
}

/// What a JSON value stands for.
pub open spec fn js(j: Json) -> Js
    decreases j,
{
    match j {
        Json::Null => Js::Null,
        Json::Bool(b) => Js::Bool(b),
        Json::Num(n) => Js::Num(n),
        Json::Str(s) => Js::Str(s@),
        Json::Arr(a) => Js::Arr(jss(a@)),
        Json::Obj(o) => Js::Obj(fields(o@)),
    }
}

pub open spec fn jss(s: Seq<Json>) -> Seq<Js>
    decreases s,
{
    Seq::new(
        s.len(),
        |i: int|
            if 0 <= i < s.len() {
                js(s[i])
            } else {
                Js::Null
            },
    )
}

pub open spec fn fields(s: Seq<(String, Json)>) -> Seq<(Seq<char>, Js)>
    decreases s,
{
    Seq::new(
        s.len(),
        |i: int|
            if 0 <= i < s.len() {
                (s[i].0@, js(s[i].1))
            } else {
                (Seq::empty(), Js::Null)
            },
    )
}

pub proof fn fields_push(s: Seq<(String, Json)>, f: (String, Json))
    ensures
        fields(s.push(f)) == fields(s).push((f.0@, js(f.1))),
        fields(s).len() == s.len(),
{
    assert(fields(s.push(f)) =~= fields(s).push((f.0@, js(f.1))));
}

/// The value of a field.
pub open spec fn field(o: Seq<(Seq<char>, Js)>, key: Seq<char>) -> Option<Js>
    decreases o.len(),
{
    if o.len() == 0 {
        None
    } else if o.last().0 == key {
        Some(o.last().1)
    } else {
        field(o.drop_last(), key)
    }
}

/// An object without fields.
pub open spec fn no_fields() -> Seq<(Seq<char>, Js)> {
    Seq::empty()
}

/// An object without fields.
pub fn empty_object() -> (o: Vec<(String, Json)>)
    ensures
        fields(o@) == no_fields(),
{
    let o: Vec<(String, Json)> = Vec::new();
    assert(fields(o@) =~= no_fields());
    o
}

/// Adds a field.
pub fn put(o: &mut Vec<(String, Json)>, key: &str, value: Json)
    ensures
        fields(final(o)@) == fields(old(o)@).push((key@, js(value))),
{
    let f = (String::from_str(key), value);
    proof {
        fields_push(o@, f);
    }
    o.push(f);
}

/// The last field counts; another key is looked for before it.
pub broadcast proof fn field_behind(o: Seq<(Seq<char>, Js)>, f: (Seq<char>, Js), key: Seq<char>)
    ensures
        #[trigger] field(o.push(f), key) == (if f.0 == key {
            Some(f.1)
        } else {
            field(o, key)
        }),
{
    assert(o.push(f).drop_last() =~= o);
}

impl Js {
    /// The field of an object; nothing else has fields.
    pub open spec fn get(self, key: Seq<char>) -> Option<Js> {
        match self {
            Js::Obj(o) => field(o, key),
            _ => None,
        }
    }

    pub open spec fn as_bool(self) -> Option<bool> {
        match self {
            Js::Bool(b) => Some(b),
            _ => None,
        }
    }

    pub open spec fn as_u64(self) -> Option<u64> {
        match self {
            Js::Num(Number::Natural(n)) => Some(n),
            _ => None,
        }
    }

    pub open spec fn as_i64(self) -> Option<i64> {
        match self {
            Js::Num(Number::Natural(n)) => if n <= i64::MAX {
                Some(n as i64)
            } else {
                None
            },
            Js::Num(Number::Negative(n)) => Some(n),
            _ => None,
        }
    }

    /// Any number as a real.
    pub open spec fn as_real(self) -> Option<Real> {
        match self {
            Js::Num(Number::Natural(n)) => Some(real_of_int(n as int)),
            Js::Num(Number::Negative(n)) => Some(real_of_int(n as int)),
            Js::Num(Number::Float(r)) => Some(r),
            _ => None,
        }
    }

    pub open spec fn as_str(self) -> Option<Seq<char>> {
        match self {
            Js::Str(s) => Some(s),
            _ => None,
        }
    }

    pub open spec fn as_array(self) -> Option<Seq<Js>> {
        match self {
            Js::Arr(a) => Some(a),
            _ => None,
        }
    }

    pub open spec fn as_object(self) -> Option<Seq<(Seq<char>, Js)>> {
        match self {
            Js::Obj(o) => Some(o),
            _ => None,
        }
    }

    // Fields with a fallback, read from an object.

    pub open spec fn bool_or(self, key: Seq<char>, d: bool) -> bool {
        match self.get(key) {
            Some(v) => match v.as_bool() {
                Some(b) => b,
                None => d,
            },
            None => d,
        }
    }

    pub open spec fn u64_or(self, key: Seq<char>, d: u64) -> u64 {
        match self.get(key) {
            Some(v) => match v.as_u64() {
                Some(b) => b,
                None => d,
            },
            None => d,
        }
    }

    pub open spec fn real_at(self, key: Seq<char>) -> Option<Real> {
        match self.get(key) {
            Some(v) => v.as_real(),
            None => None,
        }
    }

    pub open spec fn real_or(self, key: Seq<char>, d: Real) -> Real {
        match self.real_at(key) {
            Some(r) => r,
            None => d,
        }
    }

    pub open spec fn str_at(self, key: Seq<char>) -> Option<Seq<char>> {
        match self.get(key) {
            Some(v) => v.as_str(),
            None => None,
        }
    }

    pub open spec fn array_at(self, key: Seq<char>) -> Option<Seq<Js>> {
        match self.get(key) {
            Some(v) => v.as_array(),
            None => None,
        }
    }

    pub open spec fn object_at(self, key: Seq<char>) -> Option<Seq<(Seq<char>, Js)>> {
        match self.get(key) {
            Some(v) => v.as_object(),
            None => None,
        }
    }
}

/// A real as JSON; what is not finite becomes null.
pub open spec fn real_js(r: Real) -> Js {
    if r.spec_is_finite() {
        Js::Num(Number::Float(r))
    } else {
        Js::Null
    }
}

pub open spec fn natural_js(n: u64) -> Js {
    Js::Num(Number::Natural(n))
}

/// The reals among the items of a list.
pub open spec fn reals_of(s: Seq<Js>) -> Seq<Real>
    decreases s.len(),
{
    if s.len() == 0 {
        Seq::empty()
    } else {
        match s.last().as_real() {
            Some(r) => reals_of(s.drop_last()).push(r),
            None => reals_of(s.drop_last()),
        }
    }
}

pub open spec fn reals_js(s: Seq<Real>) -> Js {
    Js::Arr(s.map_values(|r: Real| real_js(r)))
}

impl Json {
    /// The field of an object.
    pub fn get(&self, key: &str) -> (r: Option<&Json>)
        ensures
            match js(*self).get(key@) {
                Some(v) => r is Some && js(*r->Some_0) == v,
                None => r is None,
            },
    {
        match self {
            Json::Obj(o) => find_field(o, key),
            _ => None,
        }
    }

    pub fn as_bool(&self) -> (r: Option<bool>)
        ensures
            r == js(*self).as_bool(),
    {
        match self {
            Json::Bool(b) => Some(*b),
            _ => None,
        }
    }

    pub fn as_u64(&self) -> (r: Option<u64>)
        ensures
            r == js(*self).as_u64(),
    {
        match self {
            Json::Num(Number::Natural(n)) => Some(*n),
            _ => None,
        }
    }

    pub fn as_i64(&self) -> (r: Option<i64>)
        ensures
            r == js(*self).as_i64(),
    {
        match self {
            Json::Num(Number::Natural(n)) => if *n <= 0x7FFF_FFFF_FFFF_FFFF {
                Some(*n as i64)
            } else {
                None
            },
            Json::Num(Number::Negative(n)) => Some(*n),
            _ => None,
        }
    }

    pub fn as_real(&self) -> (r: Option<Real>)
        ensures
            r == js(*self).as_real(),
    {
        match self {
            Json::Num(Number::Natural(n)) => Some(Real::of_u64(*n)),
            Json::Num(Number::Negative(n)) => Some(Real::of_i64(*n)),
            Json::Num(Number::Float(r)) => Some(*r),
            _ => None,
        }
    }

    pub fn as_str(&self) -> (r: Option<&str>)
        ensures
            match js(*self).as_str() {
                Some(s) => r is Some && r->Some_0@ == s,
                None => r is None,
            },
    {
        match self {
            Json::Str(s) => Some(s.as_str()),
            _ => None,
        }
    }

    pub fn as_array(&self) -> (r: Option<&Vec<Json>>)
        ensures
            match js(*self).as_array() {
                Some(s) => r is Some && jss(r->Some_0@) == s,
                None => r is None,
            },
    {
        match self {
            Json::Arr(a) => Some(a),
            _ => None,
        }
    }

    pub fn as_object(&self) -> (r: Option<&Vec<(String, Json)>>)
        ensures
            match js(*self).as_object() {
                Some(s) => r is Some && fields(r->Some_0@) == s,
                None => r is None,
            },
    {
        match self {
            Json::Obj(a) => Some(a),
            _ => None,
        }
    }

    pub fn bool_or(&self, key: &str, d: bool) -> (b: bool)
        ensures
            b == js(*self).bool_or(key@, d),
    {
        match self.get(key) {
            Some(v) => match v.as_bool() {
                Some(b) => b,
                None => d,
            },
            None => d,
        }
    }

    pub fn u64_or(&self, key: &str, d: u64) -> (n: u64)
        ensures
            n == js(*self).u64_or(key@, d),
    {
        match self.get(key) {
            Some(v) => match v.as_u64() {
                Some(n) => n,
                None => d,
            },
            None => d,
        }
    }

    pub fn real_at(&self, key: &str) -> (r: Option<Real>)
        ensures
            r == js(*self).real_at(key@),
    {
        match self.get(key) {
            Some(v) => v.as_real(),
            None => None,
        }
    }

    pub fn real_or(&self, key: &str, d: Real) -> (r: Real)
        ensures
            r == js(*self).real_or(key@, d),
    {
        match self.real_at(key) {
            Some(r) => r,
            None => d,
        }
    }

    pub fn str_at(&self, key: &str) -> (r: Option<&str>)
        ensures
            match js(*self).str_at(key@) {
                Some(s) => r is Some && r->Some_0@ == s,
                None => r is None,
            },
    {
        match self.get(key) {
            Some(v) => v.as_str(),
            None => None,
        }
    }

    pub fn array_at(&self, key: &str) -> (r: Option<&Vec<Json>>)
        ensures
            match js(*self).array_at(key@) {
                Some(s) => r is Some && jss(r->Some_0@) == s,
                None => r is None,
            },
    {
        match self.get(key) {
            Some(v) => v.as_array(),
            None => None,
        }
    }

    pub fn object_at(&self, key: &str) -> (r: Option<&Vec<(String, Json)>>)
        ensures
            match js(*self).object_at(key@) {
                Some(s) => r is Some && fields(r->Some_0@) == s,
                None => r is None,
            },
    {
        match self.get(key) {
            Some(v) => v.as_object(),
            None => None,
        }
    }

    /// A text as JSON.
    pub fn text(s: &str) -> (j: Json)
        ensures
            js(j) == Js::Str(s@),
    {
        Json::Str(String::from_str(s))
    }

    /// A natural number as JSON.
    pub fn natural(n: u64) -> (j: Json)
        ensures
            js(j) == natural_js(n),
    {
        Json::Num(Number::Natural(n))
    }

    /// A real as JSON; null where it is not finite.
    pub fn number(r: Real) -> (j: Json)
        ensures
            js(j) == real_js(r),
    {
        if r.is_finite() {
            Json::Num(Number::Float(r))
        } else {
            Json::Null
        }
    }

    /// A list of reals as JSON.
    pub fn reals(v: &Vec<Real>) -> (j: Json)
        ensures
            js(j) == reals_js(v@),
    {
        let mut a: Vec<Json> = Vec::new();
        let mut i: usize = 0;
        while i < v.len()
            invariant
                i <= v.len(),
                a@.len() == i,
                forall|k: int| 0 <= k < i ==> js(a@[k]) == real_js(v@[k]),
            decreases v.len() - i,
        {
            a.push(Json::number(v[i]));
            i = i + 1;
        }
        assert(jss(a@) =~= v@.map_values(|r: Real| real_js(r)));
        Json::Arr(a)
    }
}

/// The value of a field in a list of fields.
pub fn find_field<'a>(o: &'a Vec<(String, Json)>, key: &str) -> (r: Option<&'a Json>)
    ensures
        match field(fields(o@), key@) {
            Some(v) => r is Some && js(*r->Some_0) == v,
            None => r is None,
        },
{
    let ghost all = fields(o@);
    let mut i: usize = o.len();
    assert(all.take(i as int) =~= all);
    while i > 0
        invariant
            i <= o.len(),
            all == fields(o@),
            field(all, key@) == field(all.take(i as int), key@),
        decreases i,
    {
        assert(all.take(i as int).drop_last() =~= all.take(i - 1));
        assert(all.take(i as int).last() == all[i - 1]);
        if same(o[i - 1].0.as_str(), key) {
            return Some(&o[i - 1].1);
        }
        i = i - 1;
    }
    None
}

/// The reals among the items of a list.
pub fn reals_in_list(a: &Vec<Json>) -> (v: Vec<Real>)
    ensures
        v@ == reals_of(jss(a@)),
{
    let ghost all = jss(a@);
    let mut v: Vec<Real> = Vec::new();
    let mut i: usize = 0;
    assert(all.take(0) =~= Seq::<Js>::empty());
    while i < a.len()
        invariant
            i <= a.len(),
            all == jss(a@),
            v@ == reals_of(all.take(i as int)),
        decreases a.len() - i,
    {
        assert(all.take(i + 1).drop_last() =~= all.take(i as int));
        assert(all.take(i + 1).last() == js(a@[i as int]));
        match a[i].as_real() {
            Some(r) => v.push(r),
            None => {},
        }
        i = i + 1;
    }
    assert(all.take(i as int) =~= all);
    v
}

/// Finite reals written as JSON are read back unchanged.
pub proof fn reals_round_trip(s: Seq<Real>)
    requires
        forall|i: int| 0 <= i < s.len() ==> (#[trigger] s[i]).spec_is_finite(),
    ensures
        reals_of(s.map_values(|r: Real| real_js(r))) == s,
    decreases s.len(),
{
    let w = s.map_values(|r: Real| real_js(r));
    if s.len() > 0 {
        let front = s.drop_last();
        assert forall|i: int| 0 <= i < front.len() implies (#[trigger] front[i]).spec_is_finite() by {
            assert(front[i] == s[i]);
        }
        reals_round_trip(front);
        assert(w.drop_last() =~= front.map_values(|r: Real| real_js(r)));
        assert(s[s.len() - 1].spec_is_finite());
        assert(front.push(s.last()) =~= s);
    } else {
        assert(s =~= Seq::<Real>::empty());
    }
}

/// A JSON value that stands for the same.
pub fn copy_json(j: &Json) -> (r: Json)
    ensures
        js(r) == js(*j),
    decreases j, 0int,
{
    match j {
        Json::Null => Json::Null,
        Json::Bool(b) => Json::Bool(*b),
        Json::Num(n) => Json::Num(*n),
        Json::Str(s) => Json::Str(s.clone()),
        Json::Arr(a) => Json::Arr(copy_items(a)),
        Json::Obj(o) => Json::Obj(copy_fields(o)),
    }
}

fn copy_items(a: &Vec<Json>) -> (r: Vec<Json>)
    ensures
        jss(r@) == jss(a@),
    decreases a, 1int,
{
    let mut r: Vec<Json> = Vec::new();
    let mut i: usize = 0;
    while i < a.len()
        invariant
            i <= a.len(),
            r@.len() == i,
            forall|k: int| 0 <= k < i ==> js(r@[k]) == js(a@[k]),
        decreases a.len() - i,
    {
        assert(decreases_to!(a => a@[i as int]));
        r.push(copy_json(&a[i]));
        i = i + 1;
    }
    assert(jss(r@) =~= jss(a@));
    r
}

fn copy_fields(o: &Vec<(String, Json)>) -> (r: Vec<(String, Json)>)
    ensures
        fields(r@) == fields(o@),
    decreases o, 1int,
{
    let mut r: Vec<(String, Json)> = Vec::new();
    let mut i: usize = 0;
    while i < o.len()
        invariant
            i <= o.len(),
            r@.len() == i,
            forall|k: int| 0 <= k < i ==> r@[k].0@ == o@[k].0@ && js(r@[k].1) == js(o@[k].1),
        decreases o.len() - i,
    {
        assert(decreases_to!(o => o@[i as int]));
        assert(decreases_to!(o@[i as int] => o@[i as int].1));
        r.push((o[i].0.clone(), copy_json(&o[i].1)));
        i = i + 1;
    }
    assert(fields(r@) =~= fields(o@));
    r
}

} // verus!
