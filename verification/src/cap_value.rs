//! Values that capabilities take and give.
use crate::number::Real;
use crate::values::{GVal, Val, val, vals, vals_push};
use vstd::prelude::*;

verus! {

/// A capability's argument or result.
#[derive(Debug)]
pub enum CapValue {
    Int(i64),
    Float(Real),
    Str(String),
    Bool(bool),
    Null,
    Array(Vec<CapValue>),
}

/// A capability value with texts and lists as sequences.
pub enum Cap {
    Int(i64),
    Float(Real),
    Str(Seq<char>),
    Bool(bool),
    Null,
    Array(Seq<Cap>),
}

/// What a capability value stands for.
pub open spec fn cap(c: CapValue) -> Cap
    decreases c,
{
    match c {
        CapValue::Int(n) => Cap::Int(n),
        CapValue::Float(f) => Cap::Float(f),
        CapValue::Str(s) => Cap::Str(s@),
        CapValue::Bool(b) => Cap::Bool(b),
        CapValue::Null => Cap::Null,
        CapValue::Array(a) => Cap::Array(caps(a@)),
    }
}

pub open spec fn caps(s: Seq<CapValue>) -> Seq<Cap>
    decreases s,
{
    Seq::new(
        s.len(),
        |i: int|
            if 0 <= i < s.len() {
                cap(s[i])
            } else {
                Cap::Null
            },
    )
}

pub proof fn caps_push(s: Seq<CapValue>, c: CapValue)
    ensures
        caps(s.push(c)) == caps(s).push(cap(c)),
        caps(s).len() == s.len(),
{
    assert(caps(s.push(c)) =~= caps(s).push(cap(c)));
}

impl Cap {
    pub open spec fn kind(self) -> Seq<char> {
        match self {
            Cap::Int(_) => "int"@,
            Cap::Float(_) => "float"@,
            Cap::Str(_) => "str"@,
            Cap::Bool(_) => "bool"@,
            Cap::Null => "null"@,
            Cap::Array(_) => "array"@,
        }
    }
}

impl CapValue {
    /// The name of the value's type.
    pub fn kind_name(&self) -> (s: &'static str)
        ensures
            s@ == cap(*self).kind(),
    {
        match self {
            CapValue::Int(_) => "int",
            CapValue::Float(_) => "float",
            CapValue::Str(_) => "str",
            CapValue::Bool(_) => "bool",
            CapValue::Null => "null",
            CapValue::Array(_) => "array",
        }
    }
}

/// A capability value that stands for the same.
pub fn copy_cap(c: &CapValue) -> (r: CapValue)
    ensures
        cap(r) == cap(*c),
    decreases c, 0int,
{
    match c {
        CapValue::Int(n) => CapValue::Int(*n),
        CapValue::Float(f) => CapValue::Float(*f),
        CapValue::Str(s) => CapValue::Str(s.clone()),
        CapValue::Bool(b) => CapValue::Bool(*b),
        CapValue::Null => CapValue::Null,
        CapValue::Array(a) => CapValue::Array(copy_caps(a)),
    }
}

pub fn copy_caps(a: &Vec<CapValue>) -> (r: Vec<CapValue>)
    ensures
        caps(r@) == caps(a@),
    decreases a, 1int,
{
    let mut r: Vec<CapValue> = Vec::new();
    let mut i: usize = 0;
    while i < a.len()
        invariant
            i <= a.len(),
            r@.len() == i,
            caps(r@) == caps(a@).take(i as int),
        decreases a.len() - i,
    {
        assert(decreases_to!(a => a@[i as int]));
        let x = copy_cap(&a[i]);
        proof {
            caps_push(r@, x);
        }
        r.push(x);
        i = i + 1;
        assert(caps(a@).take(i as int) == caps(a@).take(i - 1).push(cap(a@[i - 1])));
    }
    assert(caps(a@).take(i as int) == caps(a@));
    r
}

/// A runtime value as a capability argument; functions cannot be one.
pub open spec fn cap_of(v: Val) -> Option<Cap>
    decreases v, 0int,
{
    match v {
        Val::Int(n) => Some(Cap::Int(n)),
        Val::Float(f) => Some(Cap::Float(f)),
        Val::Str(s) => Some(Cap::Str(s)),
        Val::Bool(b) => Some(Cap::Bool(b)),
        Val::Null => Some(Cap::Null),
        Val::Array(a) => match caps_of(a) {
            Some(items) => Some(Cap::Array(items)),
            None => None,
        },
        Val::GraphFn { .. } => None,
    }
}

pub open spec fn caps_of(s: Seq<Val>) -> Option<Seq<Cap>>
    decreases s, 0int,
{
    if s.len() == 0 {
        Some(Seq::empty())
    } else {
        match (caps_of(s.drop_last()), cap_of(s.last())) {
            (Some(items), Some(c)) => Some(items.push(c)),
            _ => None,
        }
    }
}

/// A capability's result as a runtime value.
pub open spec fn val_of_cap(c: Cap) -> Val
    decreases c, 0int,
{
    match c {
        Cap::Int(n) => Val::Int(n),
        Cap::Float(f) => Val::Float(f),
        Cap::Str(s) => Val::Str(s),
        Cap::Bool(b) => Val::Bool(b),
        Cap::Null => Val::Null,
        Cap::Array(a) => Val::Array(vals_of_caps(a)),
    }
}

pub open spec fn vals_of_caps(s: Seq<Cap>) -> Seq<Val>
    decreases s, 0int,
{
    if s.len() == 0 {
        Seq::empty()
    } else {
        vals_of_caps(s.drop_last()).push(val_of_cap(s.last()))
    }
}

/// Passing a value to a capability and back changes nothing.
pub proof fn cap_round_trip(v: Val)
    requires
        cap_of(v) is Some,
    ensures
        val_of_cap(cap_of(v)->Some_0) == v,
    decreases v, 0int,
{
    if let Val::Array(a) = v {
        caps_round_trip(a);
    }
}

pub proof fn caps_round_trip(s: Seq<Val>)
    requires
        caps_of(s) is Some,
    ensures
        vals_of_caps(caps_of(s)->Some_0) == s,
    decreases s, 0int,
{
    if s.len() > 0 {
        caps_round_trip(s.drop_last());
        cap_round_trip(s.last());
        let items = caps_of(s.drop_last())->Some_0;
        let c = cap_of(s.last())->Some_0;
        assert(items.push(c).drop_last() == items);
        assert(s.drop_last().push(s.last()) == s);
    } else {
        assert(s == Seq::<Val>::empty());
    }
}

/// Turns a runtime value into a capability argument.
pub fn gval_to_cap(g: &GVal) -> (r: Option<CapValue>)
    ensures
        match cap_of(val(*g)) {
            Some(c) => r is Some && cap(r->Some_0) == c,
            None => r is None,
        },
    decreases g, 0int,
{
    match g {
        GVal::Int(n) => Some(CapValue::Int(*n)),
        GVal::Float(f) => Some(CapValue::Float(*f)),
        GVal::Str(s) => Some(CapValue::Str(s.clone())),
        GVal::Bool(b) => Some(CapValue::Bool(*b)),
        GVal::Null => Some(CapValue::Null),
        GVal::Array(a) => match gvals_to_caps(a) {
            Some(items) => Some(CapValue::Array(items)),
            None => None,
        },
        GVal::GraphFn { .. } => None,
    }
}

proof fn caps_of_prefix(s: Seq<Val>, i: int)
    requires
        0 <= i <= s.len(),
        caps_of(s.take(i)) is None,
    ensures
        caps_of(s) is None,
    decreases s.len() - i,
{
    if i < s.len() {
        assert(s.take(i + 1).drop_last() == s.take(i));
        caps_of_prefix(s, i + 1);
    } else {
        assert(s.take(i) == s);
    }
}

pub fn gvals_to_caps(a: &Vec<GVal>) -> (r: Option<Vec<CapValue>>)
    ensures
        match caps_of(vals(a@)) {
            Some(items) => r is Some && caps(r->Some_0@) == items,
            None => r is None,
        },
    decreases a, 1int,
{
    let ghost all = vals(a@);
    let mut r: Vec<CapValue> = Vec::new();
    let mut i: usize = 0;
    assert(all.take(0) == Seq::<Val>::empty());
    assert(caps(r@) == Seq::<Cap>::empty());
    while i < a.len()
        invariant
            i <= a.len(),
            all == vals(a@),
            caps_of(all.take(i as int)) == Some(caps(r@)),
        decreases a.len() - i,
    {
        assert(decreases_to!(a => a@[i as int]));
        assert(all.take(i + 1).drop_last() == all.take(i as int));
        match gval_to_cap(&a[i]) {
            Some(c) => {
                proof {
                    caps_push(r@, c);
                }
                r.push(c);
            },
            None => {
                proof {
                    caps_of_prefix(all, i + 1);
                }
                return None;
            },
        }
        i = i + 1;
    }
    assert(all.take(i as int) == all);
    Some(r)
}

/// Turns a capability's result into a runtime value.
pub fn cap_to_gval(c: &CapValue) -> (g: GVal)
    ensures
        val(g) == val_of_cap(cap(*c)),
    decreases c, 0int,
{
    match c {
        CapValue::Int(n) => GVal::Int(*n),
        CapValue::Float(f) => GVal::Float(*f),
        CapValue::Str(s) => GVal::Str(s.clone()),
        CapValue::Bool(b) => GVal::Bool(*b),
        CapValue::Null => GVal::Null,
        CapValue::Array(a) => GVal::Array(caps_to_gvals(a)),
    }
}

pub fn caps_to_gvals(a: &Vec<CapValue>) -> (r: Vec<GVal>)
    ensures
        vals(r@) == vals_of_caps(caps(a@)),
    decreases a, 1int,
{
    let ghost all = caps(a@);
    let mut r: Vec<GVal> = Vec::new();
    let mut i: usize = 0;
    assert(all.take(0) == Seq::<Cap>::empty());
    assert(vals(r@) == Seq::<Val>::empty());
    while i < a.len()
        invariant
            i <= a.len(),
            all == caps(a@),
            vals(r@) == vals_of_caps(all.take(i as int)),
        decreases a.len() - i,
    {
        assert(decreases_to!(a => a@[i as int]));
        let g = cap_to_gval(&a[i]);
        proof {
            vals_push(r@, g);
            assert(all.take(i + 1).drop_last() == all.take(i as int));
        }
        r.push(g);
        i = i + 1;
    }
    assert(all.take(i as int) == all);
    r
}

} // verus!
