//! Feature vectors: what a context is made of, and how its values become
//! numbers.
use crate::cap_calls::{sort_values, sorted_values};
use crate::json::{Js, Json, Number, empty_object, field_behind, js, jss, natural_js, no_fields, put, reals_in_list, reals_js, reals_of, reals_round_trip};
use crate::message::{Part, Piece, message_parts, told, told_number, told_numbers};
use crate::number::{ONE, Real};
use crate::real_constants::R_1EM12;
use crate::strings::{cat2, cat3, cat4};
use crate::table::Table;
use crate::text::{dec, same, u64_text};
use crate::values::texts;
use vstd::prelude::*;
use vstd::string::StringExecFns;

verus! {

/// What a context is: a key, or a list of features.
#[derive(Debug)]
pub enum ContextSpec {
    Discrete,
    Features { features: Vec<FeatureSpec> },
}

impl Default for ContextSpec {
    fn default() -> (c: Self)
        ensures
            c is Discrete,
    {
        ContextSpec::Discrete
    }
}

/// One feature.
#[derive(Debug)]
pub struct FeatureSpec {
    pub name: String,
    pub feature_type: FeatureType,
}

/// How a feature is encoded.
#[derive(Debug)]
pub enum FeatureType {
    /// A number, scaled to `[0, 1]` where a range is given.
    Continuous { range: Option<[Real; 2]> },
    /// One of several values; the first is the reference.
    Categorical { values: Vec<String> },
    /// A number on a circle, as sine and cosine.
    Cyclic { period: Real },
    /// Recent values, by their aggregations.
    TimeSeries { window_size: usize, aggregations: Vec<Aggregation> },
}

/// What is taken of a window of values.
#[derive(Clone, Copy, Debug, PartialEq, Eq, Structural)]
pub enum Aggregation {
    Mean,
    Max,
    Min,
    P95,
    P50,
    Slope,
}

/// A value of a feature.
#[derive(Debug)]
pub enum FeatureValue {
    Number(Real),
    Category(String),
}

impl FeatureType {
    /// The number of dimensions of the encoded feature.
    pub open spec fn dims(self) -> nat {
        match self {
            FeatureType::Continuous { .. } => 1,
            FeatureType::Categorical { values } => if values@.len() > 0 {
                (values@.len() - 1) as nat
            } else {
                0
            },
            FeatureType::Cyclic { .. } => 2,
            FeatureType::TimeSeries { aggregations, .. } => aggregations@.len(),
        }
    }

    pub fn dimension(&self) -> (n: usize)
        ensures
            n == self.dims(),
    {
        match self {
            FeatureType::Continuous { .. } => 1,
            FeatureType::Categorical { values } => if values.len() > 0 {
                values.len() - 1
            } else {
                0
            },
            FeatureType::Cyclic { .. } => 2,
            FeatureType::TimeSeries { aggregations, .. } => aggregations.len(),
        }
    }
}

/// `feature '..'` and what is told of it.
pub open spec fn of_feature(name: Seq<char>, what: Seq<char>) -> Seq<char> {
    "feature '"@ + name + "'"@ + what
}

fn feature_text(name: &str, what: &str) -> (s: String)
    ensures
        s@ == of_feature(name@, what@),
{
    cat4("feature '", name, "'", what)
}

/// What is wrong with an aggregation over a window of this size.
pub open spec fn aggregation_fault(name: Seq<char>, a: Aggregation, size: int) -> Option<Seq<char>> {
    if a == Aggregation::P95 && size < 5 {
        Some(
            of_feature(name, " aggregation 'p95' requires window_size >= 5, got "@) + dec(size),
        )
    } else if a == Aggregation::Slope && size < 2 {
        Some(
            of_feature(name, " aggregation 'slope' requires window_size >= 2, got "@) + dec(size),
        )
    } else {
        None
    }
}

/// The first fault among the aggregations.
pub open spec fn first_fault(name: Seq<char>, s: Seq<Aggregation>, size: int) -> Option<Seq<char>>
    decreases s.len(),
{
    if s.len() == 0 {
        None
    } else {
        match aggregation_fault(name, s[0], size) {
            Some(e) => Some(e),
            None => first_fault(name, s.drop_first(), size),
        }
    }
}

impl FeatureSpec {
    /// What is wrong with the feature.
    pub open spec fn fault(self) -> Option<Seq<Part>> {
        match self.feature_type {
            FeatureType::Continuous { range } => match range {
                Some(r) => if r@[0].below(r@[1]) {
                    None
                } else {
                    Some(
                        seq![
                            Part::Text(of_feature(self.name@, " has invalid range ["@)),
                            Part::Number(r@[0]),
                            Part::Text(", "@),
                            Part::Number(r@[1]),
                            Part::Text("] (need min < max)"@),
                        ],
                    )
                },
                None => None,
            },
            FeatureType::Categorical { values } => if values@.len() == 0 {
                Some(seq![Part::Text(of_feature(self.name@, " has no categorical values"@))])
            } else {
                None
            },
            FeatureType::Cyclic { period } => if period.at_most(Real { bits: 0 }) {
                Some(
                    seq![
                        Part::Text(of_feature(self.name@, " has non-positive period "@)),
                        Part::Number(period),
                        Part::Text(""@),
                    ],
                )
            } else {
                None
            },
            FeatureType::TimeSeries { window_size, aggregations } => if window_size == 0 {
                Some(
                    seq![
                        Part::Text(of_feature(self.name@, " time-series window_size must be >= 1"@)),
                    ],
                )
            } else if aggregations@.len() == 0 {
                Some(
                    seq![
                        Part::Text(
                            of_feature(
                                self.name@,
                                " time-series must declare at least one aggregation"@,
                            ),
                        ),
                    ],
                )
            } else {
                match first_fault(self.name@, aggregations@, window_size as int) {
                    Some(e) => Some(seq![Part::Text(e)]),
                    None => None,
                }
            },
        }
    }

    /// The number of dimensions of the encoded feature.
    pub fn encoded_dimension(&self) -> (n: usize)
        ensures
            n == self.feature_type.dims(),
    {
        self.feature_type.dimension()
    }

    /// Checks the feature.
    pub fn validate(&self) -> (r: Result<(), Vec<Piece>>)
        ensures
            match self.fault() {
                Some(m) => r is Err && message_parts(r->Err_0@) == m,
                None => r is Ok,
            },
    {
        let name = self.name.as_str();
        match &self.feature_type {
            FeatureType::Continuous { range } => {
                if let Some(r) = range {
                    if !r[0].lt(r[1]) {
                        return Err(
                            told_numbers(
                                feature_text(name, " has invalid range ["),
                                r[0],
                                ", ",
                                r[1],
                                "] (need min < max)",
                            ),
                        );
                    }
                }
                Ok(())
            },
            FeatureType::Categorical { values } => {
                if values.len() == 0 {
                    return Err(told(feature_text(name, " has no categorical values")));
                }
                Ok(())
            },
            FeatureType::Cyclic { period } => {
                if period.le(Real::zero()) {
                    return Err(
                        told_number(feature_text(name, " has non-positive period "), *period, ""),
                    );
                }
                Ok(())
            },
            FeatureType::TimeSeries { window_size, aggregations } => {
                if *window_size == 0 {
                    return Err(told(feature_text(name, " time-series window_size must be >= 1")));
                }
                if aggregations.len() == 0 {
                    return Err(
                        told(
                            feature_text(
                                name,
                                " time-series must declare at least one aggregation",
                            ),
                        ),
                    );
                }
                let size = u64_text(*window_size as u64);
                let ghost all = aggregations@;
                let mut i: usize = 0;
                assert(all.skip(0) == all);
                while i < aggregations.len()
                    invariant
                        i <= aggregations.len(),
                        all == aggregations@,
                        all.len() > 0,
                        *window_size > 0,
                        self.feature_type == (FeatureType::TimeSeries {
                            window_size: *window_size,
                            aggregations: *aggregations,
                        }),
                        name@ == self.name@,
                        size@ == dec(*window_size as int),
                        first_fault(name@, all, *window_size as int) == first_fault(
                            name@,
                            all.skip(i as int),
                            *window_size as int,
                        ),
                    decreases aggregations.len() - i,
                {
                    assert(all.skip(i as int)[0] == all[i as int]);
                    if aggregations[i] == Aggregation::P95 && *window_size < 5 {
                        let a = feature_text(
                            name,
                            " aggregation 'p95' requires window_size >= 5, got ",
                        );
                        return Err(told(cat2(a.as_str(), size.as_str())));
                    }
                    if aggregations[i] == Aggregation::Slope && *window_size < 2 {
                        let a = feature_text(
                            name,
                            " aggregation 'slope' requires window_size >= 2, got ",
                        );
                        return Err(told(cat2(a.as_str(), size.as_str())));
                    }
                    assert(all.skip(i as int).drop_first() == all.skip(i + 1));
                    i = i + 1;
                }
                Ok(())
            },
        }
    }
}

// Windows

/// The most recent values of a feature, oldest first.
#[derive(Debug)]
pub struct TimeSeriesWindow {
    pub values: Vec<Real>,
    pub max_size: usize,
}

/// A value that is known, or what the host is to compute it from.
#[derive(Debug)]
pub enum Encoded {
    Given(Real),
    /// `(n - min) / (max - min)`, held between zero and one.
    Scaled { n: Real, min: Real, max: Real },
    /// The sine of `n` on a circle of this period.
    Sine { n: Real, period: Real },
    /// The cosine of `n` on a circle of this period.
    Cosine { n: Real, period: Real },
    Mean(Vec<Real>),
    /// Values in order, and the percentile of them.
    Percentile(Vec<Real>, u8),
    /// The least-squares slope over the places of the values.
    Slope(Vec<Real>),
}

/// A value to compute, with its lists as sequences.
pub enum Coord {
    Given(Real),
    Scaled { n: Real, min: Real, max: Real },
    Sine { n: Real, period: Real },
    Cosine { n: Real, period: Real },
    Mean(Seq<Real>),
    Percentile(Seq<Real>, u8),
    Slope(Seq<Real>),
}

pub open spec fn coord(e: Encoded) -> Coord {
    match e {
        Encoded::Given(r) => Coord::Given(r),
        Encoded::Scaled { n, min, max } => Coord::Scaled { n, min, max },
        Encoded::Sine { n, period } => Coord::Sine { n, period },
        Encoded::Cosine { n, period } => Coord::Cosine { n, period },
        Encoded::Mean(v) => Coord::Mean(v@),
        Encoded::Percentile(v, p) => Coord::Percentile(v@, p),
        Encoded::Slope(v) => Coord::Slope(v@),
    }
}

pub open spec fn coords(s: Seq<Encoded>) -> Seq<Coord> {
    s.map_values(|e: Encoded| coord(e))
}

proof fn coords_push(s: Seq<Encoded>, e: Encoded)
    ensures
        coords(s.push(e)) == coords(s).push(coord(e)),
        coords(s).len() == s.len(),
{
    assert(coords(s.push(e)) =~= coords(s).push(coord(e)));
}

/// The bits of plus and minus infinity.
pub const PLUS_INFINITY: u64 = 0x7FF0_0000_0000_0000;

pub const MINUS_INFINITY: u64 = 0xFFF0_0000_0000_0000;

/// The lesser of two; what is no number does not count.
pub open spec fn lesser(a: Real, b: Real) -> Real {
    if a.spec_is_nan() || b.below(a) {
        b
    } else {
        a
    }
}

/// The greatest of the values.
pub open spec fn top(s: Seq<Real>) -> Real
    decreases s.len(),
{
    if s.len() == 0 {
        Real { bits: MINUS_INFINITY }
    } else {
        top(s.drop_last()).spec_max(s.last())
    }
}

/// The least of the values.
pub open spec fn bottom(s: Seq<Real>) -> Real
    decreases s.len(),
{
    if s.len() == 0 {
        Real { bits: PLUS_INFINITY }
    } else {
        lesser(bottom(s.drop_last()), s.last())
    }
}

/// The greatest of the values; minus infinity where there are none.
pub fn top_of(v: &Vec<Real>) -> (r: Real)
    ensures
        r == top(v@),
{
    let mut r = Real { bits: MINUS_INFINITY };
    let mut i: usize = 0;
    assert(v@.take(0) == Seq::<Real>::empty());
    while i < v.len()
        invariant
            i <= v.len(),
            r == top(v@.take(i as int)),
        decreases v.len() - i,
    {
        assert(v@.take(i + 1).drop_last() == v@.take(i as int));
        if r.is_nan() || r.lt(v[i]) {
            r = v[i];
        }
        i = i + 1;
    }
    assert(v@.take(i as int) == v@);
    r
}

/// The least of the values; infinity where there are none.
pub fn bottom_of(v: &Vec<Real>) -> (r: Real)
    ensures
        r == bottom(v@),
{
    let mut r = Real { bits: PLUS_INFINITY };
    let mut i: usize = 0;
    assert(v@.take(0) == Seq::<Real>::empty());
    while i < v.len()
        invariant
            i <= v.len(),
            r == bottom(v@.take(i as int)),
        decreases v.len() - i,
    {
        assert(v@.take(i + 1).drop_last() == v@.take(i as int));
        if r.is_nan() || v[i].lt(r) {
            r = v[i];
        }
        i = i + 1;
    }
    assert(v@.take(i as int) == v@);
    r
}

/// A copy of a list of reals.
pub fn copy_reals(v: &Vec<Real>) -> (r: Vec<Real>)
    ensures
        r@ == v@,
{
    let mut r: Vec<Real> = Vec::new();
    let mut i: usize = 0;
    while i < v.len()
        invariant
            i <= v.len(),
            r@ == v@.take(i as int),
        decreases v.len() - i,
    {
        r.push(v[i]);
        i = i + 1;
        assert(v@.take(i as int) =~= v@.take(i - 1).push(v@[i - 1]));
    }
    assert(v@.take(i as int) == v@);
    r
}

/// What an aggregation of values is. Without values it is zero; so is the slope
/// of a single one, whose percentiles are itself.
pub open spec fn aggregated(s: Seq<Real>, a: Aggregation) -> Coord {
    if s.len() == 0 {
        Coord::Given(Real { bits: 0 })
    } else {
        match a {
            Aggregation::Mean => Coord::Mean(s),
            Aggregation::Max => Coord::Given(top(s)),
            Aggregation::Min => Coord::Given(bottom(s)),
            Aggregation::P50 => if s.len() == 1 {
                Coord::Given(s[0])
            } else {
                Coord::Percentile(sorted_values(s), 50)
            },
            Aggregation::P95 => if s.len() == 1 {
                Coord::Given(s[0])
            } else {
                Coord::Percentile(sorted_values(s), 95)
            },
            Aggregation::Slope => if s.len() < 2 {
                Coord::Given(Real { bits: 0 })
            } else {
                Coord::Slope(s)
            },
        }
    }
}

/// The window after a value: the oldest leaves where it is full.
pub open spec fn pushed(s: Seq<Real>, max: int, v: Real) -> Seq<Real> {
    if max == 0 {
        s
    } else if s.len() >= max {
        s.drop_first().push(v)
    } else {
        s.push(v)
    }
}

impl TimeSeriesWindow {
    /// No more values than there is room for.
    pub open spec fn wf(self) -> bool {
        self.values@.len() <= self.max_size
    }

    /// An empty window.
    pub fn new(max_size: usize) -> (w: Self)
        ensures
            w.values@.len() == 0,
            w.max_size == max_size,
            w.wf(),
    {
        TimeSeriesWindow { values: Vec::new(), max_size }
    }

    /// Adds a value; the oldest leaves where the window is full.
    pub fn push(&mut self, v: Real)
        ensures
            final(self).values@ == pushed(old(self).values@, old(self).max_size as int, v),
            final(self).max_size == old(self).max_size,
            old(self).wf() ==> final(self).wf(),
    {
        if self.max_size == 0 {
            return ;
        }
        if self.values.len() >= self.max_size {
            let ghost before = self.values@;
            let _ = self.values.remove(0);
            assert(self.values@ =~= before.drop_first());
        }
        self.values.push(v);
    }

    /// An aggregation of the values.
    pub fn aggregate(&self, agg: Aggregation) -> (e: Encoded)
        ensures
            coord(e) == aggregated(self.values@, agg),
    {
        if self.values.len() == 0 {
            return Encoded::Given(Real::zero());
        }
        match agg {
            Aggregation::Mean => Encoded::Mean(copy_reals(&self.values)),
            Aggregation::Max => Encoded::Given(top_of(&self.values)),
            Aggregation::Min => Encoded::Given(bottom_of(&self.values)),
            Aggregation::P50 => if self.values.len() == 1 {
                Encoded::Given(self.values[0])
            } else {
                Encoded::Percentile(sort_values(&self.values), 50)
            },
            Aggregation::P95 => if self.values.len() == 1 {
                Encoded::Given(self.values[0])
            } else {
                Encoded::Percentile(sort_values(&self.values), 95)
            },
            Aggregation::Slope => if self.values.len() < 2 {
                Encoded::Given(Real::zero())
            } else {
                Encoded::Slope(copy_reals(&self.values))
            },
        }
    }

    /// The aggregations of the values, in order.
    pub fn aggregate_all(&self, aggs: &Vec<Aggregation>) -> (r: Vec<Encoded>)
        ensures
            coords(r@) == aggs@.map_values(|a: Aggregation| aggregated(self.values@, a)),
    {
        let mut r: Vec<Encoded> = Vec::new();
        let mut i: usize = 0;
        while i < aggs.len()
            invariant
                i <= aggs.len(),
                r@.len() == i,
                forall|k: int|
                    0 <= k < i ==> coord(#[trigger] r@[k]) == aggregated(self.values@, aggs@[k]),
            decreases aggs.len() - i,
        {
            r.push(self.aggregate(aggs[i]));
            i = i + 1;
        }
        assert(coords(r@) =~= aggs@.map_values(|a: Aggregation| aggregated(self.values@, a)));
        r
    }

    /// The window as JSON.
    pub fn serialize(&self) -> (j: Json)
        ensures
            js(j) == series_js(self.values@, self.max_size),
    {
        let mut o = empty_object();
        put(&mut o, "values", Json::reals(&self.values));
        put(&mut o, "maxSize", Json::natural(self.max_size as u64));
        Json::Obj(o)
    }

    /// Reads a window from JSON.
    pub fn deserialize(json: &Json) -> (r: Result<Self, String>)
        ensures
            match series_of(js(*json)) {
                Ok((v, max)) => r is Ok && r->Ok_0.values@ == v && r->Ok_0.max_size == max,
                Err(e) => r is Err && r->Err_0@ == e,
            },
    {
        if json.as_object().is_none() {
            return Err(String::from_str("time-series window: expected JSON object"));
        }
        let max_size: usize = match json.get("maxSize") {
            Some(v) => match v.as_u64() {
                Some(n) => as_size(n),
                None => {
                    return Err(
                        String::from_str("time-series window: missing or invalid 'maxSize'"),
                    );
                },
            },
            None => {
                return Err(String::from_str("time-series window: missing or invalid 'maxSize'"));
            },
        };
        let list = match json.array_at("values") {
            Some(list) => list,
            None => {
                return Err(String::from_str("time-series window: missing or invalid 'values'"));
            },
        };
        let values = reals_in_list(list);
        let ghost all = jss(list@);
        let mut i: usize = 0;
        while i < list.len()
            invariant
                i <= list.len(),
                all == jss(list@),
                js(*json).array_at("values"@) == Some(all),
                js(*json).as_object() is Some,
                js(*json).get("maxSize"@) is Some,
                js(*json).get("maxSize"@)->Some_0.as_u64() is Some,
                forall|k: int| 0 <= k < i ==> (#[trigger] all[k]).as_real() is Some,
            decreases list.len() - i,
        {
            assert(all[i as int] == js(list@[i as int]));
            if list[i].as_real().is_none() {
                return Err(
                    String::from_str("time-series window: non-numeric entry in 'values'"),
                );
            }
            i = i + 1;
        }
        Ok(TimeSeriesWindow { values, max_size })
    }
}

/// A 64-bit number as a size.
#[verifier::truncate]
pub open spec fn size_of_u64(n: u64) -> usize {
    n as usize
}

/// A 64-bit number as a size.
pub fn as_size(n: u64) -> (r: usize)
    ensures
        r == size_of_u64(n),
{
    #[verifier::truncate]
    let r: usize = n as usize;
    r
}

pub open spec fn series_js(values: Seq<Real>, max_size: usize) -> Js {
    Js::Obj(
        no_fields().push(("values"@, reals_js(values))).push(
            ("maxSize"@, natural_js(max_size as u64)),
        ),
    )
}

/// The values and the capacity that JSON holds.
pub open spec fn series_of(j: Js) -> Result<(Seq<Real>, usize), Seq<char>> {
    if j.as_object() is None {
        Err("time-series window: expected JSON object"@)
    } else if j.get("maxSize"@) is None || j.get("maxSize"@)->Some_0.as_u64() is None {
        Err("time-series window: missing or invalid 'maxSize'"@)
    } else {
        match j.array_at("values"@) {
            None => Err("time-series window: missing or invalid 'values'"@),
            Some(a) => if forall|k: int| 0 <= k < a.len() ==> (#[trigger] a[k]).as_real() is Some {
                Ok((reals_of(a), size_of_u64(j.get("maxSize"@)->Some_0.as_u64()->Some_0)))
            } else {
                Err("time-series window: non-numeric entry in 'values'"@)
            },
        }
    }
}

/// A window of finite values that is written as JSON is read back unchanged.
pub proof fn series_round_trip(values: Seq<Real>, max_size: usize)
    requires
        forall|i: int| 0 <= i < values.len() ==> (#[trigger] values[i]).spec_is_finite(),
    ensures
        series_of(series_js(values, max_size)) == Ok::<(Seq<Real>, usize), Seq<char>>(
            (values, max_size),
        ),
{
    broadcast use field_behind;

    reveal_strlit("values");
    reveal_strlit("maxSize");
    reals_round_trip(values);
    let a = reals_js(values)->Arr_0;
    let j = series_js(values, max_size);
    assert(j.get("maxSize"@) == Some(natural_js(max_size as u64)));
    assert("values"@.len() == 6 && "maxSize"@.len() == 7);
    assert(j.get("values"@) == Some(reals_js(values)));
    assert(size_of_u64(max_size as u64) == max_size);
    assert forall|k: int| 0 <= k < a.len() implies (#[trigger] a[k]).as_real() is Some by {
        assert(values[k].spec_is_finite());
    }
}

// Contexts

/// The dimensions of the features together.
pub open spec fn total_dims(s: Seq<FeatureSpec>) -> nat
    decreases s.len(),
{
    if s.len() == 0 {
        0
    } else {
        total_dims(s.drop_last()) + s.last().feature_type.dims()
    }
}

proof fn total_dims_grow(s: Seq<FeatureSpec>, i: int)
    requires
        0 <= i <= s.len(),
    ensures
        total_dims(s.take(i)) <= total_dims(s),
    decreases s.len(),
{
    if i < s.len() {
        assert(s.drop_last().take(i) == s.take(i));
        total_dims_grow(s.drop_last(), i);
    } else {
        assert(s.take(i) == s);
    }
}

/// One at the place of the value, zero elsewhere, without the first place.
pub open spec fn one_hot(n: nat, at: int) -> Seq<Coord> {
    Seq::new(
        (n - 1) as nat,
        |i: int|
            Coord::Given(
                Real {
                    bits: if i + 1 == at {
                        ONE
                    } else {
                        0
                    },
                },
            ),
    )
}

/// A list of texts as debugging output shows it.
pub uninterp spec fn debug_texts(s: Seq<Seq<char>>) -> Seq<char>;

/// Formats a list of texts with `{:?}`.
#[verifier::external_body]
fn debug_list(v: &Vec<String>) -> (s: String)
    ensures
        s@ == debug_texts(texts(v@)),
{
    format!("{:?}", v)
}

/// Whether the ends of a range are too close to divide by their distance.
pub open spec fn flat(span: Real) -> bool {
    span.spec_abs().below(Real { bits: R_1EM12 })
}

fn is_flat(span: Real) -> (b: bool)
    ensures
        b == flat(span),
{
    span.abs().lt(Real { bits: R_1EM12 })
}

/// A number held between zero and one.
pub fn hold_unit(r: Real) -> (h: Real)
    ensures
        h == r.spec_clamp(Real { bits: 0 }, Real { bits: ONE }),
{
    r.clamp(Real { bits: 0 }, Real { bits: ONE })
}

/// Why a value cannot be encoded as a feature. `span` is the upper end of the
/// feature's range less the lower.
pub open spec fn encode_fault(spec: FeatureSpec, value: FeatureValue, span: Real) -> Option<
    Seq<Part>,
> {
    let name = spec.name@;
    match (spec.feature_type, value) {
        (FeatureType::Continuous { range }, FeatureValue::Number(_)) => match range {
            Some(r) => if flat(span) {
                Some(
                    seq![
                        Part::Text(of_feature(name, " has zero range ["@)),
                        Part::Number(r@[0]),
                        Part::Text(", "@),
                        Part::Number(r@[1]),
                        Part::Text("]"@),
                    ],
                )
            } else {
                None
            },
            None => None,
        },
        (FeatureType::Categorical { values }, FeatureValue::Category(c)) => if texts(
            values@,
        ).contains(c@) {
            None
        } else {
            Some(
                seq![
                    Part::Text(
                        of_feature(name, " got value '"@) + c@ + "', not in declared values "@
                            + debug_texts(texts(values@)),
                    ),
                ],
            )
        },
        (FeatureType::Cyclic { period }, FeatureValue::Number(_)) => if period.at_most(
            Real { bits: 0 },
        ) {
            Some(
                seq![
                    Part::Text(of_feature(name, " has non-positive period "@)),
                    Part::Number(period),
                    Part::Text(""@),
                ],
            )
        } else {
            None
        },
        (FeatureType::TimeSeries { .. }, _) => Some(
            seq![
                Part::Text(of_feature(name, " is a TimeSeries variant; use encode_with_windows"@)),
            ],
        ),
        (FeatureType::Categorical { .. }, FeatureValue::Number(_)) => Some(
            seq![Part::Text(of_feature(name, " expects category, got number"@))],
        ),
        (_, FeatureValue::Category(_)) => Some(
            seq![Part::Text(of_feature(name, " expects number, got category"@))],
        ),
    }
}

/// The place of a text in a list.
pub open spec fn place_in(s: Seq<Seq<char>>, c: Seq<char>, i: int) -> int
    decreases s.len() - i,
{
    if i >= s.len() || s[i] == c {
        i
    } else {
        place_in(s, c, i + 1)
    }
}

/// The coordinates of a value that fits its feature.
pub open spec fn encoded_value(spec: FeatureSpec, value: FeatureValue) -> Seq<Coord> {
    match (spec.feature_type, value) {
        (FeatureType::Continuous { range }, FeatureValue::Number(n)) => match range {
            Some(r) => seq![Coord::Scaled { n, min: r@[0], max: r@[1] }],
            None => seq![Coord::Given(n)],
        },
        (FeatureType::Categorical { values }, FeatureValue::Category(c)) => one_hot(
            values@.len(),
            place_in(texts(values@), c@, 0),
        ),
        (FeatureType::Cyclic { period }, FeatureValue::Number(n)) => seq![
            Coord::Sine { n, period },
            Coord::Cosine { n, period },
        ],
        _ => Seq::empty(),
    }
}

proof fn place_is_found(s: Seq<Seq<char>>, c: Seq<char>, i: int)
    requires
        0 <= i <= s.len(),
    ensures
        i <= place_in(s, c, i) <= s.len(),
        place_in(s, c, i) < s.len() <==> exists|k: int| i <= k < s.len() && s[k] == c,
        place_in(s, c, i) < s.len() ==> s[place_in(s, c, i)] == c,
    decreases s.len() - i,
{
    if i < s.len() && s[i] != c {
        place_is_found(s, c, i + 1);
    }
}

/// The place of a text in a list; its length where it is not there.
pub fn position_of(v: &Vec<String>, c: &str) -> (i: usize)
    ensures
        i == place_in(texts(v@), c@, 0),
        i <= v@.len(),
        i < v@.len() <==> texts(v@).contains(c@),
{
    let ghost all = texts(v@);
    let mut i: usize = 0;
    proof {
        place_is_found(all, c@, 0);
    }
    while i < v.len()
        invariant
            i <= v.len(),
            all == texts(v@),
            place_in(all, c@, 0) == place_in(all, c@, i as int),
            place_in(all, c@, 0) < all.len() <==> exists|k: int| 0 <= k < all.len() && all[k] == c@,
        decreases v.len() - i,
    {
        assert(all[i as int] == v@[i as int]@);
        if same(v[i].as_str(), c) {
            assert(all.contains(c@));
            return i;
        }
        i = i + 1;
    }
    i
}

fn push_one_hot(out: &mut Vec<Encoded>, n: usize, at: usize)
    requires
        n >= 1,
    ensures
        coords(final(out)@) == coords(old(out)@) + one_hot(n as nat, at as int),
{
    let ghost before = coords(out@);
    let ghost full = one_hot(n as nat, at as int);
    let mut i: usize = 1;
    assert(before + full.take(0) =~= before);
    while i < n
        invariant
            1 <= i <= n,
            full == one_hot(n as nat, at as int),
            coords(out@) == before + full.take(i - 1),
        decreases n - i,
    {
        let e = Encoded::Given(
            if i == at {
                Real::one()
            } else {
                Real::zero()
            },
        );
        proof {
            coords_push(out@, e);
            assert(full[i - 1] == coord(e));
            assert(full.take(i as int) =~= full.take(i - 1).push(full[i - 1]));
            assert((before + full.take(i - 1)).push(coord(e)) =~= before + full.take(i as int));
        }
        out.push(e);
        i = i + 1;
    }
    assert(full.take(n - 1) =~= full);
}

/// Adds the coordinates of a value. `span` is the upper end of the feature's
/// range less the lower.
pub fn encode_one(spec: &FeatureSpec, value: &FeatureValue, span: Real, out: &mut Vec<Encoded>) -> (r:
    Result<(), Vec<Piece>>)
    ensures
        match encode_fault(*spec, *value, span) {
            Some(m) => r is Err && message_parts(r->Err_0@) == m && final(out)@ == old(out)@,
            None => r is Ok && coords(final(out)@) == coords(old(out)@) + encoded_value(
                *spec,
                *value,
            ),
        },
{
    let name = spec.name.as_str();
    let ghost before = coords(out@);
    match (&spec.feature_type, value) {
        (FeatureType::Continuous { range }, FeatureValue::Number(n)) => {
            let e = match range {
                Some(r) => {
                    if is_flat(span) {
                        return Err(
                            told_numbers(
                                feature_text(name, " has zero range ["),
                                r[0],
                                ", ",
                                r[1],
                                "]",
                            ),
                        );
                    }
                    Encoded::Scaled { n: *n, min: r[0], max: r[1] }
                },
                None => Encoded::Given(*n),
            };
            proof {
                coords_push(out@, e);
                assert(before.push(coord(e)) =~= before + seq![coord(e)]);
            }
            out.push(e);
            Ok(())
        },
        (FeatureType::Categorical { values }, FeatureValue::Category(c)) => {
            let at: usize = position_of(values, c.as_str());
            if at >= values.len() {
                let a = feature_text(name, " got value '");
                return Err(
                    told(
                        cat4(
                            a.as_str(),
                            c.as_str(),
                            "', not in declared values ",
                            debug_list(values).as_str(),
                        ),
                    ),
                );
            }
            push_one_hot(out, values.len(), at);
            Ok(())
        },
        (FeatureType::Cyclic { period }, FeatureValue::Number(n)) => {
            if period.le(Real::zero()) {
                return Err(
                    told_number(feature_text(name, " has non-positive period "), *period, ""),
                );
            }
            let s = Encoded::Sine { n: *n, period: *period };
            let c = Encoded::Cosine { n: *n, period: *period };
            proof {
                coords_push(out@, s);
                coords_push(out@.push(s), c);
                assert(before.push(coord(s)).push(coord(c)) =~= before + seq![coord(s), coord(c)]);
            }
            out.push(s);
            out.push(c);
            Ok(())
        },
        (FeatureType::TimeSeries { .. }, _) => Err(
            told(feature_text(name, " is a TimeSeries variant; use encode_with_windows")),
        ),
        (FeatureType::Categorical { .. }, FeatureValue::Number(_)) => Err(
            told(feature_text(name, " expects category, got number")),
        ),
        (_, FeatureValue::Category(_)) => Err(
            told(feature_text(name, " expects number, got category")),
        ),
    }
}

/// The coordinates of one feature of a context, or why it has none.
pub open spec fn feature_coords(
    spec: FeatureSpec,
    span: Real,
    values: Map<Seq<char>, FeatureValue>,
    windows: Map<Seq<char>, TimeSeriesWindow>,
) -> Result<Seq<Coord>, Seq<Part>> {
    match spec.feature_type {
        FeatureType::TimeSeries { aggregations, .. } => Ok(
            aggregations@.map_values(
                |a: Aggregation|
                    if windows.contains_key(spec.name@) {
                        aggregated(windows[spec.name@].values@, a)
                    } else {
                        Coord::Given(Real { bits: 0 })
                    },
            ),
        ),
        _ => if !values.contains_key(spec.name@) {
            Err(seq![Part::Text("missing feature '"@ + spec.name@ + "'"@)])
        } else {
            match encode_fault(spec, values[spec.name@], span) {
                Some(m) => Err(m),
                None => Ok(encoded_value(spec, values[spec.name@])),
            }
        },
    }
}

/// The coordinates of the features in order, or the first fault among them.
pub open spec fn all_coords(
    s: Seq<FeatureSpec>,
    spans: Seq<Real>,
    values: Map<Seq<char>, FeatureValue>,
    windows: Map<Seq<char>, TimeSeriesWindow>,
) -> Result<Seq<Coord>, Seq<Part>>
    decreases s.len(),
{
    if s.len() == 0 {
        Ok(Seq::empty())
    } else {
        match all_coords(s.drop_last(), spans, values, windows) {
            Err(m) => Err(m),
            Ok(front) => match feature_coords(s.last(), spans[s.len() - 1], values, windows) {
                Err(m) => Err(m),
                Ok(c) => Ok(front + c),
            },
        }
    }
}

proof fn coords_fail(
    s: Seq<FeatureSpec>,
    i: int,
    spans: Seq<Real>,
    values: Map<Seq<char>, FeatureValue>,
    windows: Map<Seq<char>, TimeSeriesWindow>,
)
    requires
        0 <= i <= s.len(),
        all_coords(s.take(i), spans, values, windows) is Err,
    ensures
        all_coords(s, spans, values, windows) == all_coords(s.take(i), spans, values, windows),
    decreases s.len(),
{
    if i < s.len() {
        assert(s.drop_last().take(i) == s.take(i));
        coords_fail(s.drop_last(), i, spans, values, windows);
    } else {
        assert(s.take(i) == s);
    }
}

/// An encoded feature has the dimensions that it is said to have.
pub proof fn features_have_their_dimensions(
    s: Seq<FeatureSpec>,
    spans: Seq<Real>,
    values: Map<Seq<char>, FeatureValue>,
    windows: Map<Seq<char>, TimeSeriesWindow>,
)
    requires
        all_coords(s, spans, values, windows) is Ok,
    ensures
        all_coords(s, spans, values, windows)->Ok_0.len() == total_dims(s),
    decreases s.len(),
{
    if s.len() > 0 {
        features_have_their_dimensions(s.drop_last(), spans, values, windows);
        let f = s.last();
        match f.feature_type {
            FeatureType::Categorical { values: names } => {
                if texts(names@).len() == 0 {
                    assert(!texts(names@).contains(values[f.name@]->Category_0@));
                }
            },
            _ => {},
        }
    }
}

impl ContextSpec {
    /// The dimensions of the context: those of its features and one for the
    /// bias; none where it is a key.
    pub open spec fn dims(self) -> nat {
        match self {
            ContextSpec::Discrete => 0,
            ContextSpec::Features { features } => total_dims(features@) + 1,
        }
    }

    /// The dimensions of the encoded context.
    pub fn encoded_dimension(&self) -> (n: usize)
        requires
            self.dims() <= usize::MAX,
        ensures
            n == self.dims(),
    {
        match self {
            ContextSpec::Discrete => 0,
            ContextSpec::Features { features } => {
                let mut n: usize = 0;
                let mut i: usize = 0;
                assert(features@.take(0) == Seq::<FeatureSpec>::empty());
                while i < features.len()
                    invariant
                        i <= features.len(),
                        total_dims(features@) + 1 <= usize::MAX,
                        n == total_dims(features@.take(i as int)),
                    decreases features.len() - i,
                {
                    proof {
                        assert(features@.take(i + 1).drop_last() == features@.take(i as int));
                        total_dims_grow(features@, i + 1);
                    }
                    n = n + features[i].encoded_dimension();
                    i = i + 1;
                }
                assert(features@.take(i as int) == features@);
                n + 1
            },
        }
    }

    /// The coordinates of a context, or the first fault.
    pub open spec fn encoding(
        self,
        spans: Seq<Real>,
        values: Map<Seq<char>, FeatureValue>,
        windows: Map<Seq<char>, TimeSeriesWindow>,
    ) -> Result<Seq<Coord>, Seq<Part>> {
        match self {
            ContextSpec::Discrete => Ok(Seq::empty()),
            ContextSpec::Features { features } => match all_coords(
                features@,
                spans,
                values,
                windows,
            ) {
                Ok(c) => Ok(c.push(Coord::Given(Real { bits: ONE }))),
                Err(m) => Err(m),
            },
        }
    }

    /// Encodes values without windows: a time series gives zeros.
    pub fn encode(&self, spans: &Vec<Real>, values: &Table<FeatureValue>) -> (r: Result<
        Vec<Encoded>,
        Vec<Piece>,
    >)
        requires
            values.wf(),
            self matches ContextSpec::Features { features } ==> spans@.len() == features@.len(),
        ensures
            match self.encoding(spans@, values@, Map::empty()) {
                Ok(c) => r is Ok && coords(r->Ok_0@) == c,
                Err(m) => r is Err && message_parts(r->Err_0@) == m,
            },
    {
        let none: Table<TimeSeriesWindow> = Table::new();
        self.encode_with_windows(spans, values, &none)
    }

    /// Encodes values, with time series from their windows. `spans` holds for each
    /// feature with a range the upper end of it less the lower.
    pub fn encode_with_windows(
        &self,
        spans: &Vec<Real>,
        values: &Table<FeatureValue>,
        windows: &Table<TimeSeriesWindow>,
    ) -> (r: Result<Vec<Encoded>, Vec<Piece>>)
        requires
            values.wf(),
            windows.wf(),
            self matches ContextSpec::Features { features } ==> spans@.len() == features@.len(),
        ensures
            match self.encoding(spans@, values@, windows@) {
                Ok(c) => r is Ok && coords(r->Ok_0@) == c,
                Err(m) => r is Err && message_parts(r->Err_0@) == m,
            },
    {
        match self {
            ContextSpec::Discrete => {
                let none: Vec<Encoded> = Vec::new();
                assert(coords(none@) =~= Seq::<Coord>::empty());
                Ok(none)
            },
            ContextSpec::Features { features } => {
                let mut out: Vec<Encoded> = Vec::new();
                let mut i: usize = 0;
                proof {
                    assert(features@.take(0) == Seq::<FeatureSpec>::empty());
                    assert(coords(out@) =~= Seq::<Coord>::empty());
                }
                while i < features.len()
                    invariant
                        i <= features.len(),
                        spans@.len() == features@.len(),
                        values.wf(),
                        windows.wf(),
                        *self == (ContextSpec::Features { features: *features }),
                        all_coords(features@.take(i as int), spans@, values@, windows@) == Ok::<
                            Seq<Coord>,
                            Seq<Part>,
                        >(coords(out@)),
                    decreases features.len() - i,
                {
                    let ghost before = coords(out@);
                    assert(features@.take(i + 1).drop_last() == features@.take(i as int));
                    match push_feature(&features[i], spans[i], values, windows, &mut out) {
                        Ok(_) => {},
                        Err(m) => {
                            proof {
                                coords_fail(features@, i + 1, spans@, values@, windows@);
                            }
                            return Err(m);
                        },
                    }
                    i = i + 1;
                }
                assert(features@.take(i as int) == features@);
                let bias = Encoded::Given(Real::one());
                proof {
                    coords_push(out@, bias);
                }
                out.push(bias);
                Ok(out)
            },
        }
    }
}

fn push_feature(
    spec: &FeatureSpec,
    span: Real,
    values: &Table<FeatureValue>,
    windows: &Table<TimeSeriesWindow>,
    out: &mut Vec<Encoded>,
) -> (r: Result<(), Vec<Piece>>)
    requires
        values.wf(),
        windows.wf(),
    ensures
        match feature_coords(*spec, span, values@, windows@) {
            Ok(c) => r is Ok && coords(final(out)@) == coords(old(out)@) + c,
            Err(m) => r is Err && message_parts(r->Err_0@) == m,
        },
{
    match &spec.feature_type {
        FeatureType::TimeSeries { aggregations, .. } => {
            let ghost before = out@;
            let win = windows.get(spec.name.as_str());
            let ghost c = feature_coords(*spec, span, values@, windows@)->Ok_0;
            let mut i: usize = 0;
            assert(coords(before) + c.take(0) =~= coords(before));
            while i < aggregations.len()
                invariant
                    i <= aggregations.len(),
                    c.len() == aggregations@.len(),
                    match win {
                        Some(w) => forall|k: int|
                            0 <= k < c.len() ==> c[k] == aggregated(w.values@, aggregations@[k]),
                        None => forall|k: int|
                            0 <= k < c.len() ==> c[k] == Coord::Given(Real { bits: 0 }),
                    },
                    coords(out@) == coords(before) + c.take(i as int),
                decreases aggregations.len() - i,
            {
                let e = match win {
                    Some(w) => w.aggregate(aggregations[i]),
                    None => Encoded::Given(Real::zero()),
                };
                proof {
                    coords_push(out@, e);
                    assert(c.take(i + 1) =~= c.take(i as int).push(c[i as int]));
                    assert((coords(before) + c.take(i as int)).push(coord(e)) =~= coords(before)
                        + c.take(i + 1));
                }
                out.push(e);
                i = i + 1;
            }
            assert(c.take(i as int) =~= c);
            Ok(())
        },
        _ => match values.get(spec.name.as_str()) {
            Some(v) => encode_one(spec, v, span, out),
            None => Err(told(cat3("missing feature '", spec.name.as_str(), "'"))),
        },
    }
}

impl FeatureValue {
    /// A number or a category that JSON holds.
    pub open spec fn of_js(j: Js) -> Option<FeatureView> {
        match (j.as_real(), j.as_str()) {
            (Some(r), _) => Some(FeatureView::Number(r)),
            (None, Some(s)) => Some(FeatureView::Category(s)),
            (None, None) => None,
        }
    }

    pub open spec fn seen(self) -> FeatureView {
        match self {
            FeatureValue::Number(r) => FeatureView::Number(r),
            FeatureValue::Category(s) => FeatureView::Category(s@),
        }
    }

    /// Reads a number or a category from JSON.
    pub fn from_json(j: &Json) -> (r: Option<FeatureValue>)
        ensures
            match FeatureValue::of_js(js(*j)) {
                Some(v) => r is Some && r->Some_0.seen() == v,
                None => r is None,
            },
    {
        if let Some(r) = j.as_real() {
            return Some(FeatureValue::Number(r));
        }
        if let Some(s) = j.as_str() {
            return Some(FeatureValue::Category(String::from_str(s)));
        }
        None
    }
}

/// A value of a feature, with its text as a sequence.
pub enum FeatureView {
    Number(Real),
    Category(Seq<char>),
}

/// An encoded context has the dimensions that it is said to have, and the last is
/// always one.
pub proof fn encodings_end_with_one(
    c: ContextSpec,
    spans: Seq<Real>,
    values: Map<Seq<char>, FeatureValue>,
    windows: Map<Seq<char>, TimeSeriesWindow>,
)
    requires
        c.encoding(spans, values, windows) is Ok,
    ensures
        c.encoding(spans, values, windows)->Ok_0.len() == c.dims(),
        c is Features ==> c.encoding(spans, values, windows)->Ok_0.last() == Coord::Given(
            Real { bits: ONE },
        ),
{
    if let ContextSpec::Features { features } = c {
        features_have_their_dimensions(features@, spans, values, windows);
    }
}

} // verus!
