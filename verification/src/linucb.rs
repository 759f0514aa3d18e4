//! Linear models of rewards: their state, and what is checked of their features.
use crate::feature_schema::{copy_reals, lesser};
use crate::json::{Js, Json, js, jss, reals_in_list, reals_js, reals_of, reals_round_trip};
use crate::message::{Part, Piece, message_parts, t, told, told_number};
use crate::number::Real;
use crate::strings::{cat3, cat4, cat5};
use crate::text::{dec, u64_text};
use vstd::prelude::*;
use vstd::string::StringExecFns;

verus! {

/// The state of a linear model: a matrix, its inverse and a response vector.
#[derive(Debug)]
pub struct LinUcbState {
    pub a_inv: Vec<Vec<Real>>,
    pub b: Vec<Real>,
    pub d: usize,
    pub lambda: Real,
    pub since_last_rebuild: u64,
    pub a: Vec<Vec<Real>>,
}

/// A matrix with its rows as sequences.
pub open spec fn rows(m: Seq<Vec<Real>>) -> Seq<Seq<Real>> {
    m.map_values(|r: Vec<Real>| r@)
}

/// A model with its lists as sequences.
pub struct LinView {
    pub a_inv: Seq<Seq<Real>>,
    pub b: Seq<Real>,
    pub d: usize,
    pub lambda: Real,
    pub since_last_rebuild: u64,
    pub a: Seq<Seq<Real>>,
}

/// A matrix that is `x` on its diagonal and zero elsewhere.
pub open spec fn diagonal(d: nat, x: Real) -> Seq<Seq<Real>> {
    Seq::new(
        d,
        |i: int|
            Seq::new(
                d,
                |j: int|
                    if i == j {
                        x
                    } else {
                        Real { bits: 0 }
                    },
            ),
    )
}

fn diagonal_of(d: usize, x: Real) -> (m: Vec<Vec<Real>>)
    ensures
        rows(m@) == diagonal(d as nat, x),
{
    let mut m: Vec<Vec<Real>> = Vec::new();
    let mut i: usize = 0;
    while i < d
        invariant
            i <= d,
            m@.len() == i,
            forall|k: int| 0 <= k < i ==> (#[trigger] m@[k])@ == diagonal(d as nat, x)[k],
        decreases d - i,
    {
        let mut row: Vec<Real> = Vec::new();
        let mut j: usize = 0;
        while j < d
            invariant
                j <= d,
                i < d,
                row@.len() == j,
                forall|k: int| 0 <= k < j ==> row@[k] == diagonal(d as nat, x)[i as int][k],
            decreases d - j,
        {
            row.push(
                if i == j {
                    x
                } else {
                    Real::zero()
                },
            );
            j = j + 1;
        }
        assert(row@ =~= diagonal(d as nat, x)[i as int]);
        m.push(row);
        i = i + 1;
    }
    assert(rows(m@) =~= diagonal(d as nat, x));
    m
}

fn zeros(d: usize) -> (v: Vec<Real>)
    ensures
        v@ == Seq::new(d as nat, |i: int| Real { bits: 0 }),
{
    let mut v: Vec<Real> = Vec::new();
    let mut i: usize = 0;
    while i < d
        invariant
            i <= d,
            v@.len() == i,
            forall|k: int| 0 <= k < i ==> v@[k] == (Real { bits: 0 }),
        decreases d - i,
    {
        v.push(Real::zero());
        i = i + 1;
    }
    assert(v@ =~= Seq::new(d as nat, |i: int| Real { bits: 0 }));
    v
}

/// A model that has seen nothing; `inverse` is one over lambda.
pub open spec fn fresh_model(d: usize, lambda: Real, inverse: Real) -> LinView {
    LinView {
        a_inv: diagonal(d as nat, inverse),
        b: Seq::new(d as nat, |i: int| Real { bits: 0 }),
        d,
        lambda,
        since_last_rebuild: 0,
        a: diagonal(d as nat, lambda),
    }
}

impl LinUcbState {
    pub open spec fn seen(self) -> LinView {
        LinView {
            a_inv: rows(self.a_inv@),
            b: self.b@,
            d: self.d,
            lambda: self.lambda,
            since_last_rebuild: self.since_last_rebuild,
            a: rows(self.a@),
        }
    }

    /// A model that has seen nothing. `inverse` is one over lambda.
    pub fn new(d: usize, lambda: Real, inverse: Real) -> (s: Self)
        ensures
            s.seen() == fresh_model(d, lambda, inverse),
    {
        LinUcbState {
            a_inv: diagonal_of(d, inverse),
            b: zeros(d),
            d,
            lambda,
            since_last_rebuild: 0,
            a: diagonal_of(d, lambda),
        }
    }

    /// Takes the matrix, the inverse and the response after an observation, and
    /// counts the update.
    pub fn update(&mut self, a: Vec<Vec<Real>>, a_inv: Vec<Vec<Real>>, b: Vec<Real>)
        requires
            old(self).since_last_rebuild < u64::MAX,
        ensures
            final(self).seen() == (LinView {
                a: rows(a@),
                a_inv: rows(a_inv@),
                b: b@,
                since_last_rebuild: (old(self).since_last_rebuild + 1) as u64,
                ..old(self).seen()
            }),
    {
        self.a = a;
        self.a_inv = a_inv;
        self.b = b;
        self.since_last_rebuild = self.since_last_rebuild + 1;
    }

    /// Whether the inverse is due to be computed anew.
    pub fn rebuild_due(&self, threshold: u64) -> (b: bool)
        ensures
            b == (self.since_last_rebuild >= threshold),
    {
        self.since_last_rebuild >= threshold
    }

    /// Takes a new inverse, where there is one, and counts updates from zero.
    pub fn rebuild_inverse(&mut self, inverse: Option<Vec<Vec<Real>>>)
        ensures
            final(self).seen() == (LinView {
                a_inv: match inverse {
                    Some(m) => rows(m@),
                    None => old(self).seen().a_inv,
                },
                since_last_rebuild: 0,
                ..old(self).seen()
            }),
    {
        if let Some(m) = inverse {
            self.a_inv = m;
        }
        self.since_last_rebuild = 0;
    }
}

/// The state of a linear model over the features of contexts and options
/// together.
#[derive(Debug)]
pub struct LinUcbSharedState {
    pub a: Vec<Vec<Real>>,
    pub a_inv: Vec<Vec<Real>>,
    pub b: Vec<Real>,
    /// The dimensions of contexts and options together.
    pub d_total: usize,
    pub lambda: Real,
    pub since_last_rebuild: u64,
}

impl LinUcbSharedState {
    pub open spec fn seen(self) -> LinView {
        LinView {
            a_inv: rows(self.a_inv@),
            b: self.b@,
            d: self.d_total,
            lambda: self.lambda,
            since_last_rebuild: self.since_last_rebuild,
            a: rows(self.a@),
        }
    }

    /// A model that has seen nothing. `inverse` is one over lambda.
    pub fn new(d_total: usize, lambda: Real, inverse: Real) -> (s: Self)
        ensures
            s.seen() == fresh_model(d_total, lambda, inverse),
    {
        LinUcbSharedState {
            a: diagonal_of(d_total, lambda),
            a_inv: diagonal_of(d_total, inverse),
            b: zeros(d_total),
            d_total,
            lambda,
            since_last_rebuild: 0,
        }
    }

    /// Takes the matrix, the inverse and the response after an observation, and
    /// counts the update.
    pub fn shared_update(&mut self, a: Vec<Vec<Real>>, a_inv: Vec<Vec<Real>>, b: Vec<Real>)
        requires
            old(self).since_last_rebuild < u64::MAX,
        ensures
            final(self).seen() == (LinView {
                a: rows(a@),
                a_inv: rows(a_inv@),
                b: b@,
                since_last_rebuild: (old(self).since_last_rebuild + 1) as u64,
                ..old(self).seen()
            }),
    {
        self.a = a;
        self.a_inv = a_inv;
        self.b = b;
        self.since_last_rebuild = self.since_last_rebuild + 1;
    }

    /// Takes a new inverse, where there is one, and counts updates from zero.
    pub fn shared_rebuild_inverse(&mut self, inverse: Option<Vec<Vec<Real>>>)
        ensures
            final(self).seen() == (LinView {
                a_inv: match inverse {
                    Some(m) => rows(m@),
                    None => old(self).seen().a_inv,
                },
                since_last_rebuild: 0,
                ..old(self).seen()
            }),
    {
        if let Some(m) = inverse {
            self.a_inv = m;
        }
        self.since_last_rebuild = 0;
    }

    /// Whether the inverse is due to be computed anew.
    pub fn shared_rebuild_due(&self, threshold: u64) -> (b: bool)
        ensures
            b == (self.since_last_rebuild >= threshold),
    {
        self.since_last_rebuild >= threshold
    }
}

/// What a score comes to: the mean and the bonus held to its cap, or the mean
/// alone, or zero, where the sum is not finite. The flag says that something was
/// held back.
pub open spec fn guarded_score(mean: Real, bonus: Real, cap: Real, sum: Real) -> (Real, bool) {
    if !sum.spec_is_finite() {
        (
            if mean.spec_is_finite() {
                mean
            } else {
                Real { bits: 0 }
            },
            true,
        )
    } else {
        (sum, lesser(bonus, cap).below(bonus))
    }
}

/// The bonus that is added to the mean: no more than its cap.
pub fn capped_bonus(bonus: Real, cap: Real) -> (r: Real)
    ensures
        r == lesser(bonus, cap),
{
    if bonus.is_nan() || cap.lt(bonus) {
        cap
    } else {
        bonus
    }
}

/// What a score comes to, given the mean, the bonus, its cap, and the mean and
/// the capped bonus together.
pub fn finish_score(mean: Real, bonus: Real, cap: Real, sum: Real) -> (r: (Real, bool))
    ensures
        r == guarded_score(mean, bonus, cap, sum),
        r.0.spec_is_finite(),
{
    if !sum.is_finite() {
        return (
            if mean.is_finite() {
                mean
            } else {
                Real::zero()
            },
            true,
        );
    }
    (sum, capped_bonus(bonus, cap).lt(bonus))
}

/// The features of a context and an option, one behind the other.
pub fn concat_features(x_context: &Vec<Real>, x_option: &Vec<Real>) -> (v: Vec<Real>)
    ensures
        v@ == x_context@ + x_option@,
{
    let mut v = copy_reals(x_context);
    let mut w = copy_reals(x_option);
    v.append(&mut w);
    v
}

/// The first place of a number that is not finite.
pub open spec fn first_wild(s: Seq<Real>, i: int) -> int
    decreases s.len() - i,
{
    if i >= s.len() || !s[i].spec_is_finite() {
        i
    } else {
        first_wild(s, i + 1)
    }
}

fn find_wild(v: &Vec<Real>) -> (i: usize)
    ensures
        i == first_wild(v@, 0),
        i <= v@.len(),
{
    let mut i: usize = 0;
    while i < v.len()
        invariant
            i <= v.len(),
            first_wild(v@, 0) == first_wild(v@, i as int),
        decreases v.len() - i,
    {
        if !v[i].is_finite() {
            return i;
        }
        i = i + 1;
    }
    i
}

pub open spec fn wrong_length(what: Seq<char>, got: int, expected: int) -> Seq<Part> {
    t(
        what + " feature vector length "@ + dec(got) + " does not match expected "@ + dec(
            expected,
        ),
    )
}

pub open spec fn wild_feature(what: Seq<char>, i: int, x: Real) -> Seq<Part> {
    seq![
        Part::Text(what + " feature["@ + dec(i) + "] is non-finite: "@),
        Part::Number(x),
        Part::Text(""@),
    ]
}

/// What is wrong with the features of a context and an option.
pub open spec fn features_fault(
    x: Seq<Real>,
    y: Seq<Real>,
    d_context: int,
    d_option: int,
) -> Option<Seq<Part>> {
    if x.len() != d_context {
        Some(wrong_length("context"@, x.len() as int, d_context))
    } else if y.len() != d_option {
        Some(wrong_length("option"@, y.len() as int, d_option))
    } else if first_wild(x, 0) < x.len() {
        Some(wild_feature("context"@, first_wild(x, 0), x[first_wild(x, 0)]))
    } else if first_wild(y, 0) < y.len() {
        Some(wild_feature("option"@, first_wild(y, 0), y[first_wild(y, 0)]))
    } else {
        None
    }
}

fn length_error(what: &str, got: usize, expected: usize) -> (m: Vec<Piece>)
    ensures
        message_parts(m@) == wrong_length(what@, got as int, expected as int),
{
    told(
        cat5(
            what,
            " feature vector length ",
            u64_text(got as u64).as_str(),
            " does not match expected ",
            u64_text(expected as u64).as_str(),
        ),
    )
}

fn wild_error(what: &str, i: usize, x: Real) -> (m: Vec<Piece>)
    ensures
        message_parts(m@) == wild_feature(what@, i as int, x),
{
    told_number(
        cat4(what, " feature[", u64_text(i as u64).as_str(), "] is non-finite: "),
        x,
        "",
    )
}

/// Checks the features of a context and an option.
pub fn validate_shared_features(
    x_context: &Vec<Real>,
    x_option: &Vec<Real>,
    expected_d_context: usize,
    expected_d_option: usize,
) -> (r: Result<(), Vec<Piece>>)
    ensures
        match features_fault(
            x_context@,
            x_option@,
            expected_d_context as int,
            expected_d_option as int,
        ) {
            Some(m) => r is Err && message_parts(r->Err_0@) == m,
            None => r is Ok,
        },
{
    if x_context.len() != expected_d_context {
        return Err(length_error("context", x_context.len(), expected_d_context));
    }
    if x_option.len() != expected_d_option {
        return Err(length_error("option", x_option.len(), expected_d_option));
    }
    let i: usize = find_wild(x_context);
    if i < x_context.len() {
        return Err(wild_error("context", i, x_context[i]));
    }
    let j: usize = find_wild(x_option);
    if j < x_option.len() {
        return Err(wild_error("option", j, x_option[j]));
    }
    Ok(())
}

/// What is wrong with a feature vector.
pub open spec fn vector_fault(x: Seq<Real>, d: int) -> Option<Seq<Part>> {
    if x.len() != d {
        Some(
            t(
                "feature vector length "@ + dec(x.len() as int) + " does not match expected "@
                    + dec(d),
            ),
        )
    } else if first_wild(x, 0) < x.len() {
        Some(
            seq![
                Part::Text("feature["@ + dec(first_wild(x, 0)) + "] is non-finite: "@),
                Part::Number(x[first_wild(x, 0)]),
                Part::Text(""@),
            ],
        )
    } else {
        None
    }
}

/// Checks a feature vector.
pub fn validate_features(x: &Vec<Real>, expected_d: usize) -> (r: Result<(), Vec<Piece>>)
    ensures
        match vector_fault(x@, expected_d as int) {
            Some(m) => r is Err && message_parts(r->Err_0@) == m,
            None => r is Ok,
        },
{
    if x.len() != expected_d {
        return Err(
            told(
                cat4(
                    "feature vector length ",
                    u64_text(x.len() as u64).as_str(),
                    " does not match expected ",
                    u64_text(expected_d as u64).as_str(),
                ),
            ),
        );
    }
    let i: usize = find_wild(x);
    if i < x.len() {
        return Err(
            told_number(
                cat3("feature[", u64_text(i as u64).as_str(), "] is non-finite: "),
                x[i],
                "",
            ),
        );
    }
    Ok(())
}

// JSON

/// All items as numbers; nothing where one is none.
pub open spec fn strict_reals(s: Seq<Js>) -> Option<Seq<Real>> {
    if forall|i: int| 0 <= i < s.len() ==> (#[trigger] s[i]).as_real() is Some {
        Some(reals_of(s))
    } else {
        None
    }
}

/// Reads a list all of whose items must be numbers.
pub fn read_strict_reals(a: &Vec<Json>) -> (r: Option<Vec<Real>>)
    ensures
        match strict_reals(jss(a@)) {
            Some(v) => r is Some && r->Some_0@ == v,
            None => r is None,
        },
{
    let ghost all = jss(a@);
    let mut i: usize = 0;
    while i < a.len()
        invariant
            i <= a.len(),
            all == jss(a@),
            forall|k: int| 0 <= k < i ==> (#[trigger] all[k]).as_real() is Some,
        decreases a.len() - i,
    {
        assert(all[i as int] == js(a@[i as int]));
        if a[i].as_real().is_none() {
            assert(!(all[i as int].as_real() is Some));
            return None;
        }
        i = i + 1;
    }
    Some(reals_in_list(a))
}

/// A list of lists of numbers.
pub open spec fn matrix_of(s: Seq<Js>) -> Option<Seq<Seq<Real>>>
    decreases s.len(),
{
    if s.len() == 0 {
        Some(Seq::empty())
    } else {
        match (matrix_of(s.drop_last()), s.last().as_array()) {
            (Some(m), Some(a)) => match strict_reals(a) {
                Some(r) => Some(m.push(r)),
                None => None,
            },
            _ => None,
        }
    }
}

proof fn matrix_fails(s: Seq<Js>, i: int)
    requires
        0 <= i <= s.len(),
        matrix_of(s.take(i)) is None,
    ensures
        matrix_of(s) is None,
    decreases s.len(),
{
    if i < s.len() {
        assert(s.drop_last().take(i) == s.take(i));
        matrix_fails(s.drop_last(), i);
    } else {
        assert(s.take(i) == s);
    }
}

/// Reads a list of lists of numbers.
pub fn read_matrix(a: &Vec<Json>) -> (r: Option<Vec<Vec<Real>>>)
    ensures
        match matrix_of(jss(a@)) {
            Some(m) => r is Some && rows(r->Some_0@) == m,
            None => r is None,
        },
{
    let ghost all = jss(a@);
    let mut m: Vec<Vec<Real>> = Vec::new();
    let mut i: usize = 0;
    proof {
        assert(all.take(0) == Seq::<Js>::empty());
        assert(rows(m@) =~= Seq::<Seq<Real>>::empty());
    }
    while i < a.len()
        invariant
            i <= a.len(),
            all == jss(a@),
            matrix_of(all.take(i as int)) == Some(rows(m@)),
        decreases a.len() - i,
    {
        let ghost before = m@;
        assert(all.take(i + 1).drop_last() == all.take(i as int));
        assert(all.take(i + 1).last() == js(a@[i as int]));
        let row = match a[i].as_array() {
            Some(items) => read_strict_reals(items),
            None => None,
        };
        match row {
            Some(v) => {
                m.push(v);
                assert(rows(m@) =~= rows(before).push(v@));
            },
            None => {
                proof {
                    matrix_fails(all, i + 1);
                }
                return None;
            },
        }
        i = i + 1;
    }
    assert(all.take(i as int) == all);
    Some(m)
}

pub open spec fn matrix_js(m: Seq<Seq<Real>>) -> Seq<Js> {
    m.map_values(|r: Seq<Real>| reals_js(r))
}

/// A matrix as JSON.
pub fn matrix_json(m: &Vec<Vec<Real>>) -> (j: Json)
    ensures
        js(j) == Js::Arr(matrix_js(rows(m@))),
{
    let mut a: Vec<Json> = Vec::new();
    let mut i: usize = 0;
    while i < m.len()
        invariant
            i <= m.len(),
            a@.len() == i,
            forall|k: int| 0 <= k < i ==> js(#[trigger] a@[k]) == reals_js(m@[k]@),
        decreases m.len() - i,
    {
        a.push(Json::reals(&m[i]));
        i = i + 1;
    }
    assert(jss(a@) =~= matrix_js(rows(m@)));
    Json::Arr(a)
}

pub open spec fn finite_matrix(m: Seq<Seq<Real>>) -> bool {
    forall|i: int| 0 <= i < m.len() ==> finite_row(#[trigger] m[i])
}

pub open spec fn finite_row(r: Seq<Real>) -> bool {
    forall|i: int| 0 <= i < r.len() ==> (#[trigger] r[i]).spec_is_finite()
}

/// A list of finite numbers that is written as JSON is read back unchanged.
pub proof fn row_round_trip(r: Seq<Real>)
    requires
        finite_row(r),
    ensures
        strict_reals(reals_js(r)->Arr_0) == Some(r),
{
    reals_round_trip(r);
    let a = reals_js(r)->Arr_0;
    assert forall|i: int| 0 <= i < a.len() implies (#[trigger] a[i]).as_real() is Some by {
        assert(r[i].spec_is_finite());
    }
}

/// A finite matrix that is written as JSON is read back unchanged.
pub proof fn matrix_round_trip(m: Seq<Seq<Real>>)
    requires
        finite_matrix(m),
    ensures
        matrix_of(matrix_js(m)) == Some(m),
    decreases m.len(),
{
    if m.len() > 0 {
        let front = m.drop_last();
        assert forall|i: int| 0 <= i < front.len() implies finite_row(#[trigger] front[i]) by {
            assert(front[i] == m[i]);
        }
        matrix_round_trip(front);
        assert(finite_row(m[m.len() - 1]));
        row_round_trip(m.last());
        assert(matrix_js(m).drop_last() =~= matrix_js(front));
        assert(front.push(m.last()) =~= m);
    } else {
        assert(m =~= Seq::<Seq<Real>>::empty());
    }
}

} // verus!
