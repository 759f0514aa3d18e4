//! How votes, times and rewards move the weights of a decision.
//!
//! The host computes sums, differences and quotients; what is compared, held
//! within its limits or left alone is decided here.

use crate::cap_calls::{sort_values, sorted_values};
use crate::conformal::sorted_length;
use crate::evolution_loop::GREATEST;
use crate::feature_schema::lesser;
use crate::number::{Real, clamp_is_bounded, real_of_int};
use crate::parse::{trim, trimmed};
use crate::real_constants::R_0_02;
use crate::run_model::{WEIGHT_CEILING, WEIGHT_FLOOR};
use crate::strings::{parts, split_char};
use crate::values::texts;
use vstd::prelude::*;

verus! {

/// The parts of a text between commas, without the white space around them.
pub open spec fn comma_parts(s: Seq<char>) -> Seq<Seq<char>> {
    parts(s, ',').map_values(|p: Seq<char>| trimmed(p))
}

/// The parts of a text between commas, without the white space around them.
pub fn split_commas(s: &str) -> (r: Vec<String>)
    ensures
        texts(r@) == comma_parts(s@),
{
    let all = split_char(s, ',');
    let mut r: Vec<String> = Vec::new();
    let mut i: usize = 0;
    while i < all.len()
        invariant
            i <= all.len(),
            r@.len() == i,
            texts(all@) == parts(s@, ','),
            forall|k: int| 0 <= k < i ==> r@[k]@ == trimmed(#[trigger] all@[k]@),
        decreases all.len() - i,
    {
        r.push(trim(all[i].as_str()));
        i = i + 1;
    }
    assert(texts(r@) =~= comma_parts(s@)) by {
        assert forall|k: int| 0 <= k < r@.len() implies texts(r@)[k] == comma_parts(s@)[k] by {
            assert(texts(all@)[k] == all@[k]@);
        }
    }
    r
}

/// The value in the middle of the values in growing order; zero where there are
/// none.
pub open spec fn median(s: Seq<Real>) -> Real {
    if s.len() == 0 {
        Real { bits: 0 }
    } else {
        sorted_values(s)[s.len() as int / 2]
    }
}

/// The median of the values.
pub fn median_of(v: &Vec<Real>) -> (r: Real)
    ensures
        r == median(v@),
{
    if v.len() == 0 {
        return Real::zero();
    }
    let all = sort_values(v);
    proof {
        sorted_length(v@);
    }
    all[v.len() / 2]
}

/// Which distances lie within the tolerance.
pub open spec fn within(distances: Seq<Real>, tol: Real) -> Seq<bool> {
    distances.map_values(|d: Real| d.at_most(tol))
}

/// Which distances lie within the tolerance.
pub fn within_each(distances: &Vec<Real>, tol: Real) -> (r: Vec<bool>)
    ensures
        r@ == within(distances@, tol),
{
    let mut r: Vec<bool> = Vec::new();
    let mut i: usize = 0;
    while i < distances.len()
        invariant
            i <= distances.len(),
            r@.len() == i,
            forall|k: int| 0 <= k < i ==> r@[k] == distances@[k].at_most(tol),
        decreases distances.len() - i,
    {
        r.push(distances[i].le(tol));
        i = i + 1;
    }
    assert(r@ =~= within(distances@, tol));
    r
}

/// The least time among the options that agree, if any does.
pub open spec fn least_time(times: Seq<u128>, agreed: Seq<bool>) -> Option<u128>
    decreases times.len(),
{
    if times.len() == 0 {
        None
    } else {
        let i = times.len() - 1;
        let lowest = least_time(times.drop_last(), agreed);
        if i < agreed.len() && agreed[i] && (lowest is None || times[i] < lowest->0) {
            Some(times[i])
        } else {
            lowest
        }
    }
}

/// The greatest time, if there is any.
pub open spec fn greatest_time(times: Seq<u128>) -> Option<u128>
    decreases times.len(),
{
    if times.len() == 0 {
        None
    } else {
        let most = greatest_time(times.drop_last());
        if most is None || times.last() > most->0 {
            Some(times.last())
        } else {
            most
        }
    }
}

/// The time of the fastest option that agrees; zero where none does.
pub open spec fn fastest(times: Seq<u128>, agreed: Seq<bool>) -> Real {
    real_of_int(
        match least_time(times, agreed) {
            Some(t) => t as int,
            None => 0,
        },
    )
}

/// The time of the slowest option; one where there is none.
pub open spec fn slowest(times: Seq<u128>) -> Real {
    real_of_int(
        match greatest_time(times) {
            Some(t) => t as int,
            None => 1,
        },
    )
}

/// The time of the fastest option that agrees.
pub fn fastest_of(times: &Vec<u128>, agreed: &Vec<bool>) -> (r: Real)
    ensures
        r == fastest(times@, agreed@),
{
    let mut lowest: Option<u128> = None;
    let mut i: usize = 0;
    while i < times.len()
        invariant
            i <= times.len(),
            lowest == least_time(times@.take(i as int), agreed@),
        decreases times.len() - i,
    {
        assert(times@.take(i + 1).drop_last() == times@.take(i as int));
        let better = match lowest {
            None => true,
            Some(t) => times[i] < t,
        };
        if i < agreed.len() && agreed[i] && better {
            lowest = Some(times[i]);
        }
        i = i + 1;
    }
    assert(times@.take(i as int) == times@);
    match lowest {
        Some(t) => Real::of_u128(t),
        None => Real::of_u128(0),
    }
}

/// The time of the slowest option.
pub fn slowest_of(times: &Vec<u128>) -> (r: Real)
    ensures
        r == slowest(times@),
{
    let mut most: Option<u128> = None;
    let mut i: usize = 0;
    while i < times.len()
        invariant
            i <= times.len(),
            most == greatest_time(times@.take(i as int)),
        decreases times.len() - i,
    {
        assert(times@.take(i + 1).drop_last() == times@.take(i as int));
        let better = match most {
            None => true,
            Some(t) => times[i] > t,
        };
        if better {
            most = Some(times[i]);
        }
        i = i + 1;
    }
    assert(times@.take(i as int) == times@);
    match most {
        Some(t) => Real::of_u128(t),
        None => Real::of_u128(1),
    }
}

/// The first `n` times as numbers.
pub open spec fn time_reals(times: Seq<u128>, n: int) -> Seq<Real> {
    Seq::new(n as nat, |i: int| real_of_int(times[i] as int))
}

/// The first `n` times as numbers.
pub fn times_as_reals(times: &Vec<u128>, n: usize) -> (r: Vec<Real>)
    requires
        n <= times@.len(),
    ensures
        r@ == time_reals(times@, n as int),
{
    let mut r: Vec<Real> = Vec::new();
    let mut i: usize = 0;
    while i < n
        invariant
            i <= n <= times.len(),
            r@.len() == i,
            forall|k: int| 0 <= k < i ==> r@[k] == real_of_int(times@[k] as int),
        decreases n - i,
    {
        r.push(Real::of_u128(times[i]));
        i = i + 1;
    }
    assert(r@ =~= time_reals(times@, n as int));
    r
}

/// The least of some average times, the greatest finite number where there are
/// none.
pub open spec fn least_average(s: Seq<Real>) -> Real
    decreases s.len(),
{
    if s.len() == 0 {
        Real { bits: GREATEST }
    } else {
        lesser(least_average(s.drop_last()), s.last())
    }
}

/// The greatest of some average times, and zero at least.
pub open spec fn greatest_average(s: Seq<Real>) -> Real
    decreases s.len(),
{
    if s.len() == 0 {
        Real { bits: 0 }
    } else {
        greatest_average(s.drop_last()).spec_max(s.last())
    }
}

/// The least and the greatest of some average times.
pub fn average_bounds(v: &Vec<Real>) -> (r: (Real, Real))
    ensures
        r.0 == least_average(v@),
        r.1 == greatest_average(v@),
{
    let mut lowest = Real { bits: GREATEST };
    let mut most = Real { bits: 0 };
    let mut i: usize = 0;
    while i < v.len()
        invariant
            i <= v.len(),
            lowest == least_average(v@.take(i as int)),
            most == greatest_average(v@.take(i as int)),
        decreases v.len() - i,
    {
        assert(v@.take(i + 1).drop_last() == v@.take(i as int));
        if lowest.is_nan() || v[i].lt(lowest) {
            lowest = v[i];
        }
        most = most.max(v[i]);
        i = i + 1;
    }
    assert(v@.take(i as int) == v@);
    (lowest, most)
}

/// Whether a number is above zero.
pub open spec fn positive(r: Real) -> bool {
    (Real { bits: 0 }).below(r)
}

/// Whether a number is above zero.
pub fn is_positive(r: Real) -> (b: bool)
    ensures
        b == positive(r),
{
    Real::zero().lt(r)
}

/// A weight within its limits.
pub open spec fn held(w: Real) -> Real {
    w.spec_clamp(Real { bits: WEIGHT_FLOOR }, Real { bits: WEIGHT_CEILING })
}

/// Holds a weight within its limits.
pub fn hold(w: Real) -> (r: Real)
    ensures
        r == held(w),
{
    w.clamp(Real { bits: WEIGHT_FLOOR }, Real { bits: WEIGHT_CEILING })
}

/// The weights after a vote in which the first `n` take part: an option that does
/// not agree is lowered; where the times differ, the others move by their times.
pub open spec fn voted_weights(
    w: Seq<Real>,
    n: int,
    agreed: Seq<bool>,
    range: Real,
    raised: Seq<Real>,
    lowered: Seq<Real>,
) -> Seq<Real> {
    Seq::new(
        w.len(),
        |i: int|
            if i >= n {
                w[i]
            } else if i < agreed.len() && !agreed[i] {
                held(lowered[i])
            } else if positive(range) {
                held(raised[i])
            } else {
                w[i]
            },
    )
}

/// The weights after a vote.
pub fn weigh_vote(
    w: &Vec<Real>,
    n: usize,
    agreed: &Vec<bool>,
    range: Real,
    raised: &Vec<Real>,
    lowered: &Vec<Real>,
) -> (r: Vec<Real>)
    requires
        n <= w@.len(),
        lowered@.len() == n,
        positive(range) ==> raised@.len() == n,
    ensures
        r@ == voted_weights(w@, n as int, agreed@, range, raised@, lowered@),
{
    let differ = is_positive(range);
    let mut r: Vec<Real> = Vec::new();
    let mut i: usize = 0;
    while i < w.len()
        invariant
            i <= w.len(),
            r@.len() == i,
            n <= w@.len(),
            lowered@.len() == n,
            differ ==> raised@.len() == n,
            differ == positive(range),
            forall|k: int|
                0 <= k < i ==> r@[k] == voted_weights(
                    w@,
                    n as int,
                    agreed@,
                    range,
                    raised@,
                    lowered@,
                )[k],
        decreases w.len() - i,
    {
        if i >= n {
            r.push(w[i]);
        } else if i < agreed.len() && !agreed[i] {
            r.push(hold(lowered[i]));
        } else if differ {
            r.push(hold(raised[i]));
        } else {
            r.push(w[i]);
        }
        i = i + 1;
    }
    assert(r@ =~= voted_weights(w@, n as int, agreed@, range, raised@, lowered@));
    r
}

/// The weights moved by the average times of their options.
pub open spec fn timed_weights(w: Seq<Real>, raised: Seq<Real>) -> Seq<Real> {
    Seq::new(
        w.len(),
        |i: int|
            if i < raised.len() {
                held(raised[i])
            } else {
                w[i]
            },
    )
}

/// The weights moved by the average times of their options.
pub fn weigh_times(w: &Vec<Real>, raised: &Vec<Real>) -> (r: Vec<Real>)
    ensures
        r@ == timed_weights(w@, raised@),
{
    let mut r: Vec<Real> = Vec::new();
    let mut i: usize = 0;
    while i < w.len()
        invariant
            i <= w.len(),
            r@.len() == i,
            forall|k: int| 0 <= k < i ==> r@[k] == timed_weights(w@, raised@)[k],
        decreases w.len() - i,
    {
        if i < raised.len() {
            r.push(hold(raised[i]));
        } else {
            r.push(w[i]);
        }
        i = i + 1;
    }
    assert(r@ =~= timed_weights(w@, raised@));
    r
}

/// The weights after a reward for the option at `at`: it is raised, the others
/// are lowered.
pub open spec fn rewarded_weights(
    w: Seq<Real>,
    at: int,
    raised: Seq<Real>,
    lowered: Seq<Real>,
) -> Seq<Real> {
    Seq::new(
        w.len(),
        |i: int|
            held(
                if i == at {
                    raised[i]
                } else {
                    lowered[i]
                },
            ),
    )
}

/// The weights after a reward for an option.
pub fn weigh_reward(w: &Vec<Real>, at: usize, raised: &Vec<Real>, lowered: &Vec<Real>) -> (r: Vec<
    Real,
>)
    requires
        raised@.len() == w@.len(),
        lowered@.len() == w@.len(),
    ensures
        r@ == rewarded_weights(w@, at as int, raised@, lowered@),
{
    let mut r: Vec<Real> = Vec::new();
    let mut i: usize = 0;
    while i < w.len()
        invariant
            i <= w.len(),
            r@.len() == i,
            raised@.len() == w@.len(),
            lowered@.len() == w@.len(),
            forall|k: int|
                0 <= k < i ==> r@[k] == rewarded_weights(w@, at as int, raised@, lowered@)[k],
        decreases w.len() - i,
    {
        if i == at {
            r.push(hold(raised[i]));
        } else {
            r.push(hold(lowered[i]));
        }
        i = i + 1;
    }
    assert(r@ =~= rewarded_weights(w@, at as int, raised@, lowered@));
    r
}

/// The weights with the first ones divided by their sum, where that is above
/// zero: `shares` are the quotients.
pub open spec fn scaled_weights(w: Seq<Real>, sum: Real, shares: Seq<Real>) -> Seq<Real> {
    if positive(sum) {
        shares + w.skip(shares.len() as int)
    } else {
        w
    }
}

/// The weights with the first ones divided by their sum.
pub fn scale_weights(w: Vec<Real>, sum: Real, shares: Vec<Real>) -> (r: Vec<Real>)
    requires
        shares@.len() <= w@.len(),
    ensures
        r@ == scaled_weights(w@, sum, shares@),
{
    if !is_positive(sum) {
        return w;
    }
    let ghost front = shares@;
    let mut r = shares;
    let n: usize = r.len();
    let mut i: usize = n;
    while i < w.len()
        invariant
            n <= i <= w.len(),
            n == front.len(),
            r@ == front + w@.subrange(n as int, i as int),
        decreases w.len() - i,
    {
        r.push(w[i]);
        i = i + 1;
        assert(w@.subrange(n as int, i as int) == w@.subrange(n as int, i - 1).push(w@[i - 1]));
    }
    assert(r@ =~= scaled_weights(w@, sum, front));
    r
}

/// Whether a strategy explores: the roll is below the chance, which falls with
/// the tries but never under one in fifty.
pub open spec fn explores(roll: Real, chance: Real) -> bool {
    roll.below(chance.spec_max(Real { bits: R_0_02 }))
}

/// Whether a strategy explores.
pub fn is_exploring(roll: Real, chance: Real) -> (b: bool)
    ensures
        b == explores(roll, chance),
{
    roll.lt(chance.max(Real { bits: R_0_02 }))
}

/// Every weight that a vote, a time or a reward moves lies within the limits,
/// whatever numbers came in.
pub proof fn moved_weights_are_held(
    w: Seq<Real>,
    agreed: Seq<bool>,
    range: Real,
    at: int,
    raised: Seq<Real>,
    lowered: Seq<Real>,
    i: int,
)
    requires
        0 <= i < w.len(),
        i < raised.len(),
        i < lowered.len(),
        !raised[i].spec_is_nan(),
        !lowered[i].spec_is_nan(),
    ensures
        within_limits(rewarded_weights(w, at, raised, lowered)[i]),
        within_limits(timed_weights(w, raised)[i]),
        ({
            let r = voted_weights(w, w.len() as int, agreed, range, raised, lowered)[i];
            within_limits(r) || r == w[i]
        }),
        positive(range) || (i < agreed.len() && !agreed[i]) ==> within_limits(
            voted_weights(w, w.len() as int, agreed, range, raised, lowered)[i],
        ),
{
    clamp_is_bounded(raised[i], Real { bits: WEIGHT_FLOOR }, Real { bits: WEIGHT_CEILING });
    clamp_is_bounded(lowered[i], Real { bits: WEIGHT_FLOOR }, Real { bits: WEIGHT_CEILING });
}

/// Whether a weight lies within the limits.
pub open spec fn within_limits(r: Real) -> bool {
    (Real { bits: WEIGHT_FLOOR }).at_most(r) && r.at_most(Real { bits: WEIGHT_CEILING })
}

/// Where all options that vote agree and took the same time, a vote moves no
/// weight.
pub proof fn even_votes_move_nothing(
    w: Seq<Real>,
    n: int,
    agreed: Seq<bool>,
    range: Real,
    raised: Seq<Real>,
    lowered: Seq<Real>,
)
    requires
        0 <= n <= w.len(),
        forall|i: int| 0 <= i < n && i < agreed.len() ==> agreed[i],
        !positive(range),
    ensures
        voted_weights(w, n, agreed, range, raised, lowered) == w,
{
    assert(voted_weights(w, n, agreed, range, raised, lowered) =~= w);
}

} // verus!
