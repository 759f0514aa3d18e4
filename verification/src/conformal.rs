//! Calibration of prediction bands by past residuals.
use crate::cap_calls::{sort_values, sorted_values};
use crate::feature_schema::copy_reals;
use crate::number::{Real, cut_to};
use crate::sorting::{by_key, placed, sorting_orders};
use vstd::prelude::*;

verus! {

/// The most recent residuals, oldest first.
#[derive(Debug)]
pub struct ConformalCalibrator {
    pub residuals: Vec<Real>,
    pub max_size: usize,
    pub min_samples: usize,
}

/// The last `max` items.
pub open spec fn latest(s: Seq<Real>, max: int) -> Seq<Real> {
    if s.len() > max {
        s.skip(s.len() - max)
    } else {
        s
    }
}

/// Drops the oldest items until no more than `max` are left.
pub fn keep_latest(v: &mut Vec<Real>, max: usize)
    ensures
        final(v)@ == latest(old(v)@, max as int),
{
    let ghost all = v@;
    assert(all.skip(0) =~= all);
    while v.len() > max
        invariant
            v@.len() <= all.len(),
            v@ == all.skip(all.len() - v@.len()),
            v@.len() == all.len() || v@.len() >= max,
        decreases v@.len(),
    {
        let ghost before = v@;
        let _ = v.remove(0);
        assert(v@ =~= before.drop_first());
        assert(v@ =~= all.skip(all.len() - v@.len()));
    }
    assert(v@ =~= latest(all, max as int));
}

/// The finite ones of the items.
pub open spec fn finite_only(s: Seq<Real>) -> Seq<Real>
    decreases s.len(),
{
    if s.len() == 0 {
        s
    } else if s.last().spec_is_finite() {
        finite_only(s.drop_last()).push(s.last())
    } else {
        finite_only(s.drop_last())
    }
}

/// The place of a rank that counts from one, held within `n` places.
pub open spec fn place_of_rank(rank: Real, n: nat) -> int {
    let i = cut_to(rank, usize::MAX as nat);
    let p = if i == 0 {
        0
    } else {
        i - 1
    };
    if p < n {
        p as int
    } else {
        n - 1
    }
}

/// The residual at a rank among all in order; nothing while there are too few.
pub open spec fn at_rank(s: Seq<Real>, min_samples: int, rank: Real) -> Option<Real> {
    if s.len() < min_samples {
        None
    } else {
        Some(sorted_values(s)[place_of_rank(rank, s.len())])
    }
}

impl ConformalCalibrator {
    pub fn new(max_size: usize, min_samples: usize) -> (c: Self)
        ensures
            c.residuals@.len() == 0,
            c.max_size == max_size,
            c.min_samples == min_samples,
    {
        ConformalCalibrator { residuals: Vec::new(), max_size, min_samples }
    }

    pub fn default_config() -> (c: Self)
        ensures
            c.residuals@.len() == 0,
            c.max_size == 500,
            c.min_samples == 30,
    {
        ConformalCalibrator::new(500, 30)
    }

    pub fn len(&self) -> (n: usize)
        ensures
            n == self.residuals@.len(),
    {
        self.residuals.len()
    }

    pub fn is_empty(&self) -> (b: bool)
        ensures
            b == (self.residuals@.len() == 0),
    {
        self.residuals.len() == 0
    }

    /// Records the distance between a prediction and what was observed; one that
    /// is not finite does not count.
    pub fn record(&mut self, residual: Real)
        ensures
            final(self).residuals@ == (if residual.spec_is_finite() {
                latest(old(self).residuals@.push(residual), old(self).max_size as int)
            } else {
                old(self).residuals@
            }),
            final(self).max_size == old(self).max_size,
            final(self).min_samples == old(self).min_samples,
    {
        if !residual.is_finite() {
            return ;
        }
        let max: usize = self.max_size;
        self.residuals.push(residual);
        keep_latest(&mut self.residuals, max);
    }

    /// The residual at a rank among all in order, counted from one; nothing while
    /// there are too few. For a coverage `c` of `n` residuals the rank is
    /// `(n + 1) c`, rounded up.
    pub fn quantile(&self, rank: Real) -> (r: Option<Real>)
        requires
            self.residuals@.len() > 0 || self.min_samples > 0,
        ensures
            r == at_rank(self.residuals@, self.min_samples as int, rank),
    {
        if self.residuals.len() < self.min_samples {
            return None;
        }
        let sorted = sort_values(&self.residuals);
        proof {
            sorted_length(self.residuals@);
        }
        let i: usize = rank.to_usize();
        let p: usize = if i == 0 {
            0
        } else {
            i - 1
        };
        let at: usize = if p < sorted.len() {
            p
        } else {
            sorted.len() - 1
        };
        Some(sorted[at])
    }

    pub fn reset(&mut self)
        ensures
            final(self).residuals@.len() == 0,
            final(self).max_size == old(self).max_size,
            final(self).min_samples == old(self).min_samples,
    {
        self.residuals = Vec::new();
    }

    pub fn residuals_snapshot(&self) -> (v: Vec<Real>)
        ensures
            v@ == self.residuals@,
    {
        copy_reals(&self.residuals)
    }

    pub fn max_size(&self) -> (n: usize)
        ensures
            n == self.max_size,
    {
        self.max_size
    }

    pub fn min_samples(&self) -> (n: usize)
        ensures
            n == self.min_samples,
    {
        self.min_samples
    }

    /// A calibrator with the finite ones of the first `max_size` residuals.
    pub fn restore_state(residuals: &Vec<Real>, max_size: usize, min_samples: usize) -> (c: Self)
        ensures
            c.residuals@ == finite_only(
                residuals@.take(
                    if residuals@.len() < max_size {
                        residuals@.len() as int
                    } else {
                        max_size as int
                    },
                ),
            ),
            c.max_size == max_size,
            c.min_samples == min_samples,
    {
        let mut kept: Vec<Real> = Vec::new();
        let mut i: usize = 0;
        assert(residuals@.take(0) =~= Seq::<Real>::empty());
        while i < residuals.len() && i < max_size
            invariant
                i <= residuals.len(),
                i <= max_size,
                kept@ == finite_only(residuals@.take(i as int)),
            decreases residuals.len() - i,
        {
            assert(residuals@.take(i + 1).drop_last() =~= residuals@.take(i as int));
            if residuals[i].is_finite() {
                kept.push(residuals[i]);
            }
            i = i + 1;
        }
        ConformalCalibrator { residuals: kept, max_size, min_samples }
    }
}

/// Sorting keeps the number of values.
pub proof fn sorted_length(s: Seq<Real>)
    ensures
        sorted_values(s).len() == s.len(),
{
    by_key_length(s.map_values(|r: Real| (r, ())));
}

proof fn placed_length<T>(s: Seq<(Real, T)>, x: (Real, T))
    ensures
        placed(s, x).len() == s.len() + 1,
    decreases s.len(),
{
    if !(s.len() == 0 || !x.0.below(s.last().0)) {
        placed_length(s.drop_last(), x);
    }
}

proof fn by_key_length<T>(s: Seq<(Real, T)>)
    ensures
        by_key(s).len() == s.len(),
    decreases s.len(),
{
    if s.len() > 0 {
        by_key_length(s.drop_last());
        placed_length(by_key(s.drop_last()), s.last());
    }
}

/// A calibrator never keeps more residuals than it has room for.
pub proof fn room_is_kept(s: Seq<Real>, max: int, r: Real)
    requires
        max >= 0,
        s.len() <= max,
    ensures
        latest(s.push(r), max).len() <= max,
        max > 0 ==> latest(s.push(r), max).last() == r,
{
}

/// A higher rank gives no narrower band.
pub proof fn higher_ranks_are_no_narrower(s: Seq<Real>, min_samples: int, a: Real, b: Real)
    requires
        s.len() > 0,
        forall|i: int| 0 <= i < s.len() ==> (#[trigger] s[i]).spec_is_finite(),
        at_rank(s, min_samples, a) is Some,
        cut_to(a, usize::MAX as nat) <= cut_to(b, usize::MAX as nat),
    ensures
        at_rank(s, min_samples, b) is Some,
        !at_rank(s, min_samples, b)->Some_0.below(at_rank(s, min_samples, a)->Some_0),
{
    let p = s.map_values(|r: Real| (r, ()));
    assert forall|i: int| 0 <= i < p.len() implies !(#[trigger] p[i]).0.spec_is_nan() by {
        assert(s[i].spec_is_finite());
    }
    sorting_orders(p);
    sorted_length(s);
    let x = place_of_rank(a, s.len());
    let y = place_of_rank(b, s.len());
    if x < y {
        assert(!by_key(p)[y].0.below(by_key(p)[x].0));
    }
}

} // verus!
