//! Noticing that the mean of a stream has shifted.
use crate::feature_schema::copy_reals;
use crate::number::Real;
use crate::real_constants::{R_0_0005, R_0_002};
use vstd::prelude::*;

verus! {

/// A window of recent observations, oldest first.
#[derive(Debug)]
pub struct AdwinDetector {
    pub window: Vec<Real>,
    pub delta: Real,
    pub max_size: usize,
    pub min_subwindow: usize,
}

/// A shift: how much of the window was dropped, and the means around it.
#[derive(Clone, Copy, Debug, PartialEq, Eq, Structural)]
pub struct ChangeDetected {
    pub dropped: usize,
    pub old_mean: Real,
    pub new_mean: Real,
}

/// What a split of the window shows: its means, the old one less the new one, and
/// how far apart chance allows them to lie.
#[derive(Clone, Copy, Debug)]
pub struct SplitTest {
    pub old_mean: Real,
    pub new_mean: Real,
    pub gap: Real,
    pub bound: Real,
}

impl SplitTest {
    /// The means lie further apart than chance allows.
    pub open spec fn spec_differs(self) -> bool {
        self.bound.below(self.gap.spec_abs())
    }

    /// Whether the means lie further apart than chance allows.
    pub fn differs(&self) -> (b: bool)
        ensures
            b == self.spec_differs(),
    {
        self.bound.lt(self.gap.abs())
    }
}

/// The window after an observation: the oldest leaves where there is no room.
pub open spec fn observed(s: Seq<Real>, max: int, v: Real) -> Seq<Real> {
    if s.len() + 1 > max {
        s.push(v).drop_first()
    } else {
        s.push(v)
    }
}

/// How many splits leave at least `m` observations on either side; the first of
/// them is at `m`.
pub open spec fn splits(n: int, m: int) -> int {
    if n < 2 * m {
        0
    } else {
        n - 2 * m + 1
    }
}

/// The first split that differs.
pub open spec fn first_differing(s: Seq<SplitTest>, i: int) -> int
    decreases s.len() - i,
{
    if i >= s.len() || s[i].spec_differs() {
        i
    } else {
        first_differing(s, i + 1)
    }
}

impl AdwinDetector {
    pub open spec fn same_settings(self, other: Self) -> bool {
        &&& self.delta == other.delta
        &&& self.max_size == other.max_size
        &&& self.min_subwindow == other.min_subwindow
    }

    pub fn new(delta: Real, max_size: usize) -> (d: Self)
        ensures
            d.window@.len() == 0,
            d.delta == delta,
            d.max_size == max_size,
            d.min_subwindow == 5,
    {
        AdwinDetector { window: Vec::new(), delta, max_size, min_subwindow: 5 }
    }

    /// The detector of a single context.
    pub fn default_config() -> (d: Self)
        ensures
            d.window@.len() == 0,
            d.delta.bits == R_0_002,
            d.max_size == 1000,
            d.min_subwindow == 5,
    {
        AdwinDetector::new(Real { bits: R_0_002 }, 1000)
    }

    /// The detector of a whole capsule, which is stricter.
    pub fn capsule_level_config() -> (d: Self)
        ensures
            d.window@.len() == 0,
            d.delta.bits == R_0_0005,
            d.max_size == 1000,
            d.min_subwindow == 5,
    {
        AdwinDetector::new(Real { bits: R_0_0005 }, 1000)
    }

    /// A detector with the window that it had.
    pub fn restore_state(window: Vec<Real>, delta: Real, max_size: usize, min_subwindow: usize) -> (d:
        Self)
        ensures
            d.window == window,
            d.delta == delta,
            d.max_size == max_size,
            d.min_subwindow == min_subwindow,
    {
        AdwinDetector { window, delta, max_size, min_subwindow }
    }

    pub fn delta(&self) -> (r: Real)
        ensures
            r == self.delta,
    {
        self.delta
    }

    pub fn max_size(&self) -> (n: usize)
        ensures
            n == self.max_size,
    {
        self.max_size
    }

    pub fn min_subwindow(&self) -> (n: usize)
        ensures
            n == self.min_subwindow,
    {
        self.min_subwindow
    }

    pub fn window_snapshot(&self) -> (v: Vec<Real>)
        ensures
            v@ == self.window@,
    {
        copy_reals(&self.window)
    }

    pub fn len(&self) -> (n: usize)
        ensures
            n == self.window@.len(),
    {
        self.window.len()
    }

    pub fn is_empty(&self) -> (b: bool)
        ensures
            b == (self.window@.len() == 0),
    {
        self.window.len() == 0
    }

    /// Adds an observation, and says how many splits of the window are to be
    /// tested; the first is at the least size of a part. A part may be empty where
    /// that size is zero; it has no mean, and so it differs from none.
    pub fn add(&mut self, value: Real) -> (n: usize)
        requires
            old(self).window@.len() < usize::MAX - 1,
        ensures
            final(self).window@ == observed(
                old(self).window@,
                old(self).max_size as int,
                value,
            ),
            final(self).same_settings(*old(self)),
            n == splits(final(self).window@.len() as int, old(self).min_subwindow as int),
    {
        let ghost before = self.window@;
        self.window.push(value);
        if self.window.len() > self.max_size {
            let _ = self.window.remove(0);
            assert(self.window@ =~= before.push(value).drop_first());
        }
        let n: usize = self.window.len();
        let m: usize = self.min_subwindow;
        if m > n || n - m < m {
            0
        } else {
            n - m - m + 1
        }
    }

    /// Takes what the splits show, from the first on, and drops what lies before
    /// the first that differs.
    pub fn check_for_change(&mut self, tests: &Vec<SplitTest>) -> (r: Option<ChangeDetected>)
        requires
            tests@.len() <= splits(
                old(self).window@.len() as int,
                old(self).min_subwindow as int,
            ),
        ensures
            final(self).same_settings(*old(self)),
            ({
                let at = first_differing(tests@, 0);
                if at < tests@.len() {
                    let split = old(self).min_subwindow + at;
                    &&& r == Some(
                        ChangeDetected {
                            dropped: split as usize,
                            old_mean: tests@[at].old_mean,
                            new_mean: tests@[at].new_mean,
                        },
                    )
                    &&& final(self).window@ == old(self).window@.skip(split)
                    &&& final(self).window@.len() >= old(self).min_subwindow
                } else {
                    r is None && final(self).window@ == old(self).window@
                }
            }),
    {
        let ghost all = self.window@;
        let mut i: usize = 0;
        while i < tests.len()
            invariant
                i <= tests.len(),
                *self == *old(self),
                all == self.window@,
                tests@.len() <= splits(all.len() as int, self.min_subwindow as int),
                first_differing(tests@, 0) == first_differing(tests@, i as int),
            decreases tests.len() - i,
        {
            if tests[i].differs() {
                let n: usize = self.window.len();
                assert(self.min_subwindow + i <= n);
                let split: usize = self.min_subwindow + i;
                let mut rest: Vec<Real> = Vec::new();
                let mut k: usize = split;
                while k < n
                    invariant
                        split <= k <= n,
                        n == self.window@.len(),
                        all == self.window@,
                        rest@ == all.subrange(split as int, k as int),
                    decreases n - k,
                {
                    rest.push(self.window[k]);
                    k = k + 1;
                    assert(all.subrange(split as int, k as int) =~= all.subrange(
                        split as int,
                        k - 1,
                    ).push(all[k - 1]));
                }
                assert(rest@ =~= all.skip(split as int));
                self.window = rest;
                return Some(
                    ChangeDetected {
                        dropped: split,
                        old_mean: tests[i].old_mean,
                        new_mean: tests[i].new_mean,
                    },
                );
            }
            i = i + 1;
        }
        None
    }

    pub fn reset(&mut self)
        ensures
            final(self).window@.len() == 0,
            final(self).same_settings(*old(self)),
    {
        self.window = Vec::new();
    }
}

/// A window within its bounds stays so.
pub proof fn windows_stay_bounded(s: Seq<Real>, max: int, v: Real)
    requires
        s.len() <= max,
    ensures
        observed(s, max, v).len() <= max,
        max > 0 ==> observed(s, max, v).last() == v,
{
}

} // verus!
