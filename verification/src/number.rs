//! Real numbers as IEEE 754 binary64 bit patterns.
//!
//! Arithmetic on them is the host's business. What is decided here is decided
//! on the bits: order, finiteness, limits, and the conversions from and to
//! integers.
use vstd::arithmetic::power2::*;
use vstd::prelude::*;

verus! {

/// A binary64 number, held as its bit pattern.
#[derive(Clone, Copy, Debug, PartialEq, Eq, Structural)]
pub struct Real {
    pub bits: u64,
}

pub const SIGN: u64 = 0x8000_0000_0000_0000;

pub const HIDDEN: u64 = 0x10_0000_0000_0000;

/// The bits of 1.0.
pub const ONE: u64 = 0x3FF0_0000_0000_0000;

impl Real {
    /// The biased exponent.
    pub open spec fn spec_exponent(self) -> u64 {
        (self.bits / HIDDEN) % 0x800
    }

    /// The fraction below the leading bit.
    pub open spec fn spec_fraction(self) -> u64 {
        self.bits % HIDDEN
    }

    pub open spec fn spec_negative(self) -> bool {
        self.bits >= SIGN
    }

    pub open spec fn spec_is_nan(self) -> bool {
        self.spec_exponent() == 0x7FF && self.spec_fraction() != 0
    }

    pub open spec fn spec_is_finite(self) -> bool {
        self.spec_exponent() != 0x7FF
    }

    /// An integer that orders the numbers: two numbers that are not NaN
    /// compare as their ranks do, and the two zeros share rank 0.
    pub open spec fn rank(self) -> int {
        if self.spec_negative() {
            -(self.bits - SIGN)
        } else {
            self.bits as int
        }
    }

    /// `self < other`; false when either is NaN.
    pub open spec fn below(self, other: Real) -> bool {
        !self.spec_is_nan() && !other.spec_is_nan() && self.rank() < other.rank()
    }

    /// `self <= other`; false when either is NaN.
    pub open spec fn at_most(self, other: Real) -> bool {
        !self.spec_is_nan() && !other.spec_is_nan() && self.rank() <= other.rank()
    }

    /// `self == other` as numbers; false when either is NaN.
    pub open spec fn same_value(self, other: Real) -> bool {
        !self.spec_is_nan() && !other.spec_is_nan() && self.rank() == other.rank()
    }

    /// `self` held between `lo` and `hi`; NaN stays NaN.
    pub open spec fn spec_clamp(self, lo: Real, hi: Real) -> Real {
        if self.below(lo) {
            lo
        } else if hi.below(self) {
            hi
        } else {
            self
        }
    }

    /// The larger number; a NaN gives way to the other.
    pub open spec fn spec_max(self, other: Real) -> Real {
        if self.spec_is_nan() {
            other
        } else if self.below(other) {
            other
        } else {
            self
        }
    }

    pub fn zero() -> (r: Real)
        ensures
            r.bits == 0,
    {
        Real { bits: 0 }
    }

    pub fn one() -> (r: Real)
        ensures
            r.bits == ONE,
    {
        Real { bits: ONE }
    }

    pub fn is_nan(&self) -> (b: bool)
        ensures
            b == self.spec_is_nan(),
    {
        (self.bits / HIDDEN) % 0x800 == 0x7FF && self.bits % HIDDEN != 0
    }

    pub fn is_finite(&self) -> (b: bool)
        ensures
            b == self.spec_is_finite(),
    {
        (self.bits / HIDDEN) % 0x800 != 0x7FF
    }

    fn order(&self) -> (k: i128)
        ensures
            k == self.rank(),
    {
        if self.bits >= SIGN {
            -((self.bits - SIGN) as i128)
        } else {
            self.bits as i128
        }
    }

    /// `self < other`.
    pub fn lt(&self, other: Real) -> (b: bool)
        ensures
            b == self.below(other),
    {
        !self.is_nan() && !other.is_nan() && self.order() < other.order()
    }

    /// `self <= other`.
    pub fn le(&self, other: Real) -> (b: bool)
        ensures
            b == self.at_most(other),
    {
        !self.is_nan() && !other.is_nan() && self.order() <= other.order()
    }

    /// `self == other` as numbers.
    pub fn eq_value(&self, other: Real) -> (b: bool)
        ensures
            b == self.same_value(other),
    {
        !self.is_nan() && !other.is_nan() && self.order() == other.order()
    }

    /// Holds `self` between `lo` and `hi`.
    pub fn clamp(&self, lo: Real, hi: Real) -> (r: Real)
        ensures
            r == self.spec_clamp(lo, hi),
    {
        if self.lt(lo) {
            lo
        } else if hi.lt(*self) {
            hi
        } else {
            *self
        }
    }

    /// The larger of two numbers.
    pub fn max(&self, other: Real) -> (r: Real)
        ensures
            r == self.spec_max(other),
    {
        if self.is_nan() {
            other
        } else if self.lt(other) {
            other
        } else {
            *self
        }
    }
}

/// A clamped number lies between the limits, whatever number went in.
pub proof fn clamp_is_bounded(x: Real, lo: Real, hi: Real)
    requires
        !x.spec_is_nan(),
        lo.at_most(hi),
    ensures
        lo.at_most(x.spec_clamp(lo, hi)),
        x.spec_clamp(lo, hi).at_most(hi),
{
}

/// How many binary digits `n` has.
pub open spec fn bit_length(n: nat) -> nat
    decreases n,
{
    if n == 0 {
        0
    } else {
        bit_length(n / 2) + 1
    }
}

/// The bit pattern of the number nearest to `n`, ties to the even fraction.
pub open spec fn nearest_bits(n: nat) -> int {
    if n == 0 {
        0
    } else {
        let top = bit_length(n) - 1;
        if top <= 52 {
            (top + 1022) * HIDDEN + n * pow2((52 - top) as nat)
        } else {
            let unit = pow2((top - 52) as nat);
            let whole = n / unit;
            let rest = n % unit;
            let up = 2 * rest > unit || (2 * rest == unit && whole % 2 == 1);
            (top + 1022) * HIDDEN + whole + (if up {
                1int
            } else {
                0int
            })
        }
    }
}

proof fn bit_length_bounds(n: nat)
    requires
        n > 0,
    ensures
        bit_length(n) > 0,
        pow2((bit_length(n) - 1) as nat) <= n < pow2(bit_length(n)),
    decreases n,
{
    if n == 1 {
        assert(bit_length(1) == bit_length(0) + 1);
        lemma2_to64();
    } else {
        bit_length_bounds(n / 2);
        lemma_pow2_unfold(bit_length(n));
        lemma_pow2_unfold((bit_length(n) - 1) as nat);
    }
}

fn count_bits(n: u128) -> (len: u32)
    requires
        n > 0,
    ensures
        len == bit_length(n as nat),
        1 <= len <= 128,
{
    let mut left: u128 = n;
    let mut len: u32 = 0;
    proof {
        pow2_128();
        bit_length_bounds(n as nat);
        if bit_length(n as nat) > 128 {
            if bit_length(n as nat) > 129 {
                lemma_pow2_strictly_increases(128, (bit_length(n as nat) - 1) as nat);
            }
        }
    }
    while left > 0
        invariant
            len + bit_length(left as nat) == bit_length(n as nat),
            bit_length(n as nat) <= 128,
        decreases left,
    {
        left = left / 2;
        len = len + 1;
    }
    len
}

proof fn pow2_128()
    ensures
        pow2(128) == 0x1_0000_0000_0000_0000_0000_0000_0000_0000int,
{
    lemma2_to64();
    lemma2_to64_rest();
    lemma_pow2_adds(64, 64);
}

/// The binary digits of a number bound it from both sides.
proof fn top_bounds(n: nat, limit: nat)
    requires
        0 < n < pow2(limit),
    ensures
        1 <= bit_length(n) <= limit,
        pow2((bit_length(n) - 1) as nat) <= n < pow2(bit_length(n)),
{
    bit_length_bounds(n);
    if bit_length(n) > limit {
        if bit_length(n) - 1 > limit {
            lemma_pow2_strictly_increases(limit, (bit_length(n) - 1) as nat);
        }
    }
}

impl Real {
    /// The number nearest to `n`.
    pub fn of_u64(n: u64) -> (r: Real)
        ensures
            r.bits == nearest_bits(n as nat),
    {
        Real::of_u128(n as u128)
    }

    /// The number nearest to `n`.
    pub fn of_u128(n: u128) -> (r: Real)
        ensures
            r.bits == nearest_bits(n as nat),
    {
        if n == 0 {
            return Real { bits: 0 };
        }
        let top: u32 = count_bits(n) - 1;
        proof {
            bit_length_bounds(n as nat);
            lemma2_to64();
            lemma2_to64_rest();
        }
        if top <= 52 {
            let mut m: u64 = n as u64;
            let mut k: u32 = top;
            proof {
                if top + 1 < 53 {
                    lemma_pow2_strictly_increases((top + 1) as nat, 53);
                }
                assert(pow2(0) == 1);
                assert(n * pow2(0) == n);
            }
            while k < 52
                invariant
                    top <= k <= 52,
                    m == n * pow2((k - top) as nat),
                    m < pow2((k + 1) as nat),
                decreases 52 - k,
            {
                proof {
                    lemma2_to64();
                    lemma2_to64_rest();
                    lemma_pow2_unfold((k + 2) as nat);
                    lemma_pow2_unfold((k + 1 - top) as nat);
                    if k + 2 < 53 {
                        lemma_pow2_strictly_increases((k + 2) as nat, 53);
                    }
                    assert(n * (2 * pow2((k - top) as nat)) == 2 * (n * pow2((k - top) as nat)))
                        by (nonlinear_arith);
                }
                m = m * 2;
                k = k + 1;
            }
            Real { bits: (top as u64 + 1022) * HIDDEN + m }
        } else {
            let mut unit: u128 = 1;
            let mut k: u32 = 52;
            while k < top
                invariant
                    52 <= k <= top <= 127,
                    unit == pow2((k - 52) as nat),
                    unit < 0x1000_0000_0000_0000_0000,
                decreases top - k,
            {
                proof {
                    lemma2_to64();
                    lemma2_to64_rest();
                    lemma_pow2_unfold((k - 51) as nat);
                    lemma_pow2_adds(64, 12);
                    if k - 51 < 76 {
                        lemma_pow2_strictly_increases((k - 51) as nat, 76);
                    }
                }
                unit = unit * 2;
                k = k + 1;
            }
            proof {
                lemma_pow2_pos((top - 52) as nat);
            }
            let whole: u128 = n / unit;
            let rest: u128 = n % unit;
            proof {
                lemma_pow2_adds((top - 52) as nat, 53);
                assert(n < pow2(53) * unit) by {
                    assert(pow2((top + 1) as nat) == pow2((top - 52) as nat) * pow2(53));
                }
                assert(whole < 0x20_0000_0000_0000) by (nonlinear_arith)
                    requires
                        n < 0x20_0000_0000_0000 * unit,
                        whole == n / unit,
                        unit > 0,
                ;
            }
            let up: u64 = if 2 * rest > unit || (2 * rest == unit && whole % 2 == 1) {
                1
            } else {
                0
            };
            Real { bits: (top as u64 + 1022) * HIDDEN + whole as u64 + up }
        }
    }

    /// The number nearest to `n`: the magnitude's nearest with the sign put on.
    pub fn of_i64(n: i64) -> (r: Real)
        ensures
            r == real_of_int(n as int),
    {
        if n >= 0 {
            Real::of_u64(n as u64)
        } else {
            let magnitude: u64 = if n == i64::MIN {
                SIGN
            } else {
                (-n) as u64
            };
            proof {
                nearest_is_positive(magnitude as nat);
            }
            let r = Real::of_u64(magnitude);
            Real { bits: SIGN + r.bits }
        }
    }
}

/// The number nearest to an integer of at most sixty-four binary digits.
pub open spec fn real_of_int(n: int) -> Real {
    if n >= 0 {
        Real { bits: nearest_bits(n as nat) as u64 }
    } else {
        Real { bits: (SIGN + nearest_bits((-n) as nat)) as u64 }
    }
}

/// The bit pattern of the number nearest to 1 / n, ties to the even fraction.
pub open spec fn nearest_share_bits(n: nat) -> int {
    let top = bit_length(n) - 1;
    let scaled = pow2((53 + top) as nat);
    let whole = scaled / n;
    let rest = scaled % n;
    let up = 2 * rest > n || (2 * rest == n && whole % 2 == 1);
    (1021 - top) * HIDDEN + whole + (if up {
        1int
    } else {
        0int
    })
}

impl Real {
    /// The number nearest to 1 / n.
    pub fn share(n: u64) -> (r: Real)
        requires
            0 < n <= 0x20_0000_0000_0000,
        ensures
            r.bits == nearest_share_bits(n as nat),
    {
        let top: u32 = count_bits(n as u128) - 1;
        proof {
            lemma2_to64();
            lemma2_to64_rest();
            top_bounds(n as nat, 54);
        }
        let mut scaled: u128 = 0x20_0000_0000_0000;
        let mut k: u32 = 0;
        while k < top
            invariant
                k <= top <= 53,
                scaled == pow2((53 + k) as nat),
                scaled < 0x1_0000_0000_0000_0000_0000_0000_0000,
            decreases top - k,
        {
            proof {
                lemma2_to64_rest();
                lemma_pow2_unfold((54 + k) as nat);
                lemma_pow2_adds(56, 56);
                if 54 + k < 112 {
                    lemma_pow2_strictly_increases((54 + k) as nat, 112);
                }
                assert(pow2(56) * pow2(56) == 0x1_0000_0000_0000_0000_0000_0000_0000) by {
                    lemma2_to64_rest();
                }
            }
            scaled = scaled * 2;
            k = k + 1;
        }
        let whole: u128 = scaled / (n as u128);
        let rest: u128 = scaled % (n as u128);
        proof {
            lemma_pow2_adds(53, top as nat);
            lemma_pow2_pos(top as nat);
            assert(scaled <= n * 0x20_0000_0000_0000) by (nonlinear_arith)
                requires
                    scaled == 0x20_0000_0000_0000 * pow2(top as nat),
                    pow2(top as nat) <= n,
            ;
            assert(whole <= 0x20_0000_0000_0000) by (nonlinear_arith)
                requires
                    scaled <= n * 0x20_0000_0000_0000,
                    whole == scaled / (n as u128),
                    n > 0,
            ;
        }
        let up: u64 = if 2 * rest > n as u128 || (2 * rest == n as u128 && whole % 2 == 1) {
            1
        } else {
            0
        };
        Real { bits: (1021 - top as u64) * HIDDEN + whole as u64 + up }
    }
}

/// The whole part of the magnitude of a finite number.
pub open spec fn magnitude(r: Real) -> nat {
    let e = r.spec_exponent();
    let m = (HIDDEN + r.spec_fraction()) as nat;
    if e < 1023 {
        0
    } else if e <= 1075 {
        m / pow2((1075 - e) as nat)
    } else {
        m * pow2((e - 1075) as nat)
    }
}

/// The whole number that a number is cut to, held between 0 and `max`; NaN
/// becomes 0.
pub open spec fn cut_to(r: Real, max: nat) -> nat {
    if r.spec_is_nan() || r.spec_negative() {
        0
    } else if !r.spec_is_finite() || magnitude(r) > max {
        max
    } else {
        magnitude(r)
    }
}

/// The integer that a number is cut to, held within 64 bits.
pub open spec fn cut_to_i64(r: Real) -> int {
    if r.spec_is_nan() {
        0
    } else if r.spec_negative() {
        if !r.spec_is_finite() || magnitude(r) > 0x8000_0000_0000_0000 {
            i64::MIN as int
        } else {
            -magnitude(r)
        }
    } else {
        cut_to(r, i64::MAX as nat) as int
    }
}

impl Real {
    /// The whole part of the magnitude; all ones where it is larger.
    fn whole(&self) -> (n: u128)
        requires
            self.spec_is_finite(),
        ensures
            n == (if magnitude(*self) > u128::MAX {
                u128::MAX as nat
            } else {
                magnitude(*self)
            }),
    {
        let e: u64 = (self.bits / HIDDEN) % 0x800;
        let m: u128 = HIDDEN as u128 + (self.bits % HIDDEN) as u128;
        proof {
            lemma2_to64();
            lemma2_to64_rest();
        }
        if e < 1023 {
            return 0;
        }
        if e <= 1075 {
            let mut left: u64 = 1075 - e;
            let mut q: u128 = m;
            let ghost total = (1075 - e) as nat;
            assert(pow2(0) == 1);
            assert(m as nat / pow2(0) == m);
            while left > 0
                invariant
                    left <= total <= 52,
                    q == m as nat / pow2((total - left) as nat),
                decreases left,
            {
                proof {
                    lemma_pow2_pos((total - left) as nat);
                    lemma_pow2_unfold((total - left + 1) as nat);
                    vstd::arithmetic::div_mod::lemma_div_denominator(
                        m as int,
                        pow2((total - left) as nat) as int,
                        2,
                    );
                    assert(pow2((total - left) as nat) * 2 == 2 * pow2((total - left) as nat));
                }
                q = q / 2;
                left = left - 1;
            }
            return q;
        }
        let shift: u64 = e - 1075;
        proof {
            pow2_128();
        }
        if shift >= 76 {
            proof {
                if shift > 76 {
                    lemma_pow2_strictly_increases(76, shift as nat);
                }
                lemma_pow2_adds(52, 76);
                assert(m * pow2(shift as nat) >= pow2(52) * pow2(76)) by (nonlinear_arith)
                    requires
                        m >= pow2(52),
                        pow2(shift as nat) >= pow2(76),
                ;
            }
            return u128::MAX;
        }
        let mut q: u128 = m;
        let mut k: u64 = 0;
        assert(m * pow2(0) == m);
        while k < shift
            invariant
                k <= shift < 76,
                q == m * pow2(k as nat),
                q < pow2((53 + k) as nat),
            decreases shift - k,
        {
            proof {
                pow2_128();
                lemma_pow2_unfold((k + 1) as nat);
                lemma_pow2_unfold((54 + k) as nat);
                lemma_pow2_strictly_increases((53 + k) as nat, 128);
                if 54 + k < 128 {
                    lemma_pow2_strictly_increases((54 + k) as nat, 128);
                }
                assert(m * (2 * pow2(k as nat)) == 2 * (m * pow2(k as nat))) by (nonlinear_arith);
            }
            q = q * 2;
            k = k + 1;
        }
        q
    }

    /// Cuts to a whole number.
    pub fn to_u128(&self) -> (n: u128)
        ensures
            n == cut_to(*self, u128::MAX as nat),
    {
        if self.is_nan() || self.bits >= SIGN {
            0
        } else if !self.is_finite() {
            u128::MAX
        } else {
            self.whole()
        }
    }

    /// Cuts to a whole number.
    pub fn to_u64(&self) -> (n: u64)
        ensures
            n == cut_to(*self, u64::MAX as nat),
    {
        let n: u128 = self.to_u128();
        if n > 0xFFFF_FFFF_FFFF_FFFF {
            u64::MAX
        } else {
            n as u64
        }
    }

    /// Cuts to a whole number.
    pub fn to_usize(&self) -> (n: usize)
        ensures
            n == cut_to(*self, usize::MAX as nat),
    {
        let n: u128 = self.to_u128();
        if n > usize::MAX as u128 {
            usize::MAX
        } else {
            n as usize
        }
    }

    /// Cuts to an integer.
    pub fn to_i64(&self) -> (n: i64)
        ensures
            n == cut_to_i64(*self),
    {
        if self.is_nan() {
            return 0;
        }
        let negative = self.bits >= SIGN;
        if !self.is_finite() {
            return if negative {
                i64::MIN
            } else {
                i64::MAX
            };
        }
        let n: u128 = self.whole();
        if negative {
            if n >= 0x8000_0000_0000_0000 {
                i64::MIN
            } else {
                -(n as i64)
            }
        } else if n > 0x7FFF_FFFF_FFFF_FFFF {
            i64::MAX
        } else {
            n as i64
        }
    }

    /// The number with the other sign.
    pub fn negated(&self) -> (r: Real)
        ensures
            r == self.spec_negated(),
    {
        if self.bits >= SIGN {
            Real { bits: self.bits - SIGN }
        } else {
            Real { bits: self.bits + SIGN }
        }
    }

    pub open spec fn spec_negated(self) -> Real {
        if self.spec_negative() {
            Real { bits: (self.bits - SIGN) as u64 }
        } else {
            Real { bits: (self.bits + SIGN) as u64 }
        }
    }

    /// The number without its sign.
    pub fn abs(&self) -> (r: Real)
        ensures
            r == self.spec_abs(),
    {
        if self.bits >= SIGN {
            Real { bits: self.bits - SIGN }
        } else {
            *self
        }
    }

    pub open spec fn spec_abs(self) -> Real {
        if self.spec_negative() {
            Real { bits: (self.bits - SIGN) as u64 }
        } else {
            self
        }
    }
}

proof fn nearest_is_positive(n: nat)
    requires
        n <= 0xFFFF_FFFF_FFFF_FFFF,
    ensures
        0 <= nearest_bits(n) < SIGN,
{
    if n > 0 {
        bit_length_bounds(n);
        lemma2_to64();
        lemma2_to64_rest();
        let top = bit_length(n) - 1;
        if top >= 64 {
            if top > 64 {
                lemma_pow2_strictly_increases(64, top as nat);
            }
        }
        if top <= 52 {
            lemma_pow2_adds((top + 1) as nat, (52 - top) as nat);
            lemma_pow2_pos((52 - top) as nat);
            assert(n * pow2((52 - top) as nat) < pow2((top + 1) as nat) * pow2((52 - top) as nat))
                by (nonlinear_arith)
                requires
                    n < pow2((top + 1) as nat),
                    pow2((52 - top) as nat) > 0,
            ;
        } else {
            let unit = pow2((top - 52) as nat);
            lemma_pow2_pos((top - 52) as nat);
            lemma_pow2_adds((top - 52) as nat, 53);
            assert(n / unit < 0x20_0000_0000_0000) by (nonlinear_arith)
                requires
                    n < unit * 0x20_0000_0000_0000,
                    unit > 0,
            ;
            assert(n / unit >= 0) by (nonlinear_arith)
                requires
                    unit > 0,
            ;
        }
    }
}

/// How a whole number below 2^53 is laid out: its leading binary digit gives the
/// exponent, and the rest the fraction.
proof fn whole_layout(n: nat) -> (top: nat)
    requires
        0 < n < 0x20_0000_0000_0000,
    ensures
        top <= 52,
        ({
            let r = real_of_int(n as int);
            let f = n * pow2((52 - top) as nat) - HIDDEN;
            &&& 0 <= f < HIDDEN
            &&& r.bits == (top + 1023) * HIDDEN + f
            &&& r.spec_exponent() == top + 1023
            &&& r.spec_fraction() == f
            &&& !r.spec_negative()
            &&& r.spec_is_finite()
            &&& !r.spec_is_nan()
        }),
{
    lemma2_to64();
    lemma2_to64_rest();
    top_bounds(n, 53);
    let top = (bit_length(n) - 1) as nat;
    let unit = pow2((52 - top) as nat);
    lemma_pow2_pos((52 - top) as nat);
    lemma_pow2_adds(top, (52 - top) as nat);
    lemma_pow2_adds((top + 1) as nat, (52 - top) as nat);
    assert(HIDDEN <= n * unit < 2 * HIDDEN) by (nonlinear_arith)
        requires
            pow2(top) <= n < pow2((top + 1) as nat),
            pow2(top) * unit == HIDDEN,
            pow2((top + 1) as nat) * unit == 2 * HIDDEN,
            unit > 0,
    ;
    let f = n * unit - HIDDEN;
    let bits = (top + 1023) * HIDDEN + f;
    assert(nearest_bits(n) == bits) by (nonlinear_arith)
        requires
            nearest_bits(n) == (top + 1022) * HIDDEN + n * unit,
            bits == (top + 1023) * HIDDEN + (n * unit - HIDDEN),
    ;
    assert(bits < 0x7FF * HIDDEN) by (nonlinear_arith)
        requires
            bits == (top + 1023) * HIDDEN + f,
            top <= 52,
            f < HIDDEN,
    ;
    let b = bits as u64;
    assert(b / HIDDEN == top + 1023 && b % HIDDEN == f) by (nonlinear_arith)
        requires
            b == (top + 1023) * HIDDEN + f,
            0 <= f < HIDDEN,
            HIDDEN == 0x10_0000_0000_0000,
    ;
    top
}

/// A whole number below 2^53 is kept exactly: cut back, it is the same.
pub proof fn whole_numbers_come_back(n: nat, max: nat)
    requires
        n < 0x20_0000_0000_0000,
        n <= max,
    ensures
        cut_to(real_of_int(n as int), max) == n,
        real_of_int(n as int).spec_is_finite(),
{
    if n == 0 {
    } else {
        let top = whole_layout(n);
        let r = real_of_int(n as int);
        let unit = pow2((52 - top) as nat);
        lemma_pow2_pos((52 - top) as nat);
        assert((n * unit) / unit == n) by (nonlinear_arith)
            requires
                unit > 0,
        ;
    }
}

/// Whole numbers below 2^53 are ordered as numbers are.
pub proof fn whole_numbers_are_ordered(a: nat, b: nat)
    requires
        a < 0x20_0000_0000_0000,
        b < 0x20_0000_0000_0000,
    ensures
        real_of_int(a as int).below(real_of_int(b as int)) <==> a < b,
        real_of_int(a as int).at_most(real_of_int(b as int)) <==> a <= b,
        real_of_int(a as int).same_value(real_of_int(b as int)) <==> a == b,
{
    less_is_below(a, b);
    less_is_below(b, a);
    if a > 0 {
        let t = whole_layout(a);
    }
    if b > 0 {
        let t = whole_layout(b);
    }
}

proof fn less_is_below(a: nat, b: nat)
    requires
        a < 0x20_0000_0000_0000,
        b < 0x20_0000_0000_0000,
    ensures
        a < b ==> real_of_int(a as int).bits < real_of_int(b as int).bits,
{
    if a < b {
        let s = whole_layout(b);
        if a > 0 {
            let t = whole_layout(a);
            let x = pow2((52 - t) as nat);
            let y = pow2((52 - s) as nat);
            lemma_pow2_pos((52 - t) as nat);
            lemma_pow2_pos((52 - s) as nat);
            if t == s {
                assert(a * x < b * x) by (nonlinear_arith)
                    requires
                        a < b,
                        x > 0,
                ;
            } else if t > s {
                lemma_pow2_strictly_increases((52 - t) as nat, (52 - s) as nat);
                lemma_pow2_adds((52 - t) as nat, (t - s) as nat);
                lemma_pow2_unfold((t - s) as nat);
                lemma_pow2_pos((t - s - 1) as nat);
                assert(b * y >= a * x * 2) by (nonlinear_arith)
                    requires
                        y == x * pow2((t - s) as nat),
                        pow2((t - s) as nat) >= 2,
                        a < b,
                        x > 0,
                ;
                assert(false);
            } else {
                assert((t + 1023) * HIDDEN + (a * x - HIDDEN) < (s + 1023) * HIDDEN + (b * y
                    - HIDDEN)) by (nonlinear_arith)
                    requires
                        t + 1 <= s,
                        a * x - HIDDEN < HIDDEN,
                        b * y - HIDDEN >= 0,
                ;
            }
        }
    }
}

} // verus!
