//! Fixed-point lengths.
//!
//! A [`Scalar`] counts millionths of a layout unit in an `i64`. Arithmetic is
//! total: a result that does not fit is clamped to the nearest bound, products
//! and quotients are truncated toward zero.

use vstd::prelude::*;

verus! {

/// Number of raw units in one layout unit.
pub const UNIT: i64 = 1_000_000;

/// Half of [`UNIT`], the rounding threshold.
pub const HALF_UNIT: i64 = 500_000;

/// A length, factor or ratio in millionths.
#[derive(Clone, Copy, Debug, PartialEq, Eq, Structural, PartialOrd, Ord, Hash)]
pub struct Scalar {
    pub raw: i64,
}

/// The `i64` nearest to `v`.
pub open spec fn clamp_raw(v: int) -> i64 {
    if v < i64::MIN {
        i64::MIN
    } else if v > i64::MAX {
        i64::MAX
    } else {
        v as i64
    }
}

/// Quotient of `n` by `d` truncated toward zero; `d` must not be zero.
pub open spec fn trunc_div(n: int, d: int) -> int
    recommends
        d != 0,
{
    if n >= 0 {
        if d > 0 {
            n / d
        } else {
            -(n / (-d))
        }
    } else {
        if d > 0 {
            -((-n) / d)
        } else {
            (-n) / (-d)
        }
    }
}

/// `v` rounded to the nearest multiple of [`UNIT`], halves away from zero.
pub open spec fn round_units(v: int) -> int {
    if v >= 0 {
        ((v + HALF_UNIT) / (UNIT as int)) * UNIT
    } else {
        -(((-v + HALF_UNIT) / (UNIT as int)) * UNIT)
    }
}

fn clamp_wide(v: i128) -> (r: i64)
    ensures
        r == clamp_raw(v as int),
{
    if v < i64::MIN as i128 {
        i64::MIN
    } else if v > i64::MAX as i128 {
        i64::MAX
    } else {
        v as i64
    }
}

fn trunc_div_wide(n: i128, d: i128) -> (r: i128)
    requires
        d != 0,
        i128::MIN < n,
        i128::MIN < d,
    ensures
        r == trunc_div(n as int, d as int),
{
    if n >= 0 {
        if d > 0 {
            n / d
        } else {
            let q: i128 = n / (-d);
            -q
        }
    } else {
        if d > 0 {
            let q: i128 = (-n) / d;
            -q
        } else {
            (-n) / (-d)
        }
    }
}

fn scale_wide(n: i128) -> (r: i128)
    requires
        -0x1_0000_0000_0000_0000 <= n <= 0x1_0000_0000_0000_0000,
    ensures
        r == n * UNIT,
{
    n * 1_000_000
}

impl Scalar {
    /// The value zero.
    pub open spec fn spec_zero() -> Scalar {
        Scalar { raw: 0 }
    }

    #[verifier::when_used_as_spec(spec_zero)]
    pub fn zero() -> (r: Scalar)
        ensures
            r == Self::spec_zero(),
    {
        Scalar { raw: 0 }
    }

    /// The value one.
    pub open spec fn spec_one() -> Scalar {
        Scalar { raw: UNIT }
    }

    #[verifier::when_used_as_spec(spec_one)]
    pub fn one() -> (r: Scalar)
        ensures
            r == Self::spec_one(),
    {
        Scalar { raw: UNIT }
    }

    /// The smallest positive value.
    pub open spec fn spec_epsilon() -> Scalar {
        Scalar { raw: 1 }
    }

    #[verifier::when_used_as_spec(spec_epsilon)]
    pub fn epsilon() -> (r: Scalar)
        ensures
            r == Self::spec_epsilon(),
    {
        Scalar { raw: 1 }
    }

    /// The least value.
    pub open spec fn spec_lowest() -> Scalar {
        Scalar { raw: i64::MIN }
    }

    #[verifier::when_used_as_spec(spec_lowest)]
    pub fn lowest() -> (r: Scalar)
        ensures
            r == Self::spec_lowest(),
    {
        Scalar { raw: i64::MIN }
    }

    /// The value with the given raw count of millionths.
    pub open spec fn spec_from_raw(raw: i64) -> Scalar {
        Scalar { raw }
    }

    #[verifier::when_used_as_spec(spec_from_raw)]
    pub fn from_raw(raw: i64) -> (r: Scalar)
        ensures
            r == Self::spec_from_raw(raw),
    {
        Scalar { raw }
    }

    /// The whole number `n`, clamped.
    pub open spec fn spec_from_int(n: i64) -> Scalar {
        Scalar { raw: clamp_raw(n * UNIT) }
    }

    #[verifier::when_used_as_spec(spec_from_int)]
    pub fn from_int(n: i64) -> (r: Scalar)
        ensures
            r == Self::spec_from_int(n),
    {
        Scalar { raw: clamp_wide(scale_wide(n as i128)) }
    }

    /// The count `n` as a whole number, clamped.
    pub open spec fn spec_from_count(n: usize) -> Scalar {
        Scalar { raw: clamp_raw(n * UNIT) }
    }

    #[verifier::when_used_as_spec(spec_from_count)]
    pub fn from_count(n: usize) -> (r: Scalar)
        ensures
            r == Self::spec_from_count(n),
    {
        Scalar { raw: clamp_wide(scale_wide(n as i128)) }
    }

    /// Saturating sum.
    pub open spec fn spec_add(self, rhs: Scalar) -> Scalar {
        Scalar { raw: clamp_raw(self.raw + rhs.raw) }
    }

    #[verifier::when_used_as_spec(spec_add)]
    pub fn add(self, rhs: Scalar) -> (r: Scalar)
        ensures
            r == self.spec_add(rhs),
    {
        Scalar { raw: clamp_wide(self.raw as i128 + rhs.raw as i128) }
    }

    /// Saturating difference.
    pub open spec fn spec_sub(self, rhs: Scalar) -> Scalar {
        Scalar { raw: clamp_raw(self.raw - rhs.raw) }
    }

    #[verifier::when_used_as_spec(spec_sub)]
    pub fn sub(self, rhs: Scalar) -> (r: Scalar)
        ensures
            r == self.spec_sub(rhs),
    {
        Scalar { raw: clamp_wide(self.raw as i128 - rhs.raw as i128) }
    }

    /// Saturating product, truncated toward zero.
    pub open spec fn spec_mul(self, rhs: Scalar) -> Scalar {
        Scalar { raw: clamp_raw(trunc_div(self.raw * rhs.raw, UNIT as int)) }
    }

    #[verifier::when_used_as_spec(spec_mul)]
    pub fn mul(self, rhs: Scalar) -> (r: Scalar)
        ensures
            r == self.spec_mul(rhs),
    {
        let a: i128 = self.raw as i128;
        let b: i128 = rhs.raw as i128;
        assert(-0x4000_0000_0000_0000_0000_0000_0000_0000 <= a * b
            <= 0x4000_0000_0000_0000_0000_0000_0000_0000) by (nonlinear_arith)
            requires
                -0x8000_0000_0000_0000 <= a <= 0x8000_0000_0000_0000,
                -0x8000_0000_0000_0000 <= b <= 0x8000_0000_0000_0000,
        ;
        let p: i128 = a * b;
        Scalar { raw: clamp_wide(trunc_div_wide(p, UNIT as i128)) }
    }

    /// Saturating quotient, truncated toward zero. A quotient by zero is the
    /// bound on the side of the dividend's sign, and zero for zero.
    pub open spec fn spec_div(self, rhs: Scalar) -> Scalar {
        if rhs.raw == 0 {
            if self.raw > 0 {
                Scalar { raw: i64::MAX }
            } else if self.raw < 0 {
                Scalar { raw: i64::MIN }
            } else {
                Scalar { raw: 0 }
            }
        } else {
            Scalar { raw: clamp_raw(trunc_div(self.raw * UNIT, rhs.raw as int)) }
        }
    }

    #[verifier::when_used_as_spec(spec_div)]
    pub fn div(self, rhs: Scalar) -> (r: Scalar)
        ensures
            r == self.spec_div(rhs),
    {
        if rhs.raw == 0 {
            if self.raw > 0 {
                Scalar { raw: i64::MAX }
            } else if self.raw < 0 {
                Scalar { raw: i64::MIN }
            } else {
                Scalar { raw: 0 }
            }
        } else {
            let n: i128 = scale_wide(self.raw as i128);
            Scalar { raw: clamp_wide(trunc_div_wide(n, rhs.raw as i128)) }
        }
    }

    /// The share `self · part / whole`: the product is divided before anything
    /// is cut, so the result is truncated toward zero once, and exact
    /// wherever the exact value is a count of millionths. A share of a zero
    /// whole is the bound on the side of the product's sign, and zero for
    /// zero.
    pub open spec fn spec_mul_div(self, part: Scalar, whole: Scalar) -> Scalar {
        if whole.raw == 0 {
            if self.raw * part.raw > 0 {
                Scalar { raw: i64::MAX }
            } else if self.raw * part.raw < 0 {
                Scalar { raw: i64::MIN }
            } else {
                Scalar { raw: 0 }
            }
        } else {
            Scalar { raw: clamp_raw(trunc_div(self.raw * part.raw, whole.raw as int)) }
        }
    }

    #[verifier::when_used_as_spec(spec_mul_div)]
    pub fn mul_div(self, part: Scalar, whole: Scalar) -> (r: Scalar)
        ensures
            r == self.spec_mul_div(part, whole),
    {
        let a: i128 = self.raw as i128;
        let b: i128 = part.raw as i128;
        assert(-0x4000_0000_0000_0000_0000_0000_0000_0000 <= a * b
            <= 0x4000_0000_0000_0000_0000_0000_0000_0000) by (nonlinear_arith)
            requires
                -0x8000_0000_0000_0000 <= a <= 0x8000_0000_0000_0000,
                -0x8000_0000_0000_0000 <= b <= 0x8000_0000_0000_0000,
        ;
        let p: i128 = a * b;
        if whole.raw == 0 {
            if p > 0 {
                Scalar { raw: i64::MAX }
            } else if p < 0 {
                Scalar { raw: i64::MIN }
            } else {
                Scalar { raw: 0 }
            }
        } else {
            Scalar { raw: clamp_wide(trunc_div_wide(p, whole.raw as i128)) }
        }
    }

    /// The smaller of two values.
    pub open spec fn spec_min(self, rhs: Scalar) -> Scalar {
        if rhs.raw < self.raw {
            rhs
        } else {
            self
        }
    }

    #[verifier::when_used_as_spec(spec_min)]
    pub fn min(self, rhs: Scalar) -> (r: Scalar)
        ensures
            r == self.spec_min(rhs),
    {
        if rhs.raw < self.raw {
            rhs
        } else {
            self
        }
    }

    /// The larger of two values.
    pub open spec fn spec_max(self, rhs: Scalar) -> Scalar {
        if rhs.raw > self.raw {
            rhs
        } else {
            self
        }
    }

    #[verifier::when_used_as_spec(spec_max)]
    pub fn max(self, rhs: Scalar) -> (r: Scalar)
        ensures
            r == self.spec_max(rhs),
    {
        if rhs.raw > self.raw {
            rhs
        } else {
            self
        }
    }

    /// Saturating absolute value.
    pub open spec fn spec_abs(self) -> Scalar {
        if self.raw < 0 {
            Scalar { raw: clamp_raw(-self.raw) }
        } else {
            self
        }
    }

    #[verifier::when_used_as_spec(spec_abs)]
    pub fn abs(self) -> (r: Scalar)
        ensures
            r == self.spec_abs(),
    {
        if self.raw < 0 {
            Scalar { raw: clamp_wide(-(self.raw as i128)) }
        } else {
            self
        }
    }

    /// The nearest whole number, halves away from zero, clamped.
    pub open spec fn spec_round(self) -> Scalar {
        Scalar { raw: clamp_raw(round_units(self.raw as int)) }
    }

    #[verifier::when_used_as_spec(spec_round)]
    pub fn round(self) -> (r: Scalar)
        ensures
            r == self.spec_round(),
    {
        let v: i128 = self.raw as i128;
        if v >= 0 {
            let q: i128 = (v + HALF_UNIT as i128) / (UNIT as i128);
            assert(0 <= q <= 0x8000_0000_0000_0000);
            Scalar { raw: clamp_wide(scale_wide(q)) }
        } else {
            let q: i128 = (-v + HALF_UNIT as i128) / (UNIT as i128);
            assert(0 <= q <= 0x8000_0000_0000_0000);
            Scalar { raw: clamp_wide(-scale_wide(q)) }
        }
    }

    /// Whether the value is below `rhs`.
    pub open spec fn spec_lt(self, rhs: Scalar) -> bool {
        self.raw < rhs.raw
    }

    #[verifier::when_used_as_spec(spec_lt)]
    pub fn lt(self, rhs: Scalar) -> (r: bool)
        ensures
            r == self.spec_lt(rhs),
    {
        self.raw < rhs.raw
    }

    /// Whether the value is above `rhs`.
    pub open spec fn spec_gt(self, rhs: Scalar) -> bool {
        self.raw > rhs.raw
    }

    #[verifier::when_used_as_spec(spec_gt)]
    pub fn gt(self, rhs: Scalar) -> (r: bool)
        ensures
            r == self.spec_gt(rhs),
    {
        self.raw > rhs.raw
    }

    /// Whether the value is a whole number of layout units.
    pub open spec fn is_whole(self) -> bool {
        self.raw as int % (UNIT as int) == 0
    }

    /// Whether free space of this amount is distributed: any amount but zero.
    pub open spec fn spec_is_normal(self) -> bool {
        self.raw != 0
    }

    #[verifier::when_used_as_spec(spec_is_normal)]
    pub fn is_normal(self) -> (r: bool)
        ensures
            r == self.spec_is_normal(),
    {
        self.raw != 0
    }
}

/// Largest magnitude, in raw units, for which sums of a few values stay
/// clear of the bounds.
pub const MODERATE: i64 = 0x1000_0000_0000_0000;

impl Scalar {
    /// Whether the magnitude is at most [`MODERATE`].
    pub open spec fn is_moderate(self) -> bool {
        -MODERATE <= self.raw <= MODERATE
    }
}

/// Rounding a value of moderate size gives a whole number at most half a
/// unit away.
pub proof fn lemma_round_near(a: Scalar)
    requires
        a.is_moderate(),
    ensures
        a.round().is_whole(),
        a.raw - HALF_UNIT <= a.round().raw <= a.raw + HALF_UNIT,
{
    assert(UNIT == 1_000_000 && HALF_UNIT == 500_000);
}

/// Rounding twice is rounding once.
pub proof fn lemma_round_twice(a: Scalar)
    ensures
        a.round().round() == a.round(),
{
    assert(UNIT == 1_000_000 && HALF_UNIT == 500_000);
}

/// The sum and the difference of two whole numbers that stay within the
/// bounds are whole, and exact.
pub proof fn lemma_whole_sum(a: Scalar, b: Scalar)
    requires
        a.is_whole(),
        b.is_whole(),
        i64::MIN <= a.raw + b.raw <= i64::MAX,
        i64::MIN <= a.raw - b.raw <= i64::MAX,
    ensures
        a.add(b).is_whole(),
        a.add(b).raw == a.raw + b.raw,
        a.sub(b).is_whole(),
        a.sub(b).raw == a.raw - b.raw,
{
    assert(UNIT == 1_000_000);
}

} // verus!
