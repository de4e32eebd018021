//! Exact fixed-point scalars.
//!
//! Every numeric quantity of the renderer core is a signed count of
//! `1 / SCALE` units.  Arithmetic is exact except where a quotient must be
//! truncated, and there the contract states the truncation precisely, so
//! the behaviour of every operation is pinned down to the unit.
//!
//! The renderer compares quantities up to a tolerance rather than exactly;
//! one comparison routine, [`Scalar::close_to`], is shared by all domains
//! and each domain passes its own margin ([`TUPLE_MARGIN`] for geometry,
//! [`COLOR_MARGIN`] for colors).

use vstd::prelude::*;

verus! {

/// Number of fixed-point units in one whole unit of value.
pub const SCALE: i64 = 100_000_000;

/// Tolerance, in units, for approximate equality of geometric tuples
/// (one part in ten million of a whole unit).
pub const TUPLE_MARGIN: i64 = 10;

/// Tolerance, in units, for approximate equality of colors
/// (one part in a million of a whole unit).
pub const COLOR_MARGIN: i64 = 100;

/// Absolute value of a mathematical integer.
pub open spec fn abs_int(n: int) -> int {
    if n >= 0 {
        n
    } else {
        -n
    }
}

/// Quotient of `n / d` rounded toward zero, the rounding rule of every
/// fixed-point product and quotient in this crate.
pub open spec fn trunc_div(n: int, d: int) -> int {
    if (n >= 0) == (d >= 0) {
        abs_int(n) / abs_int(d)
    } else {
        -(abs_int(n) / abs_int(d))
    }
}

/// Truncating division commutes with negation of the dividend.
pub proof fn lemma_trunc_div_neg(n: int, d: int)
    requires
        d != 0,
    ensures
        trunc_div(-n, d) == -trunc_div(n, d),
{
    assert(abs_int(-n) == abs_int(n));
    if n == 0 {
        assert(abs_int(n) / abs_int(d) == 0) by {
            vstd::arithmetic::div_mod::lemma_basic_div(abs_int(n), abs_int(d));
        }
    }
}

/// Largest integer whose square is at most `n`.
pub open spec fn sqrt_floor(n: nat) -> nat
    decreases n,
{
    if n == 0 {
        0
    } else {
        let half = 2 * sqrt_floor(n / 4);
        if (half + 1) * (half + 1) <= n {
            half + 1
        } else {
            half
        }
    }
}

/// `sqrt_floor(n)` is exactly the rounded-down square root of `n`.
pub proof fn lemma_sqrt_floor_bounds(n: nat)
    ensures
        sqrt_floor(n) * sqrt_floor(n) <= n,
        n < (sqrt_floor(n) + 1) * (sqrt_floor(n) + 1),
    decreases n,
{
    let s = sqrt_floor(n);
    if n == 0 {
        assert(s == 0);
        assert(n < (s + 1) * (s + 1)) by (nonlinear_arith)
            requires
                s == 0,
                n == 0,
        ;
    } else {
        lemma_sqrt_floor_bounds(n / 4);
        let r0 = sqrt_floor(n / 4);
        let half = 2 * r0;
        assert(4 * (n / 4) <= n && n <= 4 * (n / 4) + 3);
        assert(half * half <= 4 * (n / 4)) by (nonlinear_arith)
            requires
                r0 * r0 <= n / 4,
                half == 2 * r0,
        ;
        assert(n < (half + 2) * (half + 2)) by (nonlinear_arith)
            requires
                n / 4 < (r0 + 1) * (r0 + 1),
                n <= 4 * (n / 4) + 3,
                half == 2 * r0,
        ;
        if (half + 1) * (half + 1) <= n {
            assert(s == half + 1);
            assert(s * s <= n && n < (s + 1) * (s + 1)) by (nonlinear_arith)
                requires
                    s == half + 1,
                    (half + 1) * (half + 1) <= n,
                    n < (half + 2) * (half + 2),
            ;
        } else {
            assert(s == half);
            assert(s * s <= n && n < (s + 1) * (s + 1)) by (nonlinear_arith)
                requires
                    s == half,
                    half * half <= 4 * (n / 4),
                    4 * (n / 4) <= n,
                    !((half + 1) * (half + 1) <= n),
            ;
        }
    }
}

/// Only one integer is bracketed this way, so any computed root equals
/// `sqrt_floor`.
pub proof fn lemma_sqrt_floor_unique(n: nat, r: nat)
    requires
        r * r <= n,
        n < (r + 1) * (r + 1),
    ensures
        r == sqrt_floor(n),
{
    lemma_sqrt_floor_bounds(n);
    let s = sqrt_floor(n);
    if r < s {
        assert(false) by (nonlinear_arith)
            requires
                r < s,
                s * s <= n,
                n < (r + 1) * (r + 1),
        ;
    } else if s < r {
        assert(false) by (nonlinear_arith)
            requires
                s < r,
                r * r <= n,
                n < (s + 1) * (s + 1),
        ;
    }
}

/// A signed fixed-point number: `units / SCALE` in value.
#[derive(Debug, Clone, Copy, PartialEq, Eq, Structural)]
pub struct Scalar {
    pub units: i64,
}

impl Scalar {
    /// The zero scalar.
    pub fn zero() -> (r: Scalar)
        ensures
            r.units == 0,
    {
        Scalar { units: 0 }
    }

    /// A scalar from a raw count of fixed-point units.
    pub fn from_units(units: i64) -> (r: Scalar)
        ensures
            r.units == units,
    {
        Scalar { units }
    }

    /// The scalar holding the whole number `n`.
    pub fn from_int(n: i64) -> (r: Scalar)
        requires
            i64::MIN <= n * SCALE <= i64::MAX,
        ensures
            r.units == n * SCALE,
    {
        Scalar { units: n * SCALE }
    }

    /// The scalar nearest `n / d` toward zero; exact whenever `d` divides
    /// `n * SCALE`, in particular for every decimal fraction of at most
    /// eight digits.
    pub fn from_ratio(n: i64, d: i64) -> (r: Scalar)
        requires
            d != 0,
            i64::MIN <= trunc_div(n * SCALE, d as int) <= i64::MAX,
        ensures
            r.units == trunc_div(n * SCALE, d as int),
    {
        let wide: i128 = (n as i128) * (SCALE as i128);
        let q: i128 = div_trunc_i128(wide, d as i128);
        Scalar { units: q as i64 }
    }

    /// Exact sum.
    pub fn add(self, rhs: Scalar) -> (r: Scalar)
        requires
            i64::MIN <= self.units + rhs.units <= i64::MAX,
        ensures
            r.units == self.units + rhs.units,
    {
        Scalar { units: self.units + rhs.units }
    }

    /// Exact difference.
    pub fn sub(self, rhs: Scalar) -> (r: Scalar)
        requires
            i64::MIN <= self.units - rhs.units <= i64::MAX,
        ensures
            r.units == self.units - rhs.units,
    {
        Scalar { units: self.units - rhs.units }
    }

    /// Exact negation.
    pub fn neg(self) -> (r: Scalar)
        requires
            self.units != i64::MIN,
        ensures
            r.units == -self.units,
    {
        Scalar { units: -self.units }
    }

    /// Product, truncated toward zero at the last fixed-point unit.
    pub fn mul(self, rhs: Scalar) -> (r: Scalar)
        requires
            i64::MIN <= trunc_div(self.units * rhs.units, SCALE as int) <= i64::MAX,
        ensures
            r.units == trunc_div(self.units * rhs.units, SCALE as int),
    {
        let wide: i128 = mul_i64_wide(self.units, rhs.units);
        proof {
            assert(wide > i128::MIN) by (nonlinear_arith)
                requires
                    wide == self.units * rhs.units,
                    i64::MIN <= self.units <= i64::MAX,
                    i64::MIN <= rhs.units <= i64::MAX,
            ;
        }
        let q: i128 = div_trunc_i128(wide, SCALE as i128);
        Scalar { units: q as i64 }
    }

    /// Quotient, truncated toward zero at the last fixed-point unit.
    /// Division by zero is ruled out by contract: the fixed-point domain
    /// has no infinities to return.
    pub fn div(self, rhs: Scalar) -> (r: Scalar)
        requires
            rhs.units != 0,
            i64::MIN <= trunc_div(self.units * SCALE, rhs.units as int) <= i64::MAX,
        ensures
            r.units == trunc_div(self.units * SCALE, rhs.units as int),
    {
        let wide: i128 = (self.units as i128) * (SCALE as i128);
        let q: i128 = div_trunc_i128(wide, rhs.units as i128);
        Scalar { units: q as i64 }
    }

    /// Rounded-down square root.  Because a value's unit count is its
    /// value times `SCALE`, the root of `units * SCALE` is again a unit
    /// count, so no further scaling correction is needed.
    pub fn sqrt(self) -> (r: Scalar)
        requires
            self.units >= 0,
        ensures
            r.units == sqrt_floor((self.units * SCALE) as nat),
            r.units >= 0,
    {
        let wide: u128 = (self.units as u128) * (SCALE as u128);
        let root: u128 = isqrt_u128(wide);
        proof {
            lemma_sqrt_floor_unique(wide as nat, root as nat);
            assert(root < 0x8000_0000_0000_0000) by (nonlinear_arith)
                requires
                    root * root <= wide,
                    wide < 0x8000_0000_0000_0000 * 0x8000_0000_0000_0000,
            ;
        }
        Scalar { units: root as i64 }
    }

    /// Whether `self` and `rhs` differ by less than `margin` units: the
    /// one tolerance comparison shared by tuples and colors.
    pub fn close_to(self, rhs: Scalar, margin: i64) -> (r: bool)
        ensures
            r == (abs_int(self.units - rhs.units) < margin),
    {
        let diff: i128 = (self.units as i128) - (rhs.units as i128);
        let mag: i128 = if diff < 0 {
            -diff
        } else {
            diff
        };
        mag < (margin as i128)
    }
}

/// Exact product of two `i64` values, in the wider `i128`.
pub(crate) fn mul_i64_wide(a: i64, b: i64) -> (r: i128)
    ensures
        r == a * b,
{
    proof {
        assert(i128::MIN <= a * b <= i128::MAX) by (nonlinear_arith)
            requires
                i64::MIN <= a <= i64::MAX,
                i64::MIN <= b <= i64::MAX,
        ;
    }
    (a as i128) * (b as i128)
}

/// Exact square of an `i64`, in the unsigned wide type.
pub(crate) fn square_to_u128(a: i64) -> (r: u128)
    ensures
        r == a * a,
{
    let w: i128 = a as i128;
    let m: u128 = if w < 0 {
        (-w) as u128
    } else {
        w as u128
    };
    proof {
        assert(m == a || m == -a);
        assert(m * m == a * a) by (nonlinear_arith)
            requires
                m == a || m == -a,
        ;
        assert(m * m <= u128::MAX) by (nonlinear_arith)
            requires
                m <= 0x8000_0000_0000_0000u128,
        ;
    }
    m * m
}

/// Rounded-down square root of a `u128`, by binary search on the root.
pub(crate) fn isqrt_u128(n: u128) -> (r: u128)
    ensures
        r * r <= n,
        n < (r + 1) * (r + 1),
{
    let mut lo: u128 = 0;
    let mut hi: u128 = 0x1_0000_0000_0000_0000;
    while hi - lo > 1
        invariant
            lo < hi,
            hi <= 0x1_0000_0000_0000_0000,
            lo * lo <= n,
            n < hi * hi,
        decreases hi - lo,
    {
        let mid: u128 = lo + (hi - lo) / 2;
        proof {
            assert(mid * mid <= u128::MAX) by (nonlinear_arith)
                requires
                    mid < 0x1_0000_0000_0000_0000,
            ;
        }
        let sq: u128 = mid * mid;
        if sq <= n {
            lo = mid;
        } else {
            hi = mid;
        }
    }
    lo
}

/// Quotient of `n / d` truncated toward zero, computed on magnitudes so
/// that only unsigned machine division is needed.
pub(crate) fn div_trunc_i128(n: i128, d: i128) -> (q: i128)
    requires
        d != 0,
        n > i128::MIN,
        d > i128::MIN,
    ensures
        q == trunc_div(n as int, d as int),
{
    let neg: bool = (n < 0) != (d < 0);
    let pn: u128 = if n < 0 {
        (-n) as u128
    } else {
        n as u128
    };
    let pd: u128 = if d < 0 {
        (-d) as u128
    } else {
        d as u128
    };
    let q: u128 = pn / pd;
    proof {
        assert(pn == abs_int(n as int));
        assert(pd == abs_int(d as int));
        assert(q == abs_int(n as int) / abs_int(d as int));
        vstd::arithmetic::div_mod::lemma_div_nonincreasing(pn as int, pd as int);
        assert(q <= pn);
    }
    if neg {
        -(q as i128)
    } else {
        q as i128
    }
}

} // verus!
