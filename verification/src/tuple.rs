//! Homogeneous-coordinate tuples: points (`w == 1`) and vectors (`w == 0`)
//! unified under one four-component value type.
//!
//! Every operation returns a new value; nothing is mutated.  Equality is
//! approximate, with the tight geometric margin [`TUPLE_MARGIN`]; the
//! point/vector discriminator tests `w` exactly, because `w` is a
//! definitional flag rather than a measured quantity.

use crate::fixed::{
    abs_int, div_trunc_i128, lemma_sqrt_floor_bounds, lemma_sqrt_floor_unique,
    lemma_trunc_div_neg, isqrt_u128, mul_i64_wide, sqrt_floor, square_to_u128, trunc_div, Scalar,
    SCALE, TUPLE_MARGIN,
};
use vstd::prelude::*;

verus! {

/// Unit counts of a component stay below this limit so that sums of four
/// squared components fit the wide machine integers.
pub const COMPONENT_LIMIT: i64 = 0x4000_0000_0000_0000;

/// A four-component homogeneous coordinate.
#[derive(Debug, Clone, Copy)]
pub struct Tuple {
    pub x: Scalar,
    pub y: Scalar,
    pub z: Scalar,
    pub w: Scalar,
}

/// All four components are within the machine limit of the wide
/// arithmetic used by `magnitude`, `normalize`, `dot` and `cross`.
pub open spec fn spec_bounded(t: Tuple) -> bool {
    &&& abs_int(t.x.units as int) < COMPONENT_LIMIT
    &&& abs_int(t.y.units as int) < COMPONENT_LIMIT
    &&& abs_int(t.z.units as int) < COMPONENT_LIMIT
    &&& abs_int(t.w.units as int) < COMPONENT_LIMIT
}

/// Component-wise sum.
pub open spec fn spec_add(a: Tuple, b: Tuple) -> Tuple {
    Tuple {
        x: Scalar { units: (a.x.units + b.x.units) as i64 },
        y: Scalar { units: (a.y.units + b.y.units) as i64 },
        z: Scalar { units: (a.z.units + b.z.units) as i64 },
        w: Scalar { units: (a.w.units + b.w.units) as i64 },
    }
}

/// The sums of `spec_add` stay inside the unit type.
pub open spec fn spec_add_fits(a: Tuple, b: Tuple) -> bool {
    &&& i64::MIN <= a.x.units + b.x.units <= i64::MAX
    &&& i64::MIN <= a.y.units + b.y.units <= i64::MAX
    &&& i64::MIN <= a.z.units + b.z.units <= i64::MAX
    &&& i64::MIN <= a.w.units + b.w.units <= i64::MAX
}

/// Component-wise difference.
pub open spec fn spec_sub(a: Tuple, b: Tuple) -> Tuple {
    Tuple {
        x: Scalar { units: (a.x.units - b.x.units) as i64 },
        y: Scalar { units: (a.y.units - b.y.units) as i64 },
        z: Scalar { units: (a.z.units - b.z.units) as i64 },
        w: Scalar { units: (a.w.units - b.w.units) as i64 },
    }
}

/// The differences of `spec_sub` stay inside the unit type.
pub open spec fn spec_sub_fits(a: Tuple, b: Tuple) -> bool {
    &&& i64::MIN <= a.x.units - b.x.units <= i64::MAX
    &&& i64::MIN <= a.y.units - b.y.units <= i64::MAX
    &&& i64::MIN <= a.z.units - b.z.units <= i64::MAX
    &&& i64::MIN <= a.w.units - b.w.units <= i64::MAX
}

/// Component-wise negation, `w` included.
pub open spec fn spec_negate(a: Tuple) -> Tuple {
    Tuple {
        x: Scalar { units: (-a.x.units) as i64 },
        y: Scalar { units: (-a.y.units) as i64 },
        z: Scalar { units: (-a.z.units) as i64 },
        w: Scalar { units: (-a.w.units) as i64 },
    }
}

/// No component sits at the asymmetric lower end of the unit type.
pub open spec fn spec_negate_fits(a: Tuple) -> bool {
    &&& a.x.units != i64::MIN
    &&& a.y.units != i64::MIN
    &&& a.z.units != i64::MIN
    &&& a.w.units != i64::MIN
}

/// Component-wise product with a scalar, `w` included.
pub open spec fn spec_scale(a: Tuple, s: Scalar) -> Tuple {
    Tuple {
        x: Scalar { units: trunc_div(a.x.units * s.units, SCALE as int) as i64 },
        y: Scalar { units: trunc_div(a.y.units * s.units, SCALE as int) as i64 },
        z: Scalar { units: trunc_div(a.z.units * s.units, SCALE as int) as i64 },
        w: Scalar { units: trunc_div(a.w.units * s.units, SCALE as int) as i64 },
    }
}

/// The products of `spec_scale` stay inside the unit type.
pub open spec fn spec_scale_fits(a: Tuple, s: Scalar) -> bool {
    &&& i64::MIN <= trunc_div(a.x.units * s.units, SCALE as int) <= i64::MAX
    &&& i64::MIN <= trunc_div(a.y.units * s.units, SCALE as int) <= i64::MAX
    &&& i64::MIN <= trunc_div(a.z.units * s.units, SCALE as int) <= i64::MAX
    &&& i64::MIN <= trunc_div(a.w.units * s.units, SCALE as int) <= i64::MAX
}

/// Component-wise quotient by a scalar, `w` included.
pub open spec fn spec_div_by(a: Tuple, s: Scalar) -> Tuple {
    Tuple {
        x: Scalar { units: trunc_div(a.x.units * SCALE, s.units as int) as i64 },
        y: Scalar { units: trunc_div(a.y.units * SCALE, s.units as int) as i64 },
        z: Scalar { units: trunc_div(a.z.units * SCALE, s.units as int) as i64 },
        w: Scalar { units: trunc_div(a.w.units * SCALE, s.units as int) as i64 },
    }
}

/// The quotients of `spec_div_by` stay inside the unit type.
pub open spec fn spec_div_fits(a: Tuple, s: Scalar) -> bool {
    &&& i64::MIN <= trunc_div(a.x.units * SCALE, s.units as int) <= i64::MAX
    &&& i64::MIN <= trunc_div(a.y.units * SCALE, s.units as int) <= i64::MAX
    &&& i64::MIN <= trunc_div(a.z.units * SCALE, s.units as int) <= i64::MAX
    &&& i64::MIN <= trunc_div(a.w.units * SCALE, s.units as int) <= i64::MAX
}

/// Sum of the squared unit counts of all four components.
pub open spec fn spec_sumsq(t: Tuple) -> int {
    t.x.units * t.x.units + t.y.units * t.y.units + t.z.units * t.z.units + t.w.units
        * t.w.units
}

/// Euclidean norm over all four components, rounded down to the unit.
pub open spec fn spec_magnitude(t: Tuple) -> Scalar {
    Scalar { units: sqrt_floor(spec_sumsq(t) as nat) as i64 }
}

/// Every component divided by the magnitude.
pub open spec fn spec_normalize(t: Tuple) -> Tuple {
    spec_div_by(t, spec_magnitude(t))
}

/// Sum of the pairwise component products, before the fixed-point rescale.
pub open spec fn spec_dotsum(a: Tuple, b: Tuple) -> int {
    a.x.units * b.x.units + a.y.units * b.y.units + a.z.units * b.z.units + a.w.units
        * b.w.units
}

/// Dot product over all four components.
pub open spec fn spec_dot(a: Tuple, b: Tuple) -> Scalar {
    Scalar { units: trunc_div(spec_dotsum(a, b), SCALE as int) as i64 }
}

/// Three-dimensional cross product of the `x`, `y`, `z` parts; the result
/// is always a vector, whatever `w` the operands carry.
pub open spec fn spec_cross(a: Tuple, b: Tuple) -> Tuple {
    Tuple {
        x: Scalar {
            units: trunc_div(a.y.units * b.z.units - a.z.units * b.y.units, SCALE as int) as i64,
        },
        y: Scalar {
            units: trunc_div(a.z.units * b.x.units - a.x.units * b.z.units, SCALE as int) as i64,
        },
        z: Scalar {
            units: trunc_div(a.x.units * b.y.units - a.y.units * b.x.units, SCALE as int) as i64,
        },
        w: Scalar { units: 0 },
    }
}

/// The rescaled components of `spec_cross` stay inside the unit type.
pub open spec fn spec_cross_fits(a: Tuple, b: Tuple) -> bool {
    &&& i64::MIN <= trunc_div(a.y.units * b.z.units - a.z.units * b.y.units, SCALE as int)
        <= i64::MAX
    &&& i64::MIN <= trunc_div(a.z.units * b.x.units - a.x.units * b.z.units, SCALE as int)
        <= i64::MAX
    &&& i64::MIN <= trunc_div(a.x.units * b.y.units - a.y.units * b.x.units, SCALE as int)
        <= i64::MAX
}

/// Approximate equality: every component differs by less than
/// [`TUPLE_MARGIN`] units.
pub open spec fn spec_close(a: Tuple, b: Tuple) -> bool {
    &&& abs_int(a.x.units - b.x.units) < TUPLE_MARGIN
    &&& abs_int(a.y.units - b.y.units) < TUPLE_MARGIN
    &&& abs_int(a.z.units - b.z.units) < TUPLE_MARGIN
    &&& abs_int(a.w.units - b.w.units) < TUPLE_MARGIN
}

impl Tuple {
    /// A point: `w` is exactly one.
    pub fn point(x: Scalar, y: Scalar, z: Scalar) -> (r: Tuple)
        ensures
            r.x == x && r.y == y && r.z == z,
            r.w.units == SCALE,
    {
        Tuple { x, y, z, w: Scalar::from_units(SCALE) }
    }

    /// A vector: `w` is exactly zero.
    pub fn vector(x: Scalar, y: Scalar, z: Scalar) -> (r: Tuple)
        ensures
            r.x == x && r.y == y && r.z == z,
            r.w.units == 0,
    {
        Tuple { x, y, z, w: Scalar::from_units(0) }
    }

    /// Exact test of the vector flag `w == 0`.
    pub fn is_vector(&self) -> (r: bool)
        ensures
            r == (self.w.units == 0),
    {
        self.w.units == 0
    }

    /// Exact test of the point flag `w == 1`.
    pub fn is_point(&self) -> (r: bool)
        ensures
            r == (self.w.units == SCALE),
    {
        self.w.units == SCALE
    }

    /// Component-wise sum, `w` included, so point + vector is a point.
    pub fn add(self, rhs: Tuple) -> (r: Tuple)
        requires
            spec_add_fits(self, rhs),
        ensures
            r == spec_add(self, rhs),
    {
        Tuple {
            x: self.x.add(rhs.x),
            y: self.y.add(rhs.y),
            z: self.z.add(rhs.z),
            w: self.w.add(rhs.w),
        }
    }

    /// Component-wise difference, `w` included, so point - point is a
    /// vector.
    pub fn sub(self, rhs: Tuple) -> (r: Tuple)
        requires
            spec_sub_fits(self, rhs),
        ensures
            r == spec_sub(self, rhs),
    {
        Tuple {
            x: self.x.sub(rhs.x),
            y: self.y.sub(rhs.y),
            z: self.z.sub(rhs.z),
            w: self.w.sub(rhs.w),
        }
    }

    /// The zero vector minus `self`.
    pub fn negate(self) -> (r: Tuple)
        requires
            spec_negate_fits(self),
        ensures
            r == spec_negate(self),
    {
        let zero = Tuple::vector(Scalar::zero(), Scalar::zero(), Scalar::zero());
        zero.sub(self)
    }

    /// Component-wise product with a scalar.
    pub fn mul(self, factor: Scalar) -> (r: Tuple)
        requires
            spec_scale_fits(self, factor),
        ensures
            r == spec_scale(self, factor),
    {
        Tuple {
            x: self.x.mul(factor),
            y: self.y.mul(factor),
            z: self.z.mul(factor),
            w: self.w.mul(factor),
        }
    }

    /// Component-wise quotient by a scalar.
    pub fn div(self, divisor: Scalar) -> (r: Tuple)
        requires
            divisor.units != 0,
            spec_div_fits(self, divisor),
        ensures
            r == spec_div_by(self, divisor),
    {
        Tuple {
            x: self.x.div(divisor),
            y: self.y.div(divisor),
            z: self.z.div(divisor),
            w: self.w.div(divisor),
        }
    }

    /// Euclidean norm over all four components; for a vector this is the
    /// three-dimensional length.
    pub fn magnitude(&self) -> (r: Scalar)
        requires
            spec_bounded(*self),
        ensures
            r == spec_magnitude(*self),
            r.units >= 0,
    {
        let sx: u128 = square_to_u128(self.x.units);
        let sy: u128 = square_to_u128(self.y.units);
        let sz: u128 = square_to_u128(self.z.units);
        let sw: u128 = square_to_u128(self.w.units);
        proof {
            lemma_square_below_quarter(self.x.units as int, sx as int);
            lemma_square_below_quarter(self.y.units as int, sy as int);
            lemma_square_below_quarter(self.z.units as int, sz as int);
            lemma_square_below_quarter(self.w.units as int, sw as int);
        }
        let sum: u128 = sx + sy + sz + sw;
        let root: u128 = isqrt_u128(sum);
        proof {
            lemma_sqrt_floor_unique(sum as nat, root as nat);
            assert(root < 0x8000_0000_0000_0000) by (nonlinear_arith)
                requires
                    root * root <= sum,
                    sum < 0x4000_0000_0000_0000_0000_0000_0000_0000u128,
            ;
        }
        Scalar { units: root as i64 }
    }

    /// Every component divided by the norm; undefined for the zero tuple,
    /// which the contract rules out.
    pub fn normalize(&self) -> (r: Tuple)
        requires
            spec_bounded(*self),
            spec_sumsq(*self) != 0,
        ensures
            r == spec_normalize(*self),
    {
        proof {
            lemma_sumsq_nonneg(*self);
        }
        let mag: Scalar = self.magnitude();
        proof {
            let xs = self.x.units as int;
            let ys = self.y.units as int;
            let zs = self.z.units as int;
            let ws = self.w.units as int;
            let ss = spec_sumsq(*self);
            lemma_magnitude_units(*self);
            let m = mag.units as int;
            assert(m >= 1) by (nonlinear_arith)
                requires
                    m >= 0,
                    ss < (m + 1) * (m + 1),
                    ss >= 1,
            ;
            lemma_square_le_sum(xs, ys, zs, ws, ss);
            lemma_square_le_sum(ys, xs, zs, ws, ss);
            lemma_square_le_sum(zs, xs, ys, ws, ss);
            lemma_square_le_sum(ws, xs, ys, zs, ss);
            lemma_component_quotient_fits(xs, ss, m);
            lemma_component_quotient_fits(ys, ss, m);
            lemma_component_quotient_fits(zs, ss, m);
            lemma_component_quotient_fits(ws, ss, m);
        }
        self.div(mag)
    }

    /// Dot product: the sum of all four pairwise component products.
    pub fn dot(&self, other: Tuple) -> (r: Scalar)
        requires
            spec_bounded(*self),
            spec_bounded(other),
            i64::MIN <= trunc_div(spec_dotsum(*self, other), SCALE as int) <= i64::MAX,
        ensures
            r == spec_dot(*self, other),
    {
        let px: i128 = mul_i64_wide(self.x.units, other.x.units);
        let py: i128 = mul_i64_wide(self.y.units, other.y.units);
        let pz: i128 = mul_i64_wide(self.z.units, other.z.units);
        let pw: i128 = mul_i64_wide(self.w.units, other.w.units);
        proof {
            lemma_product_below_quarter(self.x.units as int, other.x.units as int, px as int);
            lemma_product_below_quarter(self.y.units as int, other.y.units as int, py as int);
            lemma_product_below_quarter(self.z.units as int, other.z.units as int, pz as int);
            lemma_product_below_quarter(self.w.units as int, other.w.units as int, pw as int);
        }
        let sum: i128 = px + py + pz + pw;
        let q: i128 = div_trunc_i128(sum, SCALE as i128);
        Scalar { units: q as i64 }
    }

    /// Cross product of the `x`, `y`, `z` parts; always yields a vector
    /// and ignores the `w` of both operands.
    pub fn cross(&self, other: Tuple) -> (r: Tuple)
        requires
            spec_bounded(*self),
            spec_bounded(other),
            spec_cross_fits(*self, other),
        ensures
            r == spec_cross(*self, other),
    {
        let x: Scalar = cross_part(self.y, other.z, self.z, other.y);
        let y: Scalar = cross_part(self.z, other.x, self.x, other.z);
        let z: Scalar = cross_part(self.x, other.y, self.y, other.x);
        Tuple::vector(x, y, z)
    }
}

/// One cross-product component: `a * b - c * d`, rescaled.
fn cross_part(a: Scalar, b: Scalar, c: Scalar, d: Scalar) -> (r: Scalar)
    requires
        abs_int(a.units as int) < COMPONENT_LIMIT,
        abs_int(b.units as int) < COMPONENT_LIMIT,
        abs_int(c.units as int) < COMPONENT_LIMIT,
        abs_int(d.units as int) < COMPONENT_LIMIT,
        i64::MIN <= trunc_div(a.units * b.units - c.units * d.units, SCALE as int) <= i64::MAX,
    ensures
        r.units == trunc_div(a.units * b.units - c.units * d.units, SCALE as int),
{
    let p1: i128 = mul_i64_wide(a.units, b.units);
    let p2: i128 = mul_i64_wide(c.units, d.units);
    proof {
        lemma_product_below_quarter(a.units as int, b.units as int, p1 as int);
        lemma_product_below_quarter(c.units as int, d.units as int, p2 as int);
    }
    let q: i128 = div_trunc_i128(p1 - p2, SCALE as i128);
    Scalar { units: q as i64 }
}

/// A square of a bounded component stays below a quarter of the wide
/// unsigned range.
proof fn lemma_square_below_quarter(a: int, sq: int)
    requires
        sq == a * a,
        abs_int(a) < COMPONENT_LIMIT,
    ensures
        0 <= sq < 0x1000_0000_0000_0000_0000_0000_0000_0000,
{
    assert(0 <= sq < 0x1000_0000_0000_0000_0000_0000_0000_0000) by (nonlinear_arith)
        requires
            sq == a * a,
            -0x4000_0000_0000_0000 < a < 0x4000_0000_0000_0000,
    ;
}

/// A product of two bounded components stays below a quarter of the wide
/// signed range.
proof fn lemma_product_below_quarter(a: int, b: int, p: int)
    requires
        p == a * b,
        abs_int(a) < COMPONENT_LIMIT,
        abs_int(b) < COMPONENT_LIMIT,
    ensures
        -0x1000_0000_0000_0000_0000_0000_0000_0000 < p < 0x1000_0000_0000_0000_0000_0000_0000_0000,
{
    assert(-0x1000_0000_0000_0000_0000_0000_0000_0000 < p
        < 0x1000_0000_0000_0000_0000_0000_0000_0000) by (nonlinear_arith)
        requires
            p == a * b,
            -0x4000_0000_0000_0000 < a < 0x4000_0000_0000_0000,
            -0x4000_0000_0000_0000 < b < 0x4000_0000_0000_0000,
    ;
}

/// A sum of four squares is never negative.
proof fn lemma_sumsq_nonneg(t: Tuple)
    ensures
        spec_sumsq(t) >= 0,
{
    assert(spec_sumsq(t) >= 0) by (nonlinear_arith);
}

/// Any single square is at most the whole sum of four squares.
proof fn lemma_square_le_sum(c: int, o1: int, o2: int, o3: int, s: int)
    requires
        s == c * c + o1 * o1 + o2 * o2 + o3 * o3,
    ensures
        c * c <= s,
{
    assert(c * c <= s) by (nonlinear_arith)
        requires
            s == c * c + o1 * o1 + o2 * o2 + o3 * o3,
    ;
}

/// Each component's unit count is at most the magnitude's, so dividing a
/// component by the magnitude stays within one whole unit.
proof fn lemma_component_quotient_fits(c: int, sumsq: int, m: int)
    requires
        m >= 1,
        c * c <= sumsq,
        sumsq < (m + 1) * (m + 1),
    ensures
        abs_int(trunc_div(c * SCALE, m)) <= SCALE,
        i64::MIN <= trunc_div(c * SCALE, m) <= i64::MAX,
{
    assert(abs_int(c) <= m) by (nonlinear_arith)
        requires
            m >= 1,
            c * c <= sumsq,
            sumsq < (m + 1) * (m + 1),
    ;
    let a = abs_int(c);
    let num = abs_int(c * SCALE);
    assert(num == a * SCALE);
    assert(a * SCALE <= m * SCALE) by (nonlinear_arith)
        requires
            a <= m,
            SCALE > 0,
    ;
    vstd::arithmetic::div_mod::lemma_div_is_ordered(num, m * (SCALE as int), m);
    vstd::arithmetic::div_mod::lemma_div_multiples_vanish(SCALE as int, m);
    assert(num / m <= SCALE);
    assert(trunc_div(c * SCALE, m) == num / m || trunc_div(c * SCALE, m) == -(num / m));
    assert(num / m >= 0) by {
        vstd::arithmetic::div_mod::lemma_div_pos_is_pos(num, m);
    }
}

/// Addition of tuples is commutative.
pub proof fn lemma_add_commutes(a: Tuple, b: Tuple)
    ensures
        spec_add(a, b) == spec_add(b, a),
{
}

/// Subtracting a tuple from itself yields the all-zero tuple: every
/// component, the `w` flag included, cancels exactly.
pub proof fn lemma_sub_self_is_zero(a: Tuple)
    ensures
        spec_sub(a, a) == (Tuple {
            x: Scalar { units: 0 },
            y: Scalar { units: 0 },
            z: Scalar { units: 0 },
            w: Scalar { units: 0 },
        }),
{
}

/// The cross product is anti-commutative: swapping the operands negates
/// every component.
pub proof fn lemma_cross_antisymmetric(a: Tuple, b: Tuple)
    requires
        abs_int(trunc_div(a.y.units * b.z.units - a.z.units * b.y.units, SCALE as int))
            <= i64::MAX,
        abs_int(trunc_div(a.z.units * b.x.units - a.x.units * b.z.units, SCALE as int))
            <= i64::MAX,
        abs_int(trunc_div(a.x.units * b.y.units - a.y.units * b.x.units, SCALE as int))
            <= i64::MAX,
    ensures
        spec_cross(a, b) == spec_negate(spec_cross(b, a)),
{
    let nx = a.y.units * b.z.units - a.z.units * b.y.units;
    let ny = a.z.units * b.x.units - a.x.units * b.z.units;
    let nz = a.x.units * b.y.units - a.y.units * b.x.units;
    assert(b.y.units * a.z.units - b.z.units * a.y.units == -nx) by (nonlinear_arith)
        requires
            nx == a.y.units * b.z.units - a.z.units * b.y.units,
    ;
    assert(b.z.units * a.x.units - b.x.units * a.z.units == -ny) by (nonlinear_arith)
        requires
            ny == a.z.units * b.x.units - a.x.units * b.z.units,
    ;
    assert(b.x.units * a.y.units - b.y.units * a.x.units == -nz) by (nonlinear_arith)
        requires
            nz == a.x.units * b.y.units - a.y.units * b.x.units,
    ;
    lemma_trunc_div_neg(-nx, SCALE as int);
    lemma_trunc_div_neg(-ny, SCALE as int);
    lemma_trunc_div_neg(-nz, SCALE as int);
    assert(trunc_div(nx, SCALE as int) == -trunc_div(-nx, SCALE as int));
    assert(trunc_div(ny, SCALE as int) == -trunc_div(-ny, SCALE as int));
    assert(trunc_div(nz, SCALE as int) == -trunc_div(-nz, SCALE as int));
}

/// The magnitude of a bounded tuple is exactly the rounded-down root of
/// its squared-component sum, read back as a plain integer.
proof fn lemma_magnitude_units(v: Tuple)
    requires
        spec_bounded(v),
    ensures
        spec_magnitude(v).units == sqrt_floor(spec_sumsq(v) as nat),
        spec_magnitude(v).units >= 0,
        spec_magnitude(v).units * spec_magnitude(v).units <= spec_sumsq(v),
        spec_sumsq(v) < (spec_magnitude(v).units + 1) * (spec_magnitude(v).units + 1),
{
    let xs = v.x.units as int;
    let ys = v.y.units as int;
    let zs = v.z.units as int;
    let ws = v.w.units as int;
    let ss = spec_sumsq(v);
    lemma_sumsq_nonneg(v);
    assert(xs * xs < 0x1000_0000_0000_0000_0000_0000_0000_0000) by (nonlinear_arith)
        requires
            -0x4000_0000_0000_0000 < xs < 0x4000_0000_0000_0000,
    ;
    assert(ys * ys < 0x1000_0000_0000_0000_0000_0000_0000_0000) by (nonlinear_arith)
        requires
            -0x4000_0000_0000_0000 < ys < 0x4000_0000_0000_0000,
    ;
    assert(zs * zs < 0x1000_0000_0000_0000_0000_0000_0000_0000) by (nonlinear_arith)
        requires
            -0x4000_0000_0000_0000 < zs < 0x4000_0000_0000_0000,
    ;
    assert(ws * ws < 0x1000_0000_0000_0000_0000_0000_0000_0000) by (nonlinear_arith)
        requires
            -0x4000_0000_0000_0000 < ws < 0x4000_0000_0000_0000,
    ;
    let n = ss as nat;
    lemma_sqrt_floor_bounds(n);
    let s = sqrt_floor(n) as int;
    assert(s < 0x8000_0000_0000_0000) by (nonlinear_arith)
        requires
            s >= 0,
            s * s <= n,
            n < 0x4000_0000_0000_0000_0000_0000_0000_0000,
    ;
}

/// Normalizing any sufficiently long tuple yields a tuple of magnitude
/// one, up to one part in a million: quantization steals less than 100
/// units of [`SCALE`].  Tuples shorter than a fiftieth of a unit carry
/// too few fixed-point digits for the bound and are excluded.
pub proof fn lemma_normalize_unit_magnitude(v: Tuple)
    requires
        spec_bounded(v),
        spec_sumsq(v) != 0,
        50 * spec_magnitude(v).units >= SCALE,
    ensures
        abs_int(spec_magnitude(spec_normalize(v)).units - SCALE) < 100,
{
    let sc = SCALE as int;
    let ss = spec_sumsq(v);
    lemma_sumsq_nonneg(v);
    lemma_magnitude_units(v);
    let m = spec_magnitude(v).units as int;
    assert(m >= 1) by (nonlinear_arith)
        requires
            m >= 0,
            ss < (m + 1) * (m + 1),
            ss >= 1,
    ;
    let c1 = v.x.units as int;
    let c2 = v.y.units as int;
    let c3 = v.z.units as int;
    let c4 = v.w.units as int;
    lemma_square_le_sum(c1, c2, c3, c4, ss);
    lemma_square_le_sum(c2, c1, c3, c4, ss);
    lemma_square_le_sum(c3, c1, c2, c4, ss);
    lemma_square_le_sum(c4, c1, c2, c3, ss);
    lemma_component_quotient_fits(c1, ss, m);
    lemma_component_quotient_fits(c2, ss, m);
    lemma_component_quotient_fits(c3, ss, m);
    lemma_component_quotient_fits(c4, ss, m);
    let a1 = abs_int(c1);
    let a2 = abs_int(c2);
    let a3 = abs_int(c3);
    let a4 = abs_int(c4);
    let q1 = a1 * sc / m;
    let q2 = a2 * sc / m;
    let q3 = a3 * sc / m;
    let q4 = a4 * sc / m;
    let u = spec_normalize(v);
    let t1 = u.x.units as int;
    let t2 = u.y.units as int;
    let t3 = u.z.units as int;
    let t4 = u.w.units as int;
    assert(t1 == trunc_div(c1 * sc, m) && t2 == trunc_div(c2 * sc, m) && t3 == trunc_div(
        c3 * sc,
        m,
    ) && t4 == trunc_div(c4 * sc, m));
    assert(t1 == q1 || t1 == -q1);
    assert(t2 == q2 || t2 == -q2);
    assert(t3 == q3 || t3 == -q3);
    assert(t4 == q4 || t4 == -q4);
    vstd::arithmetic::div_mod::lemma_fundamental_div_mod(a1 * sc, m);
    vstd::arithmetic::div_mod::lemma_fundamental_div_mod(a2 * sc, m);
    vstd::arithmetic::div_mod::lemma_fundamental_div_mod(a3 * sc, m);
    vstd::arithmetic::div_mod::lemma_fundamental_div_mod(a4 * sc, m);
    assert(q1 >= 0 && q2 >= 0 && q3 >= 0 && q4 >= 0) by {
        vstd::arithmetic::div_mod::lemma_div_pos_is_pos(a1 * sc, m);
        vstd::arithmetic::div_mod::lemma_div_pos_is_pos(a2 * sc, m);
        vstd::arithmetic::div_mod::lemma_div_pos_is_pos(a3 * sc, m);
        vstd::arithmetic::div_mod::lemma_div_pos_is_pos(a4 * sc, m);
    }
    assert(q1 * m <= a1 * sc < (q1 + 1) * m) by (nonlinear_arith)
        requires
            a1 * sc == m * q1 + (a1 * sc) % m,
            0 <= (a1 * sc) % m < m,
    ;
    assert(q2 * m <= a2 * sc < (q2 + 1) * m) by (nonlinear_arith)
        requires
            a2 * sc == m * q2 + (a2 * sc) % m,
            0 <= (a2 * sc) % m < m,
    ;
    assert(q3 * m <= a3 * sc < (q3 + 1) * m) by (nonlinear_arith)
        requires
            a3 * sc == m * q3 + (a3 * sc) % m,
            0 <= (a3 * sc) % m < m,
    ;
    assert(q4 * m <= a4 * sc < (q4 + 1) * m) by (nonlinear_arith)
        requires
            a4 * sc == m * q4 + (a4 * sc) % m,
            0 <= (a4 * sc) % m < m,
    ;
    let nn = spec_sumsq(u);
    assert(nn == q1 * q1 + q2 * q2 + q3 * q3 + q4 * q4) by (nonlinear_arith)
        requires
            nn == t1 * t1 + t2 * t2 + t3 * t3 + t4 * t4,
            t1 == q1 || t1 == -q1,
            t2 == q2 || t2 == -q2,
            t3 == q3 || t3 == -q3,
            t4 == q4 || t4 == -q4,
    ;
    // Squared absolute values agree with squared components.
    assert(a1 * a1 == c1 * c1) by (nonlinear_arith)
        requires
            a1 == c1 || a1 == -c1,
    ;
    assert(a2 * a2 == c2 * c2) by (nonlinear_arith)
        requires
            a2 == c2 || a2 == -c2,
    ;
    assert(a3 * a3 == c3 * c3) by (nonlinear_arith)
        requires
            a3 == c3 || a3 == -c3,
    ;
    assert(a4 * a4 == c4 * c4) by (nonlinear_arith)
        requires
            a4 == c4 || a4 == -c4,
    ;
    // Upper bound, per component: (q_i m)^2 <= (a_i sc)^2.
    assert((q1 * q1) * (m * m) <= (a1 * a1) * (sc * sc)) by (nonlinear_arith)
        requires
            q1 * m <= a1 * sc,
            q1 >= 0,
            m >= 1,
    ;
    assert((q2 * q2) * (m * m) <= (a2 * a2) * (sc * sc)) by (nonlinear_arith)
        requires
            q2 * m <= a2 * sc,
            q2 >= 0,
            m >= 1,
    ;
    assert((q3 * q3) * (m * m) <= (a3 * a3) * (sc * sc)) by (nonlinear_arith)
        requires
            q3 * m <= a3 * sc,
            q3 >= 0,
            m >= 1,
    ;
    assert((q4 * q4) * (m * m) <= (a4 * a4) * (sc * sc)) by (nonlinear_arith)
        requires
            q4 * m <= a4 * sc,
            q4 >= 0,
            m >= 1,
    ;
    // Distribute the sums over the common factors.
    assert(nn * (m * m) == (q1 * q1) * (m * m) + (q2 * q2) * (m * m) + (q3 * q3) * (m * m) + (q4
        * q4) * (m * m)) by (nonlinear_arith)
        requires
            nn == q1 * q1 + q2 * q2 + q3 * q3 + q4 * q4,
    ;
    assert(ss * (sc * sc) == (c1 * c1) * (sc * sc) + (c2 * c2) * (sc * sc) + (c3 * c3) * (sc * sc)
        + (c4 * c4) * (sc * sc)) by (nonlinear_arith)
        requires
            ss == c1 * c1 + c2 * c2 + c3 * c3 + c4 * c4,
    ;
    assert(nn * (m * m) <= ss * (sc * sc));
    assert(ss * (sc * sc) < ((m + 1) * (m + 1)) * (sc * sc)) by (nonlinear_arith)
        requires
            ss < (m + 1) * (m + 1),
            sc >= 1,
    ;
    // Bracket the root of nn.
    assert((m + 1) * (m + 1) <= 2 * (m * m) + 2) by (nonlinear_arith)
        requires
            m >= 1,
    ;
    assert(nn >= 0);
    assert(nn <= 4 * (sc * sc)) by (nonlinear_arith)
        requires
            nn * (m * m) <= ss * (sc * sc),
            ss * (sc * sc) < ((m + 1) * (m + 1)) * (sc * sc),
            (m + 1) * (m + 1) <= 2 * (m * m) + 2,
            m >= 1,
            sc >= 1,
            nn >= 0,
    ;
    let nnn = nn as nat;
    lemma_sqrt_floor_bounds(nnn);
    let mm = sqrt_floor(nnn) as int;
    assert(mm >= 0 && mm * mm <= nn && nn < (mm + 1) * (mm + 1));
    assert(mm < 0x8000_0000_0000_0000) by (nonlinear_arith)
        requires
            mm >= 0,
            mm * mm <= nn,
            nn <= 4 * (sc * sc),
            sc == SCALE,
    ;
    assert(spec_magnitude(u).units == mm);
    // From (mm * m)^2 < (sc * (m+1))^2 conclude mm * m < sc * m + sc.
    assert((mm * mm) * (m * m) <= nn * (m * m)) by (nonlinear_arith)
        requires
            mm * mm <= nn,
            m >= 1,
    ;
    assert(mm * m < sc * m + sc) by (nonlinear_arith)
        requires
            (mm * mm) * (m * m) <= nn * (m * m),
            nn * (m * m) <= ss * (sc * sc),
            ss * (sc * sc) < ((m + 1) * (m + 1)) * (sc * sc),
            mm >= 0,
            m >= 1,
            sc >= 1,
    ;
    // mm <= sc + sc/m, and sc/m <= 50.
    let d = sc / m;
    vstd::arithmetic::div_mod::lemma_fundamental_div_mod(sc, m);
    assert(d <= 50) by (nonlinear_arith)
        requires
            sc == m * d + sc % m,
            0 <= sc % m < m,
            50 * m >= sc,
            m >= 1,
            d >= 0,
    ;
    assert(d >= 0) by {
        vstd::arithmetic::div_mod::lemma_div_pos_is_pos(sc, m);
    }
    assert(mm <= sc + d) by (nonlinear_arith)
        requires
            mm * m < sc * m + sc,
            sc == m * d + sc % m,
            0 <= sc % m < m,
            m >= 1,
    ;
    // Lower bound, per component: (a_i sc)^2 < ((q_i + 1) m)^2.
    assert((a1 * a1) * (sc * sc) < ((q1 + 1) * (q1 + 1)) * (m * m)) by (nonlinear_arith)
        requires
            a1 * sc < (q1 + 1) * m,
            a1 >= 0,
            sc >= 1,
    ;
    assert((a2 * a2) * (sc * sc) < ((q2 + 1) * (q2 + 1)) * (m * m)) by (nonlinear_arith)
        requires
            a2 * sc < (q2 + 1) * m,
            a2 >= 0,
            sc >= 1,
    ;
    assert((a3 * a3) * (sc * sc) < ((q3 + 1) * (q3 + 1)) * (m * m)) by (nonlinear_arith)
        requires
            a3 * sc < (q3 + 1) * m,
            a3 >= 0,
            sc >= 1,
    ;
    assert((a4 * a4) * (sc * sc) < ((q4 + 1) * (q4 + 1)) * (m * m)) by (nonlinear_arith)
        requires
            a4 * sc < (q4 + 1) * m,
            a4 >= 0,
            sc >= 1,
    ;
    let qs = q1 + q2 + q3 + q4;
    assert(((q1 + 1) * (q1 + 1)) * (m * m) == (q1 * q1) * (m * m) + 2 * (q1 * (m * m)) + m * m)
        by (nonlinear_arith);
    assert(((q2 + 1) * (q2 + 1)) * (m * m) == (q2 * q2) * (m * m) + 2 * (q2 * (m * m)) + m * m)
        by (nonlinear_arith);
    assert(((q3 + 1) * (q3 + 1)) * (m * m) == (q3 * q3) * (m * m) + 2 * (q3 * (m * m)) + m * m)
        by (nonlinear_arith);
    assert(((q4 + 1) * (q4 + 1)) * (m * m) == (q4 * q4) * (m * m) + 2 * (q4 * (m * m)) + m * m)
        by (nonlinear_arith);
    assert((nn + 2 * qs + 4) * (m * m) == nn * (m * m) + 2 * (q1 * (m * m)) + 2 * (q2 * (m * m))
        + 2 * (q3 * (m * m)) + 2 * (q4 * (m * m)) + 4 * (m * m)) by (nonlinear_arith)
        requires
            qs == q1 + q2 + q3 + q4,
    ;
    assert((nn + 2 * qs + 4) * (m * m) > ss * (sc * sc));
    assert(ss * (sc * sc) >= (m * m) * (sc * sc)) by (nonlinear_arith)
        requires
            ss >= m * m,
            sc >= 1,
    ;
    assert(nn + 2 * qs + 4 > sc * sc) by (nonlinear_arith)
        requires
            (nn + 2 * qs + 4) * (m * m) > (m * m) * (sc * sc),
            m >= 1,
    ;
    // Bound qs through the four-square inequality.
    let t = a1 + a2 + a3 + a4;
    assert(2 * (a1 * a2) <= a1 * a1 + a2 * a2) by (nonlinear_arith);
    assert(2 * (a1 * a3) <= a1 * a1 + a3 * a3) by (nonlinear_arith);
    assert(2 * (a1 * a4) <= a1 * a1 + a4 * a4) by (nonlinear_arith);
    assert(2 * (a2 * a3) <= a2 * a2 + a3 * a3) by (nonlinear_arith);
    assert(2 * (a2 * a4) <= a2 * a2 + a4 * a4) by (nonlinear_arith);
    assert(2 * (a3 * a4) <= a3 * a3 + a4 * a4) by (nonlinear_arith);
    assert(t * t == a1 * a1 + a2 * a2 + a3 * a3 + a4 * a4 + 2 * (a1 * a2) + 2 * (a1 * a3) + 2 * (a1
        * a4) + 2 * (a2 * a3) + 2 * (a2 * a4) + 2 * (a3 * a4)) by (nonlinear_arith)
        requires
            t == a1 + a2 + a3 + a4,
    ;
    assert(t * t <= 4 * ss);
    assert(t <= 2 * (m + 1)) by (nonlinear_arith)
        requires
            t * t <= 4 * ss,
            ss < (m + 1) * (m + 1),
            t >= 0,
            m >= 1,
    ;
    assert(qs * m <= t * sc) by (nonlinear_arith)
        requires
            qs == q1 + q2 + q3 + q4,
            t == a1 + a2 + a3 + a4,
            q1 * m <= a1 * sc,
            q2 * m <= a2 * sc,
            q3 * m <= a3 * sc,
            q4 * m <= a4 * sc,
    ;
    let e = (2 * sc) / m;
    vstd::arithmetic::div_mod::lemma_fundamental_div_mod(2 * sc, m);
    assert(e >= 0) by {
        vstd::arithmetic::div_mod::lemma_div_pos_is_pos(2 * sc, m);
    }
    assert(e <= 100) by (nonlinear_arith)
        requires
            2 * sc == m * e + (2 * sc) % m,
            0 <= (2 * sc) % m < m,
            50 * m >= sc,
            m >= 1,
            e >= 0,
    ;
    assert(qs <= 2 * sc + e) by (nonlinear_arith)
        requires
            qs * m <= t * sc,
            t <= 2 * (m + 1),
            2 * sc == m * e + (2 * sc) % m,
            0 <= (2 * sc) % m < m,
            m >= 1,
            sc >= 1,
    ;
    assert(nn > sc * sc - 4 * sc - 204);
    assert(nn >= (sc - 99) * (sc - 99)) by (nonlinear_arith)
        requires
            nn > sc * sc - 4 * sc - 204,
            sc == SCALE,
    ;
    assert(mm + 1 > sc - 99) by (nonlinear_arith)
        requires
            (mm + 1) * (mm + 1) > nn,
            nn >= (sc - 99) * (sc - 99),
            mm >= 0,
            sc >= 100,
    ;
    assert(abs_int(mm - sc) < 100);
}

/// Approximate equality with the geometric margin: tuples compare
/// equal when every component is within [`TUPLE_MARGIN`].
impl PartialEq for Tuple {
    fn eq(&self, other: &Tuple) -> (r: bool) {
        self.x.close_to(other.x, TUPLE_MARGIN) && self.y.close_to(other.y, TUPLE_MARGIN)
            && self.z.close_to(other.z, TUPLE_MARGIN) && self.w.close_to(other.w, TUPLE_MARGIN)
    }
}

impl vstd::std_specs::cmp::PartialEqSpecImpl for Tuple {
    open spec fn obeys_eq_spec() -> bool {
        true
    }

    open spec fn eq_spec(&self, other: &Tuple) -> bool {
        spec_close(*self, *other)
    }
}

} // verus!
