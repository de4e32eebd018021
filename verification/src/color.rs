//! RGB colors with arithmetic compositing and quantized text encoding.
//!
//! Channels are unconstrained fixed-point values: additive mixing may
//! push them below zero or above one, and only the text encoder clamps.
//! Equality is approximate with the looser [`COLOR_MARGIN`].

use crate::decimal::{dec_string, spec_dec};
use crate::fixed::{abs_int, trunc_div, Scalar, COLOR_MARGIN, SCALE};
use vstd::prelude::*;
use vstd::string::StringExecFns;

verus! {

/// Largest channel value of the text format.
pub const CHANNEL_MAX: i64 = 255;

/// An RGB color; each channel is a free fixed-point value.
#[derive(Debug, Clone, Copy)]
pub struct Color {
    pub red: Scalar,
    pub green: Scalar,
    pub blue: Scalar,
}

/// Channel-wise sum.
pub open spec fn spec_add(a: Color, b: Color) -> Color {
    Color {
        red: Scalar { units: (a.red.units + b.red.units) as i64 },
        green: Scalar { units: (a.green.units + b.green.units) as i64 },
        blue: Scalar { units: (a.blue.units + b.blue.units) as i64 },
    }
}

/// The sums of `spec_add` stay inside the unit type.
pub open spec fn spec_add_fits(a: Color, b: Color) -> bool {
    &&& i64::MIN <= a.red.units + b.red.units <= i64::MAX
    &&& i64::MIN <= a.green.units + b.green.units <= i64::MAX
    &&& i64::MIN <= a.blue.units + b.blue.units <= i64::MAX
}

/// Channel-wise difference.
pub open spec fn spec_sub(a: Color, b: Color) -> Color {
    Color {
        red: Scalar { units: (a.red.units - b.red.units) as i64 },
        green: Scalar { units: (a.green.units - b.green.units) as i64 },
        blue: Scalar { units: (a.blue.units - b.blue.units) as i64 },
    }
}

/// The differences of `spec_sub` stay inside the unit type.
pub open spec fn spec_sub_fits(a: Color, b: Color) -> bool {
    &&& i64::MIN <= a.red.units - b.red.units <= i64::MAX
    &&& i64::MIN <= a.green.units - b.green.units <= i64::MAX
    &&& i64::MIN <= a.blue.units - b.blue.units <= i64::MAX
}

/// Channel-wise product with a scalar (brightness adjustment).
pub open spec fn spec_scale(a: Color, s: Scalar) -> Color {
    Color {
        red: Scalar { units: trunc_div(a.red.units * s.units, SCALE as int) as i64 },
        green: Scalar { units: trunc_div(a.green.units * s.units, SCALE as int) as i64 },
        blue: Scalar { units: trunc_div(a.blue.units * s.units, SCALE as int) as i64 },
    }
}

/// The products of `spec_scale` stay inside the unit type.
pub open spec fn spec_scale_fits(a: Color, s: Scalar) -> bool {
    &&& i64::MIN <= trunc_div(a.red.units * s.units, SCALE as int) <= i64::MAX
    &&& i64::MIN <= trunc_div(a.green.units * s.units, SCALE as int) <= i64::MAX
    &&& i64::MIN <= trunc_div(a.blue.units * s.units, SCALE as int) <= i64::MAX
}

/// Channel-wise product of two colors (light filtering).
pub open spec fn spec_multiply(a: Color, b: Color) -> Color {
    Color {
        red: Scalar { units: trunc_div(a.red.units * b.red.units, SCALE as int) as i64 },
        green: Scalar { units: trunc_div(a.green.units * b.green.units, SCALE as int) as i64 },
        blue: Scalar { units: trunc_div(a.blue.units * b.blue.units, SCALE as int) as i64 },
    }
}

/// The products of `spec_multiply` stay inside the unit type.
pub open spec fn spec_multiply_fits(a: Color, b: Color) -> bool {
    &&& i64::MIN <= trunc_div(a.red.units * b.red.units, SCALE as int) <= i64::MAX
    &&& i64::MIN <= trunc_div(a.green.units * b.green.units, SCALE as int) <= i64::MAX
    &&& i64::MIN <= trunc_div(a.blue.units * b.blue.units, SCALE as int) <= i64::MAX
}

/// Approximate equality: every channel differs by less than
/// [`COLOR_MARGIN`] units.
pub open spec fn spec_close(a: Color, b: Color) -> bool {
    &&& abs_int(a.red.units - b.red.units) < COLOR_MARGIN
    &&& abs_int(a.green.units - b.green.units) < COLOR_MARGIN
    &&& abs_int(a.blue.units - b.blue.units) < COLOR_MARGIN
}

/// Quotient of `n / d` rounded to the nearest integer, halves away from
/// zero: the rounding rule of the channel quantizer.
pub open spec fn round_half_div(n: int, d: int) -> int {
    if n >= 0 {
        (2 * n + d) / (2 * d)
    } else {
        -((2 * (-n) + d) / (2 * d))
    }
}

/// A channel quantized for the text format: scaled by the channel
/// maximum, rounded to nearest, clamped to `[0, CHANNEL_MAX]`.
pub open spec fn spec_channel(c: Scalar) -> int {
    let r = round_half_div(c.units * CHANNEL_MAX, SCALE as int);
    if r < 0 {
        0
    } else if r > CHANNEL_MAX {
        CHANNEL_MAX as int
    } else {
        r
    }
}

/// The text of one pixel: three quantized channels separated by single
/// spaces.
pub open spec fn spec_triple(c: Color) -> Seq<char> {
    spec_dec(spec_channel(c.red) as nat) + seq![' '] + spec_dec(spec_channel(c.green) as nat)
        + seq![' '] + spec_dec(spec_channel(c.blue) as nat)
}

/// Relies on `num::clamp`: returns the input if it lies between the
/// bounds, otherwise the nearer bound; panics only when the bounds are
/// inverted, which the contract rules out.
#[verifier::external_body]
fn clamp_i64(value: i64, lo: i64, hi: i64) -> (r: i64)
    requires
        lo <= hi,
    ensures
        r == (if value < lo {
            lo
        } else if value > hi {
            hi
        } else {
            value
        }),
{
    num::clamp(value, lo, hi)
}

/// One channel scaled to `[0, CHANNEL_MAX]`: rounded to the nearest
/// integer, then clamped.
fn channel_value(c: Scalar) -> (v: u64)
    ensures
        v == spec_channel(c),
        0 <= spec_channel(c) <= CHANNEL_MAX,
{
    let wide: i128 = (c.units as i128) * (CHANNEL_MAX as i128);
    let neg: bool = wide < 0;
    let mag: u128 = if neg {
        (-wide) as u128
    } else {
        wide as u128
    };
    let q: u128 = (2 * mag + (SCALE as u128)) / (2 * (SCALE as u128));
    proof {
        vstd::arithmetic::div_mod::lemma_div_is_ordered(
            (2 * mag + SCALE) as int,
            0x8000_0000_0000_0000_0000u128 as int,
            2 * (SCALE as int),
        );
        assert(q < 0x8000_0000_0000_0000u128);
        if neg {
            assert(q == (2 * (-(c.units * CHANNEL_MAX)) + SCALE) / (2 * (SCALE as int)));
        } else {
            assert(q == (2 * (c.units * CHANNEL_MAX) + SCALE) / (2 * (SCALE as int)));
        }
    }
    let rounded: i64 = if neg {
        -(q as i64)
    } else {
        q as i64
    };
    let clamped: i64 = clamp_i64(rounded, 0, CHANNEL_MAX);
    clamped as u64
}

impl Color {
    /// A color from its three channels.
    pub fn new(r: Scalar, g: Scalar, b: Scalar) -> (c: Color)
        ensures
            c.red == r && c.green == g && c.blue == b,
    {
        Color { red: r, green: g, blue: b }
    }

    /// Channel-wise sum: additive light mixing.
    pub fn add(self, rhs: Color) -> (r: Color)
        requires
            spec_add_fits(self, rhs),
        ensures
            r == spec_add(self, rhs),
    {
        Color {
            red: self.red.add(rhs.red),
            green: self.green.add(rhs.green),
            blue: self.blue.add(rhs.blue),
        }
    }

    /// Channel-wise difference.
    pub fn sub(self, rhs: Color) -> (r: Color)
        requires
            spec_sub_fits(self, rhs),
        ensures
            r == spec_sub(self, rhs),
    {
        Color {
            red: self.red.sub(rhs.red),
            green: self.green.sub(rhs.green),
            blue: self.blue.sub(rhs.blue),
        }
    }

    /// Channel-wise product with a scalar: brightness adjustment.
    pub fn scale(self, factor: Scalar) -> (r: Color)
        requires
            spec_scale_fits(self, factor),
        ensures
            r == spec_scale(self, factor),
    {
        Color {
            red: self.red.mul(factor),
            green: self.green.mul(factor),
            blue: self.blue.mul(factor),
        }
    }

    /// Channel-wise product of two colors: light filtering.
    pub fn multiply(self, rhs: Color) -> (r: Color)
        requires
            spec_multiply_fits(self, rhs),
        ensures
            r == spec_multiply(self, rhs),
    {
        Color {
            red: self.red.mul(rhs.red),
            green: self.green.mul(rhs.green),
            blue: self.blue.mul(rhs.blue),
        }
    }

    /// The pixel's text for the image format: three quantized channels
    /// separated by single spaces.
    pub fn to_ppm(&self) -> (s: String)
        ensures
            s@ == spec_triple(*self),
    {
        proof {
            reveal_strlit(" ");
        }
        let r: u64 = channel_value(self.red);
        let g: u64 = channel_value(self.green);
        let b: u64 = channel_value(self.blue);
        let mut s: String = dec_string(r);
        s.append(" ");
        let gs: String = dec_string(g);
        s.append(gs.as_str());
        s.append(" ");
        let bs: String = dec_string(b);
        s.append(bs.as_str());
        proof {
            assert(s@ =~= spec_triple(*self));
        }
        s
    }
}

/// Approximate equality with the color margin: colors compare equal
/// when every channel is within [`COLOR_MARGIN`].
impl PartialEq for Color {
    fn eq(&self, other: &Color) -> (r: bool) {
        self.red.close_to(other.red, COLOR_MARGIN) && self.green.close_to(other.green, COLOR_MARGIN)
            && self.blue.close_to(other.blue, COLOR_MARGIN)
    }
}

impl vstd::std_specs::cmp::PartialEqSpecImpl for Color {
    open spec fn obeys_eq_spec() -> bool {
        true
    }

    open spec fn eq_spec(&self, other: &Color) -> bool {
        spec_close(*self, *other)
    }
}

} // verus!
