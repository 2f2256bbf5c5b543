//! A color-gradient rasterization engine.
//!
//! Colors live in HSLA space and gradients map every pixel of a canvas to an
//! interpolated color between two bracketing color stops.  All quantities are
//! fixed-point integers: a channel or percentage value of `SCALE` stands for
//! the real number 1.0, and geometry is carried in half-pixel units so that
//! the midpoints of canvas sides are exact.

use vstd::prelude::*;

pub mod color;
pub mod geometry;
pub mod gradient;

pub use color::Hsla;
pub use color::hsla;
pub use geometry::AngleOrCorner;
pub use geometry::GradientSide;
pub use geometry::Point;
pub use gradient::ColorStop;
pub use gradient::Gradient;
pub use gradient::GradientError;
pub use gradient::GradientType;
pub use gradient::color_stop;

verus! {

/// Fixed-point unit: this value stands for the real number 1.0 in color
/// channels, stop percentages and projection parameters.
pub const SCALE: i64 = 600_000;

/// Clamp a fixed-point value into the unit interval `[0, SCALE]`.
pub open spec fn clamp_unit_spec(x: int) -> int {
    if x < 0 {
        0
    } else if x > SCALE {
        SCALE as int
    } else {
        x
    }
}

/// Clamp a fixed-point value into the unit interval `[0, SCALE]`.
pub fn clamp_unit(x: i64) -> (r: i64)
    ensures
        r == clamp_unit_spec(x as int),
{
    if x < 0 {
        0
    } else if x > SCALE {
        SCALE
    } else {
        x
    }
}

/// Floor division by a positive divisor: the result agrees with mathematical
/// (Euclidean) division even when the dividend is negative.
pub fn div_floor(num: i64, den: i64) -> (q: i64)
    requires
        0 < den <= 100_000_000_000_000,
        -9_000_000_000_000_000_000 <= num <= 9_000_000_000_000_000_000,
    ensures
        q == num as int / den as int,
        num >= 0 ==> 0 <= q <= num,
        num < 0 ==> num <= q <= 0,
{
    if num >= 0 {
        proof {
            vstd::arithmetic::div_mod::lemma_div_pos_is_pos(num as int, den as int);
            vstd::arithmetic::div_mod::lemma_div_nonincreasing(num as int, den as int);
        }
        num / den
    } else {
        let m: i64 = -num;
        let q1: i64 = (m + den - 1) / den;
        proof {
            let x: int = m + den - 1;
            let d: int = den as int;
            vstd::arithmetic::div_mod::lemma_fundamental_div_mod(x, d);
            vstd::arithmetic::div_mod::lemma_mod_pos_bound(x, d);
            let r: int = x % d;
            assert(num == (-(q1 as int)) * d + (d - 1 - r)) by {
                assert(x == d * (q1 as int) + r);
                assert((-(q1 as int)) * d == -(d * (q1 as int))) by (nonlinear_arith);
            }
            vstd::arithmetic::div_mod::lemma_fundamental_div_mod_converse(
                num as int,
                d,
                -(q1 as int),
                d - 1 - r,
            );
            assert(0 <= q1 && q1 <= m) by {
                vstd::arithmetic::div_mod::lemma_div_pos_is_pos(x, d);
                assert(x <= (m as int) * d) by (nonlinear_arith)
                    requires
                        x == m + d - 1,
                        m >= 1,
                        d >= 1,
                ;
                vstd::arithmetic::div_mod::lemma_div_is_ordered(x, (m as int) * d, d);
                assert((m as int) * d == d * (m as int));
                vstd::arithmetic::div_mod::lemma_div_multiples_vanish(m as int, d);
            }
        }
        -q1
    }
}

} // verus!
