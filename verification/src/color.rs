//! The color model: HSLA colors in fixed point, linear blending, and the
//! conversion to RGB bytes.

use vstd::prelude::*;

use crate::SCALE;
use crate::clamp_unit;
use crate::clamp_unit_spec;
use crate::div_floor;

verus! {

/// An HSLA color.  Each channel is a fixed-point value in `[0, SCALE]`
/// standing for the real interval `[0, 1]`.
#[derive(Clone, Copy, Debug, PartialEq, Eq, Structural)]
pub struct Hsla {
    /// Hue, in `[0, SCALE]`.
    pub h: i64,
    /// Saturation, in `[0, SCALE]`.
    pub s: i64,
    /// Lightness, in `[0, SCALE]`.
    pub l: i64,
    /// Alpha, in `[0, SCALE]`.
    pub a: i64,
}

/// Every channel lies in the unit interval `[0, SCALE]`.
pub open spec fn hsla_wf(c: Hsla) -> bool {
    &&& 0 <= c.h <= SCALE
    &&& 0 <= c.s <= SCALE
    &&& 0 <= c.l <= SCALE
    &&& 0 <= c.a <= SCALE
}

/// Construct a color, clamping each channel independently into
/// `[0, SCALE]`.  Out-of-range inputs are clamped, never rejected.
pub fn hsla(h: i64, s: i64, l: i64, a: i64) -> (c: Hsla)
    ensures
        c.h == clamp_unit_spec(h as int),
        c.s == clamp_unit_spec(s as int),
        c.l == clamp_unit_spec(l as int),
        c.a == clamp_unit_spec(a as int),
        hsla_wf(c),
{
    Hsla { h: clamp_unit(h), s: clamp_unit(s), l: clamp_unit(l), a: clamp_unit(a) }
}

/// One channel of the linear blend `a*(1-t) + b*t`, in fixed point with
/// floor division.
pub open spec fn interp_channel_spec(a: int, b: int, t: int) -> int {
    (a * (SCALE - t) + b * t) / (SCALE as int)
}

/// The blend of two colors at parameter `t`: each channel blended
/// independently, then clamped into the unit interval as construction does.
pub open spec fn interpolate_spec(a: Hsla, b: Hsla, t: int) -> Hsla {
    Hsla {
        h: clamp_unit_spec(interp_channel_spec(a.h as int, b.h as int, t)) as i64,
        s: clamp_unit_spec(interp_channel_spec(a.s as int, b.s as int, t)) as i64,
        l: clamp_unit_spec(interp_channel_spec(a.l as int, b.l as int, t)) as i64,
        a: clamp_unit_spec(interp_channel_spec(a.a as int, b.a as int, t)) as i64,
    }
}

/// One blended channel, clamped.
fn interp_channel(a: i64, b: i64, t: i64) -> (r: i64)
    requires
        0 <= a <= SCALE,
        0 <= b <= SCALE,
        -(SCALE * SCALE) <= t <= SCALE * SCALE,
    ensures
        r == clamp_unit_spec(interp_channel_spec(a as int, b as int, t as int)),
{
    proof {
        assert(-400_000_000_000_000_000 <= a * (SCALE - t) <= 400_000_000_000_000_000
            && -400_000_000_000_000_000 <= b * t <= 400_000_000_000_000_000)
            by (nonlinear_arith)
            requires
                0 <= a <= SCALE,
                0 <= b <= SCALE,
                -(SCALE * SCALE) <= t <= SCALE * SCALE,
        ;
    }
    let num: i64 = a * (SCALE - t) + b * t;
    let q: i64 = div_floor(num, SCALE);
    clamp_unit(q)
}

impl Hsla {
    /// Linear blend of two colors: each of the four channels is interpolated
    /// independently in HSLA space.  Hue does not take the short way around
    /// the color wheel; a blend from a high hue to a low one passes through
    /// the middle hues.
    pub fn interpolate(&self, other: Hsla, t: i64) -> (r: Hsla)
        requires
            hsla_wf(*self),
            hsla_wf(other),
            -(SCALE * SCALE) <= t <= SCALE * SCALE,
        ensures
            r == interpolate_spec(*self, other, t as int),
            hsla_wf(r),
    {
        Hsla {
            h: interp_channel(self.h, other.h, t),
            s: interp_channel(self.s, other.s, t),
            l: interp_channel(self.l, other.l, t),
            a: interp_channel(self.a, other.a, t),
        }
    }
}

/// The piecewise hue-to-channel helper: the hue offset `t` is wrapped into
/// the unit interval, then mapped between the two chroma bounds `p <= q`.
pub open spec fn hue_to_rgb_spec(p: int, q: int, t: int) -> int {
    let tw = if t < 0 {
        t + SCALE
    } else if t > SCALE {
        t - SCALE
    } else {
        t
    };
    if tw < SCALE / 6 {
        p + (q - p) * 6 * tw / (SCALE as int)
    } else if tw < SCALE / 2 {
        q
    } else if tw < 2 * (SCALE as int) / 3 {
        p + (q - p) * (2 * (SCALE as int) / 3 - tw) * 6 / (SCALE as int)
    } else {
        p
    }
}

/// The standard HSL to RGB conversion, in fixed point.  A gray color
/// (saturation zero) maps every channel to the lightness; otherwise the
/// three channels come from the hue helper at offsets of a third of a turn.
pub open spec fn hsl_to_rgb_spec(h: int, s: int, l: int) -> (int, int, int) {
    if s == 0 {
        (l, l, l)
    } else {
        let q = if l < SCALE / 2 {
            l * (SCALE + s) / (SCALE as int)
        } else {
            l + s - l * s / (SCALE as int)
        };
        let p = 2 * l - q;
        (
            hue_to_rgb_spec(p, q, h + SCALE / 3),
            hue_to_rgb_spec(p, q, h),
            hue_to_rgb_spec(p, q, h - SCALE / 3),
        )
    }
}

/// The chroma bounds of the conversion stay ordered and inside the unit
/// interval.
proof fn lemma_pq_bounds(s: int, l: int)
    requires
        1 <= s <= SCALE,
        0 <= l <= SCALE,
    ensures
        ({
            let q = if l < SCALE / 2 {
                l * (SCALE + s) / (SCALE as int)
            } else {
                l + s - l * s / (SCALE as int)
            };
            let p = 2 * l - q;
            0 <= p && p <= q && q <= SCALE
        }),
{
    let sc: int = SCALE as int;
    if l < sc / 2 {
        let q = l * (sc + s) / sc;
        vstd::arithmetic::div_mod::lemma_fundamental_div_mod(l * (sc + s), sc);
        vstd::arithmetic::div_mod::lemma_mod_pos_bound(l * (sc + s), sc);
        let r = (l * (sc + s)) % sc;
        assert(l * (sc + s) == sc * q + r);
        assert(0 <= q && l <= q && q <= 2 * l && q < sc) by (nonlinear_arith)
            requires
                1 <= s <= sc,
                0 <= l < sc / 2,
                sc == SCALE,
                l * (sc + s) == sc * q + r,
                0 <= r < sc,
        ;
    } else {
        let q = l + s - l * s / sc;
        vstd::arithmetic::div_mod::lemma_fundamental_div_mod(l * s, sc);
        vstd::arithmetic::div_mod::lemma_mod_pos_bound(l * s, sc);
        let d = l * s / sc;
        let r = (l * s) % sc;
        assert(l * s == sc * d + r);
        assert(d <= s && l + s - sc <= d && s - l <= d && l <= q) by (nonlinear_arith)
            requires
                1 <= s <= sc,
                sc / 2 <= l <= sc,
                sc == SCALE,
                l * s == sc * d + r,
                0 <= r < sc,
                q == l + s - d,
        ;
    }
}

/// Division of a bounded product keeps the hue helper between its chroma
/// bounds.
proof fn lemma_hue_fraction_bounds(p: int, q: int, num: int)
    requires
        0 <= p <= q <= SCALE,
        0 <= num <= (q - p) * (SCALE as int),
    ensures
        0 <= num / (SCALE as int) <= q - p,
        p <= p + num / (SCALE as int) <= q,
{
    let sc: int = SCALE as int;
    vstd::arithmetic::div_mod::lemma_div_pos_is_pos(num, sc);
    vstd::arithmetic::div_mod::lemma_div_is_ordered(num, (q - p) * sc, sc);
    assert((q - p) * sc == sc * (q - p));
    vstd::arithmetic::div_mod::lemma_div_multiples_vanish(q - p, sc);
}

/// The hue helper, as executable code.
fn hue_to_rgb(p: i64, q: i64, t: i64) -> (r: i64)
    requires
        0 <= p <= q <= SCALE,
        -SCALE <= t <= 2 * SCALE,
    ensures
        r == hue_to_rgb_spec(p as int, q as int, t as int),
        0 <= r <= SCALE,
{
    let tw: i64 = if t < 0 {
        t + SCALE
    } else if t > SCALE {
        t - SCALE
    } else {
        t
    };
    if tw < SCALE / 6 {
        proof {
            assert(0 <= (q - p) * 6 * tw && (q - p) * 6 * tw <= (q - p) * (SCALE as int)
                && (q - p) * 6 * tw <= 400_000_000_000_000) by (nonlinear_arith)
                requires
                    0 <= q - p <= SCALE,
                    0 <= tw < SCALE / 6,
            ;
        }
        let num: i64 = (q - p) * 6 * tw;
        proof {
            lemma_hue_fraction_bounds(p as int, q as int, num as int);
        }
        p + num / SCALE
    } else if tw < SCALE / 2 {
        q
    } else if tw < 2 * SCALE / 3 {
        proof {
            assert(0 <= (q - p) * (2 * (SCALE as int) / 3 - tw) * 6
                && (q - p) * (2 * (SCALE as int) / 3 - tw) * 6 <= (q - p) * (SCALE as int)
                && (q - p) * (2 * (SCALE as int) / 3 - tw) * 6 <= 400_000_000_000_000)
                by (nonlinear_arith)
                requires
                    0 <= q - p <= SCALE,
                    SCALE / 2 <= tw < 2 * (SCALE as int) / 3,
            ;
        }
        let num: i64 = (q - p) * (2 * SCALE / 3 - tw) * 6;
        proof {
            lemma_hue_fraction_bounds(p as int, q as int, num as int);
        }
        p + num / SCALE
    } else {
        p
    }
}

/// The full conversion, as executable code.
pub fn hsl_to_rgb(h: i64, s: i64, l: i64) -> (rgb: (i64, i64, i64))
    requires
        0 <= h <= SCALE,
        0 <= s <= SCALE,
        0 <= l <= SCALE,
    ensures
        (rgb.0 as int, rgb.1 as int, rgb.2 as int) == hsl_to_rgb_spec(h as int, s as int, l as int),
        0 <= rgb.0 <= SCALE,
        0 <= rgb.1 <= SCALE,
        0 <= rgb.2 <= SCALE,
{
    if s == 0 {
        (l, l, l)
    } else {
        let q: i64 = if l < SCALE / 2 {
            proof {
                assert(0 <= l * (SCALE + s) && l * (SCALE + s) <= 800_000_000_000)
                    by (nonlinear_arith)
                    requires
                        0 <= l <= SCALE,
                        0 <= s <= SCALE,
                ;
            }
            l * (SCALE + s) / SCALE
        } else {
            proof {
                assert(0 <= l * s && l * s <= 400_000_000_000) by (nonlinear_arith)
                    requires
                        0 <= l <= SCALE,
                        0 <= s <= SCALE,
                ;
                vstd::arithmetic::div_mod::lemma_div_pos_is_pos(l as int * s as int, SCALE as int);
            }
            l + s - l * s / SCALE
        };
        proof {
            lemma_pq_bounds(s as int, l as int);
        }
        let p: i64 = 2 * l - q;
        let r: i64 = hue_to_rgb(p, q, h + SCALE / 3);
        let g: i64 = hue_to_rgb(p, q, h);
        let b: i64 = hue_to_rgb(p, q, h - SCALE / 3);
        (r, g, b)
    }
}

/// The output byte for one fixed-point channel: scaled by 255 and
/// truncated, never rounded.
pub open spec fn channel_byte_spec(c: int) -> int {
    c * 255 / (SCALE as int)
}

/// Scale a unit-interval channel to its output byte.
pub fn channel_byte(c: i64) -> (b: u8)
    requires
        0 <= c <= SCALE,
    ensures
        b == channel_byte_spec(c as int),
{
    proof {
        vstd::arithmetic::div_mod::lemma_div_pos_is_pos(c as int * 255, SCALE as int);
        vstd::arithmetic::div_mod::lemma_div_is_ordered(c as int * 255, (SCALE as int) * 255, SCALE as int);
        vstd::arithmetic::div_mod::lemma_div_multiples_vanish(255, SCALE as int);
    }
    (c * 255 / SCALE) as u8
}

/// The four output bytes of a color, in the order red, green, blue, alpha.
pub open spec fn rgba_bytes_spec(c: Hsla) -> (int, int, int, int) {
    let rgb = hsl_to_rgb_spec(c.h as int, c.s as int, c.l as int);
    (
        channel_byte_spec(rgb.0),
        channel_byte_spec(rgb.1),
        channel_byte_spec(rgb.2),
        channel_byte_spec(c.a as int),
    )
}

impl Hsla {
    /// The color as four bytes, red, green, blue and alpha.
    pub fn to_rgba(self) -> (bytes: (u8, u8, u8, u8))
        requires
            hsla_wf(self),
        ensures
            (bytes.0 as int, bytes.1 as int, bytes.2 as int, bytes.3 as int)
                == rgba_bytes_spec(self),
    {
        let (r, g, b) = hsl_to_rgb(self.h, self.s, self.l);
        (channel_byte(r), channel_byte(g), channel_byte(b), channel_byte(self.a))
    }
}

/// A channel blended with itself is unchanged, whatever the parameter.
proof fn lemma_interp_channel_identical(c: int, t: int)
    requires
        0 <= c <= SCALE,
    ensures
        interp_channel_spec(c, c, t) == c,
{
    assert(c * (SCALE - t) + c * t == SCALE * c) by (nonlinear_arith);
    vstd::arithmetic::div_mod::lemma_div_multiples_vanish(c, SCALE as int);
}

/// Blending a color with itself returns that color, for every parameter:
/// a gradient whose two bracketing stops agree is constant between them.
pub proof fn lemma_interpolate_identical(a: Hsla, t: int)
    requires
        hsla_wf(a),
    ensures
        interpolate_spec(a, a, t) == a,
{
    lemma_interp_channel_identical(a.h as int, t);
    lemma_interp_channel_identical(a.s as int, t);
    lemma_interp_channel_identical(a.l as int, t);
    lemma_interp_channel_identical(a.a as int, t);
}

/// At parameter zero the blend is exactly the first color; at parameter
/// `SCALE` (the fixed-point 1.0) it is exactly the second.
pub proof fn lemma_interpolate_endpoints(a: Hsla, b: Hsla)
    requires
        hsla_wf(a),
        hsla_wf(b),
    ensures
        interpolate_spec(a, b, 0) == a,
        interpolate_spec(a, b, SCALE as int) == b,
{
    lemma_interp_channel_endpoints(a.h as int, b.h as int);
    lemma_interp_channel_endpoints(a.s as int, b.s as int);
    lemma_interp_channel_endpoints(a.l as int, b.l as int);
    lemma_interp_channel_endpoints(a.a as int, b.a as int);
}

/// A single channel at the two endpoint parameters.
proof fn lemma_interp_channel_endpoints(a: int, b: int)
    requires
        0 <= a <= SCALE,
        0 <= b <= SCALE,
    ensures
        interp_channel_spec(a, b, 0) == a,
        interp_channel_spec(a, b, SCALE as int) == b,
{
    assert(a * (SCALE - 0) + b * 0 == SCALE * a) by (nonlinear_arith);
    assert(a * (SCALE - SCALE) + b * SCALE == SCALE * b) by (nonlinear_arith);
    vstd::arithmetic::div_mod::lemma_div_multiples_vanish(a, SCALE as int);
    vstd::arithmetic::div_mod::lemma_div_multiples_vanish(b, SCALE as int);
}

} // verus!
