//! Gradient geometry: directions, their resolution into concrete start and
//! end points for a given canvas, and the per-pixel projection parameter.

use vstd::prelude::*;

use crate::SCALE;
use crate::clamp_unit;
use crate::clamp_unit_spec;
use crate::div_floor;

verus! {

/// The largest canvas width or height the engine accepts, in pixels.
pub const MAX_DIM: i64 = 1_000_000;

/// A point of the canvas in half-pixel units: twice the pixel coordinate.
/// The doubling keeps the midpoints of the canvas sides exact integers.
#[derive(Clone, Copy, Debug, PartialEq, Eq, Structural)]
pub struct Point {
    /// Horizontal coordinate, in half-pixels.
    pub x: i64,
    /// Vertical coordinate, in half-pixels.
    pub y: i64,
}

/// The point lies on a canvas of the accepted size.
pub open spec fn point_wf(p: Point) -> bool {
    &&& 0 <= p.x <= 2 * MAX_DIM
    &&& 0 <= p.y <= 2 * MAX_DIM
}

/// A named side or corner of the canvas toward which a gradient flows.
#[derive(Clone, Copy, Debug, PartialEq, Eq, Structural)]
pub enum GradientSide {
    Top,
    Right,
    Bottom,
    Left,
    TopLeft,
    TopRight,
    BottomLeft,
    BottomRight,
}

/// A direction for a linear gradient: either the gradient axis given as a
/// fixed-point unit vector (the cosine and sine of the angle, each scaled
/// by `SCALE`), or a named side or corner.
#[derive(Clone, Copy, Debug)]
pub enum AngleOrCorner {
    /// The axis direction: `dx` and `dy` are the cosine and sine of the
    /// angle in fixed point, so each lies in `[-SCALE, SCALE]`.
    Angle { dx: i64, dy: i64 },
    /// A named side or corner.
    Side(GradientSide),
}

/// The axis components of an angle direction lie in `[-SCALE, SCALE]`, as
/// a cosine and sine must.
pub open spec fn direction_wf(d: AngleOrCorner) -> bool {
    match d {
        AngleOrCorner::Angle { dx, dy } => -SCALE <= dx <= SCALE && -SCALE <= dy <= SCALE,
        AngleOrCorner::Side(_) => true,
    }
}

/// The start and end points of the gradient axis on a `w` by `h` canvas, in
/// half-pixel units.  An angle direction centers the axis on the canvas;
/// a named side or corner runs between the opposite edges or corners, with
/// the start placed so that the first stop paints the far side: a gradient
/// toward the top starts at the bottom edge.
pub open spec fn start_end_spec(d: AngleOrCorner, w: int, h: int) -> (Point, Point) {
    match d {
        AngleOrCorner::Angle { dx, dy } => (
            Point {
                x: (w * (SCALE - dx) / (SCALE as int)) as i64,
                y: (h * (SCALE - dy) / (SCALE as int)) as i64,
            },
            Point {
                x: (w * (SCALE + dx) / (SCALE as int)) as i64,
                y: (h * (SCALE + dy) / (SCALE as int)) as i64,
            },
        ),
        AngleOrCorner::Side(side) => match side {
            GradientSide::Top => (
                Point { x: w as i64, y: (2 * h) as i64 },
                Point { x: w as i64, y: 0 },
            ),
            GradientSide::Right => (
                Point { x: 0, y: h as i64 },
                Point { x: (2 * w) as i64, y: h as i64 },
            ),
            GradientSide::Bottom => (
                Point { x: w as i64, y: 0 },
                Point { x: w as i64, y: (2 * h) as i64 },
            ),
            GradientSide::Left => (
                Point { x: (2 * w) as i64, y: h as i64 },
                Point { x: 0, y: h as i64 },
            ),
            GradientSide::TopLeft => (
                Point { x: (2 * w) as i64, y: (2 * h) as i64 },
                Point { x: 0, y: 0 },
            ),
            GradientSide::TopRight => (
                Point { x: 0, y: (2 * h) as i64 },
                Point { x: (2 * w) as i64, y: 0 },
            ),
            GradientSide::BottomLeft => (
                Point { x: (2 * w) as i64, y: 0 },
                Point { x: 0, y: (2 * h) as i64 },
            ),
            GradientSide::BottomRight => (
                Point { x: 0, y: 0 },
                Point { x: (2 * w) as i64, y: (2 * h) as i64 },
            ),
        },
    }
}

/// One coordinate of a centered axis endpoint stays on the canvas.
proof fn lemma_axis_coord(w: int, d: int)
    requires
        0 <= w <= MAX_DIM,
        -SCALE <= d <= SCALE,
    ensures
        0 <= w * (SCALE - d) <= 1_200_000_000_000,
        w * (SCALE - d) <= (SCALE as int) * (2 * w),
        0 <= w * (SCALE - d) / (SCALE as int) <= 2 * w,
{
    assert(0 <= w * (SCALE - d) && w * (SCALE - d) <= 1_200_000_000_000
        && w * (SCALE - d) <= (SCALE as int) * (2 * w)) by (nonlinear_arith)
        requires
            0 <= w <= MAX_DIM,
            -SCALE <= d <= SCALE,
    ;
    vstd::arithmetic::div_mod::lemma_div_pos_is_pos(w * (SCALE - d), SCALE as int);
    vstd::arithmetic::div_mod::lemma_div_is_ordered(
        w * (SCALE - d),
        (SCALE as int) * (2 * w),
        SCALE as int,
    );
    vstd::arithmetic::div_mod::lemma_div_multiples_vanish(2 * w, SCALE as int);
}

/// Resolve a direction into the start and end points of the gradient axis
/// on a canvas of `width` by `height` pixels.
pub fn calculate_start_end(d: AngleOrCorner, width: i64, height: i64) -> (se: (Point, Point))
    requires
        0 <= width <= MAX_DIM,
        0 <= height <= MAX_DIM,
        direction_wf(d),
    ensures
        se == start_end_spec(d, width as int, height as int),
        point_wf(se.0),
        point_wf(se.1),
{
    match d {
        AngleOrCorner::Angle { dx, dy } => {
            proof {
                lemma_axis_coord(width as int, dx as int);
                lemma_axis_coord(width as int, -(dx as int));
                lemma_axis_coord(height as int, dy as int);
                lemma_axis_coord(height as int, -(dy as int));
            }
            let start = Point {
                x: width * (SCALE - dx) / SCALE,
                y: height * (SCALE - dy) / SCALE,
            };
            let end = Point {
                x: width * (SCALE + dx) / SCALE,
                y: height * (SCALE + dy) / SCALE,
            };
            (start, end)
        },
        AngleOrCorner::Side(side) => match side {
            GradientSide::Top => (
                Point { x: width, y: 2 * height },
                Point { x: width, y: 0 },
            ),
            GradientSide::Right => (
                Point { x: 0, y: height },
                Point { x: 2 * width, y: height },
            ),
            GradientSide::Bottom => (
                Point { x: width, y: 0 },
                Point { x: width, y: 2 * height },
            ),
            GradientSide::Left => (
                Point { x: 2 * width, y: height },
                Point { x: 0, y: height },
            ),
            GradientSide::TopLeft => (
                Point { x: 2 * width, y: 2 * height },
                Point { x: 0, y: 0 },
            ),
            GradientSide::TopRight => (
                Point { x: 0, y: 2 * height },
                Point { x: 2 * width, y: 0 },
            ),
            GradientSide::BottomLeft => (
                Point { x: 2 * width, y: 0 },
                Point { x: 0, y: 2 * height },
            ),
            GradientSide::BottomRight => (
                Point { x: 0, y: 0 },
                Point { x: 2 * width, y: 2 * height },
            ),
        },
    }
}

/// An axis direction along an exact unit vector resolves to the very same
/// start and end points as the matching named side: cosine one matches
/// Right, sine one matches Bottom, cosine minus one matches Left, and sine
/// minus one matches Top.
pub proof fn lemma_axis_matches_sides(w: int, h: int)
    requires
        0 <= w <= MAX_DIM,
        0 <= h <= MAX_DIM,
    ensures
        start_end_spec(AngleOrCorner::Angle { dx: SCALE, dy: 0 }, w, h)
            == start_end_spec(AngleOrCorner::Side(GradientSide::Right), w, h),
        start_end_spec(AngleOrCorner::Angle { dx: 0, dy: SCALE }, w, h)
            == start_end_spec(AngleOrCorner::Side(GradientSide::Bottom), w, h),
        start_end_spec(AngleOrCorner::Angle { dx: (-SCALE) as i64, dy: 0 }, w, h)
            == start_end_spec(AngleOrCorner::Side(GradientSide::Left), w, h),
        start_end_spec(AngleOrCorner::Angle { dx: 0, dy: (-SCALE) as i64 }, w, h)
            == start_end_spec(AngleOrCorner::Side(GradientSide::Top), w, h),
{
    let sc: int = SCALE as int;
    vstd::arithmetic::div_mod::lemma_div_of0(sc);
    assert(w * (SCALE - SCALE) == 0);
    assert(h * (SCALE - SCALE) == 0);
    assert(w * (SCALE + SCALE) == sc * (2 * w));
    assert(h * (SCALE + SCALE) == sc * (2 * h));
    vstd::arithmetic::div_mod::lemma_div_multiples_vanish(2 * w, sc);
    vstd::arithmetic::div_mod::lemma_div_multiples_vanish(2 * h, sc);
    assert(w * (SCALE - 0) == sc * w);
    assert(h * (SCALE - 0) == sc * h);
    assert(w * (SCALE + 0) == sc * w);
    assert(h * (SCALE + 0) == sc * h);
    vstd::arithmetic::div_mod::lemma_div_multiples_vanish(w, sc);
    vstd::arithmetic::div_mod::lemma_div_multiples_vanish(h, sc);
}

/// The squared distance between two points, in half-pixel units.
pub open spec fn dist_sq_spec(a: Point, b: Point) -> int {
    (b.x - a.x) * (b.x - a.x) + (b.y - a.y) * (b.y - a.y)
}

/// The dot product of the vector from `s` to `p` with the axis from `s`
/// to `e`.
pub open spec fn dot_spec(p: Point, s: Point, e: Point) -> int {
    (p.x - s.x) * (e.x - s.x) + (p.y - s.y) * (e.y - s.y)
}

/// The raw projection parameter of a pixel onto the axis from `s` to `e`:
/// the dot product divided by the squared axis length, in fixed point.  It
/// is 0 at `s`, `SCALE` at `e`, and extrapolates linearly outside.
pub open spec fn project_spec(p: Point, s: Point, e: Point) -> int {
    dot_spec(p, s, e) * (SCALE as int) / dist_sq_spec(s, e)
}

/// Compute the raw projection parameter of a pixel.  The result is `None`
/// exactly when the axis is degenerate, that is when start and end
/// coincide, as they do on a canvas with a zero-sized axis.
pub fn project(p: Point, s: Point, e: Point) -> (r: Option<i64>)
    requires
        point_wf(p),
        point_wf(s),
        point_wf(e),
    ensures
        r is None <==> dist_sq_spec(s, e) == 0,
        r is Some ==> r->Some_0 == project_spec(p, s, e),
        r is Some ==> -4_800_000_000_000_000_000 <= r->Some_0 <= 4_800_000_000_000_000_000,
        r is Some && p == s ==> r->Some_0 == 0,
        r is Some && p == e ==> r->Some_0 == SCALE,
{
    let dx: i64 = e.x - s.x;
    let dy: i64 = e.y - s.y;
    proof {
        assert(0 <= dx * dx <= 4_000_000_000_000 && 0 <= dy * dy <= 4_000_000_000_000
            && (dx == 0 && dy == 0 <==> dx * dx + dy * dy == 0)) by (nonlinear_arith)
            requires
                -2_000_000 <= dx <= 2_000_000,
                -2_000_000 <= dy <= 2_000_000,
        ;
    }
    let d2: i64 = dx * dx + dy * dy;
    if d2 == 0 {
        None
    } else {
        proof {
            assert(-4_000_000_000_000 <= (p.x - s.x) * dx <= 4_000_000_000_000
                && -4_000_000_000_000 <= (p.y - s.y) * dy <= 4_000_000_000_000)
                by (nonlinear_arith)
                requires
                    -2_000_000 <= p.x - s.x <= 2_000_000,
                    -2_000_000 <= p.y - s.y <= 2_000_000,
                    -2_000_000 <= dx <= 2_000_000,
                    -2_000_000 <= dy <= 2_000_000,
        ;
        }
        let dot: i64 = (p.x - s.x) * dx + (p.y - s.y) * dy;
        let t: i64 = div_floor(dot * SCALE, d2);
        proof {
            if p == s {
                assert((p.x - s.x) * (e.x - s.x) == 0 && (p.y - s.y) * (e.y - s.y) == 0)
                    by (nonlinear_arith)
                    requires
                        p.x == s.x,
                        p.y == s.y,
                ;
                vstd::arithmetic::div_mod::lemma_div_of0(d2 as int);
            }
            if p == e {
                assert(dot == d2);
                assert(dot * SCALE == (d2 as int) * (SCALE as int));
                vstd::arithmetic::div_mod::lemma_div_multiples_vanish(
                    SCALE as int,
                    d2 as int,
                );
            }
        }
        Some(t)
    }
}

/// Reduce a parameter modulo the fixed-point 1.0, as true mathematical
/// modulo: the result lies in `[0, SCALE)` whatever the sign.
pub open spec fn wrap_param_spec(t: int) -> int {
    t % (SCALE as int)
}

/// Reduce a repeating gradient's parameter into `[0, SCALE)`.
pub fn wrap_param(t: i64) -> (r: i64)
    requires
        -9_000_000_000_000_000_000 <= t,
    ensures
        r == wrap_param_spec(t as int),
        0 <= r < SCALE,
{
    if t >= 0 {
        proof {
            vstd::arithmetic::div_mod::lemma_mod_pos_bound(t as int, SCALE as int);
        }
        t % SCALE
    } else {
        let m: i64 = (-t) % SCALE;
        proof {
            let sc: int = SCALE as int;
            vstd::arithmetic::div_mod::lemma_fundamental_div_mod(-(t as int), sc);
            vstd::arithmetic::div_mod::lemma_mod_pos_bound(-(t as int), sc);
            let q: int = -(t as int) / sc;
            assert(-(t as int) == sc * q + m);
            if m == 0 {
                assert(t as int == (-q) * sc + 0) by (nonlinear_arith)
                    requires
                        -(t as int) == sc * q + m,
                        m == 0,
                ;
                vstd::arithmetic::div_mod::lemma_fundamental_div_mod_converse(
                    t as int,
                    sc,
                    -q,
                    0,
                );
            } else {
                assert(t as int == (-q - 1) * sc + (sc - m)) by (nonlinear_arith)
                    requires
                        -(t as int) == sc * q + m,
                ;
                vstd::arithmetic::div_mod::lemma_fundamental_div_mod_converse(
                    t as int,
                    sc,
                    -q - 1,
                    sc - m,
                );
            }
        }
        if m == 0 {
            0
        } else {
            SCALE - m
        }
    }
}

/// The repeating reduction is periodic: two parameters one whole unit
/// apart land on the same phase of the cycle.
pub proof fn lemma_wrap_periodic(t: int)
    ensures
        wrap_param_spec(t + SCALE) == wrap_param_spec(t),
{
    vstd::arithmetic::div_mod::lemma_mod_add_multiples_vanish(t, SCALE as int);
}

/// Clamp a non-repeating gradient's parameter into `[0, SCALE]`.
pub fn clamp_param(t: i64) -> (r: i64)
    ensures
        r == clamp_unit_spec(t as int),
        0 <= r <= SCALE,
{
    clamp_unit(t)
}

} // verus!
