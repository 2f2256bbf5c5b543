//! The gradient engine: ordered color stops, bracket lookup, and the
//! per-pixel color of linear, repeating, radial and conic gradients.

use vstd::prelude::*;

use crate::SCALE;
use crate::clamp_unit_spec;
use crate::div_floor;
use crate::color::Hsla;
use crate::color::hsla_wf;
use crate::color::interpolate_spec;
use crate::geometry::AngleOrCorner;
use crate::geometry::MAX_DIM;
use crate::geometry::Point;
use crate::geometry::calculate_start_end;
use crate::geometry::clamp_param;
use crate::geometry::direction_wf;
use crate::geometry::dist_sq_spec;
use crate::geometry::point_wf;
use crate::geometry::project;
use crate::geometry::project_spec;
use crate::geometry::wrap_param;
use crate::geometry::wrap_param_spec;

verus! {

/// The error of the gradient engine.
#[derive(Clone, Copy, Debug, PartialEq, Eq, Structural)]
pub enum GradientError {
    /// Fewer than two color stops were supplied: interpolation needs a
    /// bracketing pair.
    InsufficientStops,
}

/// A color pinned at an optional position along the gradient axis.  An
/// absent percentage is implicit: it defaults to the start of the axis
/// when the stop opens a bracket and to the end when it closes one.
#[derive(Clone, Copy, Debug)]
pub struct ColorStop {
    /// The stop's color.
    pub color: Hsla,
    /// The stop's position along the gradient axis, in `[0, SCALE]`, or
    /// `None` for an implicit position.
    pub percentage: Option<i64>,
}

/// The stop's color is well formed and its explicit percentage, if any,
/// lies in the unit interval.
pub open spec fn stop_wf(st: ColorStop) -> bool {
    &&& hsla_wf(st.color)
    &&& match st.percentage {
        Some(p) => 0 <= p <= SCALE,
        None => true,
    }
}

/// Every stop of the sequence is well formed.
pub open spec fn stops_wf(s: Seq<ColorStop>) -> bool {
    forall|i: int| 0 <= i < s.len() ==> #[trigger] stop_wf(s[i])
}

/// An explicit percentage clamped into the unit interval.
pub open spec fn clamp_pct_spec(p: Option<i64>) -> Option<i64> {
    match p {
        Some(v) => Some(clamp_unit_spec(v as int) as i64),
        None => None,
    }
}

/// Make a color stop.  An explicit percentage is clamped into the unit
/// interval, never rejected.
pub fn color_stop(color: Hsla, percentage: Option<i64>) -> (st: ColorStop)
    requires
        hsla_wf(color),
    ensures
        st.color == color,
        st.percentage == clamp_pct_spec(percentage),
        stop_wf(st),
{
    let pct: Option<i64> = match percentage {
        Some(v) => Some(crate::clamp_unit(v)),
        None => None,
    };
    ColorStop { color, percentage: pct }
}

impl ColorStop {
    /// The stop's color.
    pub fn color(&self) -> (c: Hsla)
        ensures
            c == self.color,
    {
        self.color
    }

    /// The stop's explicit percentage, if it has one.
    pub fn percentage(&self) -> (p: Option<i64>)
        ensures
            p == self.percentage,
    {
        self.percentage
    }
}

/// How the scalar parameter is derived from a pixel position.
#[derive(Clone, Copy, Debug, PartialEq, Eq, Structural)]
pub enum GradientType {
    /// Projection onto the axis, clamped to the unit interval.
    Linear,
    /// Projection onto the axis, wrapped modulo the unit interval.
    RepeatingLinear,
    /// Distance from the center, relative to the edge reference point.
    Radial,
    /// Angular sweep around the center.
    Conic,
}

/// The effective percentage of a stop opening a bracket: an absent
/// percentage defaults to the start of the axis.
pub open spec fn lower_pct_spec(st: ColorStop) -> int {
    match st.percentage {
        Some(p) => p as int,
        None => 0,
    }
}

/// The effective percentage of a stop closing a bracket: an absent
/// percentage defaults to the end of the axis.
pub open spec fn upper_pct_spec(st: ColorStop) -> int {
    match st.percentage {
        Some(p) => p as int,
        None => SCALE as int,
    }
}

/// The bracket scan from index `i`: advance while the parameter exceeds
/// the next stop's effective percentage and a full bracket remains above,
/// so the result always leaves one stop as the upper bound.
pub open spec fn bracket_from_spec(s: Seq<ColorStop>, t: int, i: int) -> int
    decreases s.len() - i,
{
    if i + 2 >= s.len() {
        i
    } else if t > upper_pct_spec(s[i + 1]) {
        bracket_from_spec(s, t, i + 1)
    } else {
        i
    }
}

/// The bracket index chosen for parameter `t`: the first `i` whose upper
/// stop's percentage is not exceeded, or the last full bracket.
pub open spec fn bracket_spec(s: Seq<ColorStop>, t: int) -> int {
    bracket_from_spec(s, t, 0)
}

/// The bracket scan never runs past the last full bracket.
proof fn lemma_bracket_from_bounds(s: Seq<ColorStop>, t: int, i: int)
    requires
        0 <= i,
        i + 2 <= s.len(),
    ensures
        i <= bracket_from_spec(s, t, i),
        bracket_from_spec(s, t, i) + 2 <= s.len(),
    decreases s.len() - i,
{
    if i + 2 < s.len() && t > upper_pct_spec(s[i + 1]) {
        lemma_bracket_from_bounds(s, t, i + 1);
    }
}

/// The bracket index lies between zero and the last full bracket.
pub proof fn lemma_bracket_bounds(s: Seq<ColorStop>, t: int)
    requires
        s.len() >= 2,
    ensures
        0 <= bracket_spec(s, t),
        bracket_spec(s, t) + 2 <= s.len(),
{
    lemma_bracket_from_bounds(s, t, 0);
}

/// The scan from `i` stops at the first bracket whose closing percentage
/// the parameter does not exceed, or at the final bracket.
proof fn lemma_bracket_from_minimal(s: Seq<ColorStop>, t: int, i: int)
    requires
        0 <= i,
        i + 2 <= s.len(),
    ensures
        forall|j: int|
            i < j <= bracket_from_spec(s, t, i) ==> t > #[trigger] upper_pct_spec(s[j]),
        bracket_from_spec(s, t, i) + 2 == s.len() || t <= upper_pct_spec(
            s[bracket_from_spec(s, t, i) + 1],
        ),
    decreases s.len() - i,
{
    if i + 2 < s.len() && t > upper_pct_spec(s[i + 1]) {
        lemma_bracket_from_minimal(s, t, i + 1);
        lemma_bracket_from_bounds(s, t, i + 1);
    }
}

/// The chosen bracket is the first whose closing stop's percentage the
/// parameter does not exceed; every earlier bracket was passed because
/// the parameter lay beyond its closing stop.  Only when the parameter
/// exceeds every explicit percentage does the scan default to the final
/// bracket.
pub proof fn lemma_bracket_minimal(s: Seq<ColorStop>, t: int)
    requires
        s.len() >= 2,
    ensures
        forall|j: int| 0 < j <= bracket_spec(s, t) ==> t > #[trigger] upper_pct_spec(s[j]),
        bracket_spec(s, t) + 2 == s.len() || t <= upper_pct_spec(s[bracket_spec(s, t) + 1]),
{
    lemma_bracket_from_minimal(s, t, 0);
}

/// A stop's effective percentage when it closes a bracket.
fn upper_pct(st: &ColorStop) -> (p: i64)
    ensures
        p as int == upper_pct_spec(*st),
{
    match st.percentage {
        Some(p) => p,
        None => SCALE,
    }
}

/// A stop's effective percentage when it opens a bracket.
fn lower_pct(st: &ColorStop) -> (p: i64)
    ensures
        p as int == lower_pct_spec(*st),
{
    match st.percentage {
        Some(p) => p,
        None => 0,
    }
}

/// Find the bracketing pair of stops for a parameter: the scan of the
/// stop sequence in order.
pub fn bracket_index(colors: &Vec<ColorStop>, t: i64) -> (i: usize)
    requires
        colors@.len() >= 2,
    ensures
        i as int == bracket_spec(colors@, t as int),
        i + 2 <= colors@.len(),
{
    proof {
        lemma_bracket_bounds(colors@, t as int);
    }
    let n: usize = colors.len();
    let mut i: usize = 0;
    while i < n - 2 && t > upper_pct(&colors[i + 1])
        invariant
            0 <= i,
            i + 2 <= n,
            n == colors@.len(),
            n >= 2,
            bracket_spec(colors@, t as int) == bracket_from_spec(colors@, t as int, i as int),
        decreases n - i,
    {
        i = i + 1;
    }
    i
}

/// The local parameter within a bracket: how far `t` lies between the
/// bracket's effective start and end percentages, in fixed point.  Two
/// stops sharing a percentage give the fixed-point 1.0, so the bracket
/// paints the later stop's color instead of dividing by zero.
pub open spec fn local_param_spec(t: int, sp: int, ep: int) -> int {
    if ep > sp {
        (t - sp) * (SCALE as int) / (ep - sp)
    } else if ep < sp {
        (sp - t) * (SCALE as int) / (sp - ep)
    } else {
        SCALE as int
    }
}

/// Compute the local parameter of a bracket.
fn local_param(t: i64, sp: i64, ep: i64) -> (r: i64)
    requires
        0 <= t <= SCALE,
        0 <= sp <= SCALE,
        0 <= ep <= SCALE,
    ensures
        r == local_param_spec(t as int, sp as int, ep as int),
        -(SCALE * SCALE) <= r <= SCALE * SCALE,
{
    if ep > sp {
        div_floor((t - sp) * SCALE, ep - sp)
    } else if ep < sp {
        div_floor((sp - t) * SCALE, sp - ep)
    } else {
        SCALE
    }
}

/// The color of a stop sequence at a normalized parameter: the bracketing
/// pair of stops blended at the bracket's local parameter.
pub open spec fn lookup_color_spec(s: Seq<ColorStop>, t: int) -> Hsla {
    let i = bracket_spec(s, t);
    let tl = local_param_spec(t, lower_pct_spec(s[i]), upper_pct_spec(s[i + 1]));
    interpolate_spec(s[i].color, s[i + 1].color, tl)
}

/// Find the bracket for a normalized parameter and blend its two stops.
fn lookup_color(colors: &Vec<ColorStop>, t: i64) -> (c: Hsla)
    requires
        stops_wf(colors@),
        colors@.len() >= 2,
        0 <= t <= SCALE,
    ensures
        c == lookup_color_spec(colors@, t as int),
        hsla_wf(c),
{
    let i: usize = bracket_index(colors, t);
    let n: usize = colors.len();
    proof {
        assert(i + 1 < n);
        assert(stop_wf(colors@[i as int]));
        assert(stop_wf(colors@[i as int + 1]));
    }
    let sp: i64 = lower_pct(&colors[i]);
    let ep: i64 = upper_pct(&colors[i + 1]);
    let tl: i64 = local_param(t, sp, ep);
    colors[i].color.interpolate(colors[i + 1].color, tl)
}

/// `r` is the floor square root of `n`.
pub open spec fn is_isqrt_spec(n: int, r: int) -> bool {
    &&& 0 <= r
    &&& r * r <= n
    &&& n < (r + 1) * (r + 1)
}

/// The floor square root of a nonnegative number.
pub open spec fn isqrt_spec(n: int) -> int {
    choose|r: int| is_isqrt_spec(n, r)
}

/// A number has only one floor square root.
proof fn lemma_isqrt_unique(n: int, r1: int, r2: int)
    by (nonlinear_arith)
    requires
        is_isqrt_spec(n, r1),
        is_isqrt_spec(n, r2),
    ensures
        r1 == r2,
{
}

/// Floor square root by bisection, for the radial distance ratio.
fn isqrt(n: u128) -> (r: u128)
    requires
        n <= 3_000_000_000_000_000_000_000_000u128,
    ensures
        is_isqrt_spec(n as int, r as int),
        r as int == isqrt_spec(n as int),
        r <= 2_000_000_000_000,
{
    let mut lo: u128 = 0;
    let mut hi: u128 = 2_000_000_000_001;
    while lo + 1 < hi
        invariant
            lo < hi,
            hi <= 2_000_000_000_001,
            n <= 3_000_000_000_000_000_000_000_000u128,
            (lo as int) * (lo as int) <= n as int,
            (n as int) < (hi as int) * (hi as int),
        decreases hi - lo,
    {
        let mid: u128 = lo + (hi - lo) / 2;
        proof {
            assert(0 <= (mid as int) * (mid as int)
                <= 5_000_000_000_000_000_000_000_000) by (nonlinear_arith)
                requires
                    0 <= mid <= 2_000_000_000_001,
            ;
        }
        if mid * mid <= n {
            lo = mid;
        } else {
            hi = mid;
        }
    }
    proof {
        assert(is_isqrt_spec(n as int, lo as int));
        assert(is_isqrt_spec(n as int, isqrt_spec(n as int))) by {
            assert(is_isqrt_spec(n as int, lo as int));
        }
        lemma_isqrt_unique(n as int, lo as int, isqrt_spec(n as int));
    }
    lo
}

/// A gradient: its ordered color stops, its type, and its resolved
/// geometry in half-pixel units.  For the linear types `start` and `end`
/// span the axis; for the radial and conic types `start` is the center and
/// `end` the radial edge reference point.
pub struct Gradient {
    /// The ordered color stops.  The engine never sorts them; the caller
    /// supplies them in non-decreasing order of effective percentage.
    pub colors: Vec<ColorStop>,
    /// How the per-pixel parameter is derived.
    pub gradient_type: GradientType,
    /// Start of the axis, or the center.
    pub start: Point,
    /// End of the axis, or the radial edge reference point.
    pub end: Point,
}

/// The gradient's stops and geometry are well formed.
pub open spec fn gradient_wf(g: Gradient) -> bool {
    &&& stops_wf(g.colors@)
    &&& point_wf(g.start)
    &&& point_wf(g.end)
}

/// The color of a gradient at a canvas position, in half-pixel units.
/// The parameter is the axis projection, clamped for a plain linear
/// gradient and wrapped modulo the unit for a repeating one, or the radial
/// distance ratio; a degenerate axis paints the first stop everywhere.
/// A conic gradient's parameter is an angular sweep that the engine does
/// not derive itself, so its color here is the first stop's.
pub open spec fn gradient_color_spec(g: Gradient, pos: Point) -> Hsla {
    match g.gradient_type {
        GradientType::Linear => if dist_sq_spec(g.start, g.end) == 0 {
            g.colors@[0].color
        } else {
            lookup_color_spec(
                g.colors@,
                clamp_unit_spec(project_spec(pos, g.start, g.end)),
            )
        },
        GradientType::RepeatingLinear => if dist_sq_spec(g.start, g.end) == 0 {
            g.colors@[0].color
        } else {
            lookup_color_spec(g.colors@, wrap_param_spec(project_spec(pos, g.start, g.end)))
        },
        GradientType::Radial => if dist_sq_spec(g.start, g.end) == 0 {
            g.colors@[0].color
        } else {
            lookup_color_spec(
                g.colors@,
                clamp_unit_spec(
                    isqrt_spec(
                        dist_sq_spec(g.start, pos) * (SCALE as int) * (SCALE as int)
                            / dist_sq_spec(g.start, g.end),
                    ),
                ),
            )
        },
        GradientType::Conic => g.colors@[0].color,
    }
}

impl Gradient {
    /// A gradient of the given type with unresolved geometry: both axis
    /// points sit at the origin until a canvas size resolves them.
    pub fn new(gradient_type: GradientType, colors: Vec<ColorStop>) -> (g: Gradient)
        ensures
            g.colors == colors,
            g.gradient_type == gradient_type,
            g.start == (Point { x: 0i64, y: 0i64 }),
            g.end == (Point { x: 0i64, y: 0i64 }),
            stops_wf(colors@) ==> gradient_wf(g),
    {
        Gradient {
            colors,
            gradient_type,
            start: Point { x: 0, y: 0 },
            end: Point { x: 0, y: 0 },
        }
    }

    /// A linear gradient on a `width` by `height` canvas, its axis
    /// resolved from the direction.
    pub fn linear(
        angle_or_corner: AngleOrCorner,
        colors: Vec<ColorStop>,
        width: i64,
        height: i64,
    ) -> (g: Gradient)
        requires
            direction_wf(angle_or_corner),
            0 <= width <= MAX_DIM,
            0 <= height <= MAX_DIM,
        ensures
            g.colors == colors,
            g.gradient_type == GradientType::Linear,
            (g.start, g.end) == crate::geometry::start_end_spec(
                angle_or_corner,
                width as int,
                height as int,
            ),
            point_wf(g.start),
            point_wf(g.end),
            stops_wf(colors@) ==> gradient_wf(g),
    {
        let (start, end) = calculate_start_end(angle_or_corner, width, height);
        Gradient { colors, gradient_type: GradientType::Linear, start, end }
    }

    /// A repeating linear gradient on a `width` by `height` canvas.
    pub fn repeating_linear(
        angle_or_corner: AngleOrCorner,
        colors: Vec<ColorStop>,
        width: i64,
        height: i64,
    ) -> (g: Gradient)
        requires
            direction_wf(angle_or_corner),
            0 <= width <= MAX_DIM,
            0 <= height <= MAX_DIM,
        ensures
            g.colors == colors,
            g.gradient_type == GradientType::RepeatingLinear,
            (g.start, g.end) == crate::geometry::start_end_spec(
                angle_or_corner,
                width as int,
                height as int,
            ),
            point_wf(g.start),
            point_wf(g.end),
            stops_wf(colors@) ==> gradient_wf(g),
    {
        let (start, end) = calculate_start_end(angle_or_corner, width, height);
        Gradient { colors, gradient_type: GradientType::RepeatingLinear, start, end }
    }

    /// A radial gradient centered at `start`.  The edge reference point is
    /// the pixel (1, 1), as half-pixel coordinates (2, 2).
    pub fn radial(start: Point, colors: Vec<ColorStop>) -> (g: Gradient)
        requires
            point_wf(start),
        ensures
            g.colors == colors,
            g.gradient_type == GradientType::Radial,
            g.start == start,
            g.end == (Point { x: 2i64, y: 2i64 }),
            stops_wf(colors@) ==> gradient_wf(g),
    {
        Gradient { colors, gradient_type: GradientType::Radial, start, end: Point { x: 2, y: 2 } }
    }

    /// A conic gradient centered at `start`.  The engine stores the stops
    /// and center; the angular parameter itself comes from the caller
    /// through `color_for_parameter`.
    pub fn conic(start: Point, colors: Vec<ColorStop>) -> (g: Gradient)
        requires
            point_wf(start),
        ensures
            g.colors == colors,
            g.gradient_type == GradientType::Conic,
            g.start == start,
            g.end == (Point { x: 2i64, y: 2i64 }),
            stops_wf(colors@) ==> gradient_wf(g),
    {
        Gradient { colors, gradient_type: GradientType::Conic, start, end: Point { x: 2, y: 2 } }
    }

    /// The color at an already-normalized parameter in the unit interval,
    /// as a conic renderer or any other caller that derives the parameter
    /// itself needs.  Fails exactly when fewer than two stops are present.
    pub fn color_for_parameter(&self, t: i64) -> (r: Result<Hsla, GradientError>)
        requires
            stops_wf(self.colors@),
            0 <= t <= SCALE,
        ensures
            r is Err <==> self.colors@.len() < 2,
            r is Err ==> r->Err_0 == GradientError::InsufficientStops,
            self.colors@.len() >= 2 ==> r is Ok && r->Ok_0 == lookup_color_spec(
                self.colors@,
                t as int,
            ),
            r is Ok ==> hsla_wf(r->Ok_0),
    {
        if self.colors.len() < 2 {
            Err(GradientError::InsufficientStops)
        } else {
            Ok(lookup_color(&self.colors, t))
        }
    }

    /// The color of the gradient at a canvas position in half-pixel
    /// units: twice the pixel coordinate.  Fails exactly when fewer than
    /// two stops are present.  The conic sweep needs an arc tangent the
    /// engine does not compute; a conic caller derives the parameter and
    /// uses `color_for_parameter` instead.
    pub fn calculate_color(&self, pos: Point) -> (r: Result<Hsla, GradientError>)
        requires
            gradient_wf(*self),
            point_wf(pos),
            self.gradient_type != GradientType::Conic,
        ensures
            r is Err <==> self.colors@.len() < 2,
            r is Err ==> r->Err_0 == GradientError::InsufficientStops,
            self.colors@.len() >= 2 ==> r is Ok && r->Ok_0 == gradient_color_spec(*self, pos),
            r is Ok ==> hsla_wf(r->Ok_0),
    {
        if self.colors.len() < 2 {
            return Err(GradientError::InsufficientStops);
        }
        proof {
            assert(stop_wf(self.colors@[0]));
        }
        match self.gradient_type {
            GradientType::Linear => match project(pos, self.start, self.end) {
                None => Ok(self.colors[0].color),
                Some(raw) => Ok(lookup_color(&self.colors, clamp_param(raw))),
            },
            GradientType::RepeatingLinear => match project(pos, self.start, self.end) {
                None => Ok(self.colors[0].color),
                Some(raw) => Ok(lookup_color(&self.colors, wrap_param(raw))),
            },
            GradientType::Radial => {
                let dx: i64 = self.end.x - self.start.x;
                let dy: i64 = self.end.y - self.start.y;
                let px: i64 = pos.x - self.start.x;
                let py: i64 = pos.y - self.start.y;
                proof {
                    assert(0 <= dx * dx <= 4_000_000_000_000 && 0 <= dy * dy <= 4_000_000_000_000
                        && 0 <= px * px <= 4_000_000_000_000
                        && 0 <= py * py <= 4_000_000_000_000) by (nonlinear_arith)
                        requires
                            -2_000_000 <= dx <= 2_000_000,
                            -2_000_000 <= dy <= 2_000_000,
                            -2_000_000 <= px <= 2_000_000,
                            -2_000_000 <= py <= 2_000_000,
                    ;
                }
                let dmax2: i64 = dx * dx + dy * dy;
                let d2: i64 = px * px + py * py;
                if dmax2 == 0 {
                    Ok(self.colors[0].color)
                } else {
                    let num: u128 = (d2 as u128) * (SCALE as u128) * (SCALE as u128);
                    proof {
                        assert((d2 as u128) * (SCALE as u128) * (SCALE as u128)
                            <= 2_880_000_000_000_000_000_000_000u128) by (nonlinear_arith)
                            requires
                                0 <= d2 as u128 <= 8_000_000_000_000u128,
                        ;
                    }
                    let q: u128 = num / (dmax2 as u128);
                    proof {
                        vstd::arithmetic::div_mod::lemma_div_is_ordered(
                            0,
                            num as int,
                            dmax2 as int,
                        );
                        vstd::arithmetic::div_mod::lemma_div_pos_is_pos(
                            num as int,
                            dmax2 as int,
                        );
                        vstd::arithmetic::div_mod::lemma_div_nonincreasing(
                            num as int,
                            dmax2 as int,
                        );
                    }
                    let root: u128 = isqrt(q);
                    Ok(lookup_color(&self.colors, clamp_param(root as i64)))
                }
            },
            GradientType::Conic => {
                proof {
                    assert(false);
                }
                Err(GradientError::InsufficientStops)
            },
        }
    }

    /// Rasterize the gradient into a row-major byte buffer, four bytes
    /// per pixel in blue, green, red, alpha order.  Every pixel carries
    /// the bytes of the gradient's color at its coordinate.  Fails exactly
    /// when fewer than two stops are present.
    pub fn render(&self, width: i64, height: i64) -> (r: Result<Vec<u8>, GradientError>)
        requires
            gradient_wf(*self),
            0 <= width <= MAX_DIM,
            0 <= height <= MAX_DIM,
            self.gradient_type != GradientType::Conic,
        ensures
            r is Err <==> self.colors@.len() < 2,
            r is Err ==> r->Err_0 == GradientError::InsufficientStops,
            r is Ok ==> r->Ok_0@.len() == 4 * width * height,
            r is Ok ==> forall|xx: int, yy: int|
                0 <= xx < width && 0 <= yy < height ==> #[trigger] pixel_ok_spec(
                    *self,
                    r->Ok_0@,
                    width as int,
                    xx,
                    yy,
                ),
    {
        if self.colors.len() < 2 {
            return Err(GradientError::InsufficientStops);
        }
        let mut buf: Vec<u8> = Vec::new();
        let mut y: i64 = 0;
        while y < height
            invariant
                gradient_wf(*self),
                self.colors@.len() >= 2,
                self.gradient_type != GradientType::Conic,
                0 <= width <= MAX_DIM,
                0 <= height <= MAX_DIM,
                0 <= y <= height,
                buf@.len() == 4 * (y * width),
                forall|xx: int, yy: int|
                    0 <= xx < width && 0 <= yy < y ==> #[trigger] pixel_ok_spec(
                        *self,
                        buf@,
                        width as int,
                        xx,
                        yy,
                    ),
            decreases height - y,
        {
            let mut x: i64 = 0;
            while x < width
                invariant
                    gradient_wf(*self),
                    self.colors@.len() >= 2,
                    self.gradient_type != GradientType::Conic,
                    0 <= width <= MAX_DIM,
                    0 <= height <= MAX_DIM,
                    0 <= y < height,
                    0 <= x <= width,
                    buf@.len() == 4 * (y * width) + 4 * x,
                    forall|xx: int, yy: int|
                        0 <= xx < width && 0 <= yy < y ==> #[trigger] pixel_ok_spec(
                            *self,
                            buf@,
                            width as int,
                            xx,
                            yy,
                        ),
                    forall|xx: int|
                        0 <= xx < x ==> #[trigger] pixel_ok_spec(
                            *self,
                            buf@,
                            width as int,
                            xx,
                            y as int,
                        ),
                decreases width - x,
            {
                let pos = Point { x: 2 * x, y: 2 * y };
                let c: Hsla = match self.calculate_color(pos) {
                    Ok(c) => c,
                    Err(_) => {
                        proof {
                            assert(false);
                        }
                        Hsla { h: 0, s: 0, l: 0, a: 0 }
                    },
                };
                let bytes = c.to_rgba();
                let ghost prev = buf@;
                buf.push(bytes.2);
                buf.push(bytes.1);
                buf.push(bytes.0);
                buf.push(bytes.3);
                proof {
                    let w: int = width as int;
                    let base: int = 4 * ((y as int) * w + x as int);
                    assert(base == prev.len());
                    assert(pixel_ok_spec(*self, buf@, w, x as int, y as int));
                    assert forall|xx: int, yy: int|
                        0 <= xx < w && 0 <= yy < y as int implies #[trigger] pixel_ok_spec(
                        *self,
                        buf@,
                        w,
                        xx,
                        yy,
                    ) by {
                        lemma_pixel_before(w, xx, yy, x as int, y as int);
                        assert(pixel_ok_spec(*self, prev, w, xx, yy));
                    }
                    assert forall|xx: int| 0 <= xx < x as int implies #[trigger] pixel_ok_spec(
                        *self,
                        buf@,
                        w,
                        xx,
                        y as int,
                    ) by {
                        lemma_pixel_before(w, xx, y as int, x as int, y as int);
                        assert(pixel_ok_spec(*self, prev, w, xx, y as int));
                    }
                }
                x = x + 1;
            }
            proof {
                assert(4 * ((y as int + 1) * width) == 4 * ((y as int) * width) + 4 * width)
                    by (nonlinear_arith);
                assert forall|xx: int, yy: int|
                    0 <= xx < width && 0 <= yy < y as int + 1 implies #[trigger] pixel_ok_spec(
                    *self,
                    buf@,
                    width as int,
                    xx,
                    yy,
                ) by {
                    if yy < y as int {
                        assert(pixel_ok_spec(*self, buf@, width as int, xx, yy));
                    } else {
                        assert(pixel_ok_spec(*self, buf@, width as int, xx, y as int));
                    }
                }
            }
            y = y + 1;
        }
        proof {
            assert(4 * ((height as int) * width) == 4 * width * height) by (nonlinear_arith);
        }
        Ok(buf)
    }
}

/// The bytes of one rendered pixel at pixel coordinates `xx`, `yy`, in
/// buffer order: blue, green, red, alpha.
pub open spec fn pixel_bytes_spec(g: Gradient, xx: int, yy: int) -> (int, int, int, int) {
    let c = gradient_color_spec(g, Point { x: (2 * xx) as i64, y: (2 * yy) as i64 });
    let rgba = crate::color::rgba_bytes_spec(c);
    (rgba.2, rgba.1, rgba.0, rgba.3)
}

/// The buffer holds the right four bytes for the pixel at `xx`, `yy` of a
/// canvas `w` pixels wide.
pub open spec fn pixel_ok_spec(g: Gradient, buf: Seq<u8>, w: int, xx: int, yy: int) -> bool {
    let b = pixel_bytes_spec(g, xx, yy);
    let base = 4 * (yy * w + xx);
    &&& buf[base] == b.0
    &&& buf[base + 1] == b.1
    &&& buf[base + 2] == b.2
    &&& buf[base + 3] == b.3
}

/// A repeating gradient repeats with the unit period: raw projection
/// parameters one whole fixed-point unit apart are reduced to the same
/// phase and so select the same color.
pub proof fn lemma_repeating_periodic(s: Seq<ColorStop>, t: int)
    ensures
        lookup_color_spec(s, wrap_param_spec(t + SCALE)) == lookup_color_spec(
            s,
            wrap_param_spec(t),
        ),
{
    crate::geometry::lemma_wrap_periodic(t);
}

/// A pixel strictly before another in row-major order has its four bytes
/// strictly below the other's offset.
proof fn lemma_pixel_before(w: int, xx: int, yy: int, x: int, y: int)
    by (nonlinear_arith)
    requires
        0 <= xx < w,
        0 <= x <= w,
        0 <= yy,
        yy < y || (yy == y && xx < x),
    ensures
        0 <= 4 * (yy * w + xx),
        4 * (yy * w + xx) + 4 <= 4 * (y * w + x),
{
}

} // verus!
