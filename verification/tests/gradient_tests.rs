use gradient::AngleOrCorner;
use gradient::Gradient;
use gradient::GradientError;
use gradient::GradientSide;
use gradient::GradientType;
use gradient::Hsla;
use gradient::Point;
use gradient::SCALE;
use gradient::color_stop;
use gradient::gradient::ColorStop;
use gradient::gradient::bracket_index;
use gradient::geometry::calculate_start_end;
use gradient::hsla;

fn red() -> Hsla {
    hsla(0, SCALE, SCALE / 2, SCALE)
}

fn blue() -> Hsla {
    hsla(2 * SCALE / 3, SCALE, SCALE / 2, SCALE)
}

fn two_stops() -> Vec<ColorStop> {
    vec![color_stop(red(), Some(0)), color_stop(blue(), Some(SCALE))]
}

#[test]
fn color_stop_clamps_percentage() {
    let st = color_stop(red(), Some(2 * SCALE));
    assert_eq!(st.percentage, Some(SCALE));
    let st2 = color_stop(red(), Some(-1));
    assert_eq!(st2.percentage, Some(0));
    let implicit = color_stop(red(), None);
    assert_eq!(implicit.percentage, None);
}

#[test]
fn new_gradient_has_origin_geometry() {
    let g = Gradient::new(GradientType::RepeatingLinear, two_stops());
    assert_eq!(g.start, Point { x: 0, y: 0 });
    assert_eq!(g.end, Point { x: 0, y: 0 });
    assert!(matches!(g.gradient_type, GradientType::RepeatingLinear));
}

#[test]
fn axis_unit_vectors_match_named_sides() {
    let cases = [
        (SCALE, 0, GradientSide::Right),
        (0, SCALE, GradientSide::Bottom),
        (-SCALE, 0, GradientSide::Left),
        (0, -SCALE, GradientSide::Top),
    ];
    for (dx, dy, side) in cases {
        let from_angle = calculate_start_end(AngleOrCorner::Angle { dx, dy }, 800, 600);
        let from_side = calculate_start_end(AngleOrCorner::Side(side), 800, 600);
        assert_eq!(from_angle, from_side);
    }
}

#[test]
fn corner_table_spans_opposite_corners() {
    let (start, end) =
        calculate_start_end(AngleOrCorner::Side(GradientSide::BottomRight), 800, 600);
    assert_eq!(start, Point { x: 0, y: 0 });
    assert_eq!(end, Point { x: 1600, y: 1200 });
    let (start, end) = calculate_start_end(AngleOrCorner::Side(GradientSide::TopLeft), 800, 600);
    assert_eq!(start, Point { x: 1600, y: 1200 });
    assert_eq!(end, Point { x: 0, y: 0 });
}

#[test]
fn linear_to_right_endpoints_and_midpoint() {
    let g = Gradient::linear(AngleOrCorner::Side(GradientSide::Right), two_stops(), 800, 600);
    // Pixel (0, 300): the projection parameter is zero, the first stop.
    let c0 = g.calculate_color(Point { x: 0, y: 600 }).unwrap();
    assert_eq!(c0, red());
    // Pixel (400, 300): exactly halfway along the axis.
    let cm = g.calculate_color(Point { x: 800, y: 600 }).unwrap();
    assert_eq!(cm, red().interpolate(blue(), SCALE / 2));
    // Pixel (799, 300): just short of the end of the axis.
    let ce = g.calculate_color(Point { x: 1598, y: 600 }).unwrap();
    let t = 1598 * SCALE / 1600;
    assert_eq!(ce, red().interpolate(blue(), t));
}

#[test]
fn linear_clamps_beyond_the_axis() {
    // A Left gradient on the same canvas: pixels right of the start
    // project to negative parameters and clamp to the first stop.
    let g = Gradient::linear(AngleOrCorner::Side(GradientSide::Top), two_stops(), 800, 600);
    // Pixel (400, 600) sits at the very start (the bottom edge).
    let c = g.calculate_color(Point { x: 800, y: 1200 }).unwrap();
    assert_eq!(c, red());
    // Pixel (400, 0) sits at the very end (the top edge).
    let c = g.calculate_color(Point { x: 800, y: 0 }).unwrap();
    assert_eq!(c, blue());
}

#[test]
fn repeating_linear_repeats_with_unit_period() {
    let stops = vec![color_stop(red(), Some(0)), color_stop(blue(), Some(SCALE / 2))];
    let g = Gradient::repeating_linear(
        AngleOrCorner::Side(GradientSide::Right),
        stops,
        100,
        100,
    );
    // The axis runs over 100 pixels, so pixel x projects to x/100; one
    // whole unit apart means 100 pixels apart.
    let c_early = g.calculate_color(Point { x: 20, y: 100 }).unwrap();
    let c_late = g.calculate_color(Point { x: 220, y: 100 }).unwrap();
    assert_eq!(c_early, c_late);
}

#[test]
fn repeating_linear_saturates_past_the_last_stop() {
    // The parameter wraps modulo one whole unit, not modulo the last
    // stop's percentage: past it the bracket extrapolates and clamps.
    let stops = vec![color_stop(red(), Some(0)), color_stop(blue(), Some(SCALE / 2))];
    let g = Gradient::repeating_linear(
        AngleOrCorner::Side(GradientSide::Right),
        stops,
        100,
        100,
    );
    // Pixel 60 projects to 0.6 of a unit, local parameter 1.2.
    let c = g.calculate_color(Point { x: 120, y: 100 }).unwrap();
    assert_eq!(c, red().interpolate(blue(), 6 * SCALE / 5));
}

#[test]
fn repeating_wraps_negative_parameters_to_positive_phase() {
    // An axis whose start sits to the right of the pixel: the raw
    // projection is negative and the true modulo brings it back into the
    // unit interval instead of leaving a negative phase.
    let mut g = Gradient::new(GradientType::RepeatingLinear, two_stops());
    g.start = Point { x: 200, y: 0 };
    g.end = Point { x: 400, y: 0 };
    let c = g.calculate_color(Point { x: 100, y: 0 }).unwrap();
    assert_eq!(c, red().interpolate(blue(), SCALE / 2));
    // The plain linear gradient clamps the same projection to zero.
    let mut lin = Gradient::new(GradientType::Linear, two_stops());
    lin.start = Point { x: 200, y: 0 };
    lin.end = Point { x: 400, y: 0 };
    assert_eq!(lin.calculate_color(Point { x: 100, y: 0 }).unwrap(), red());
}

#[test]
fn bracket_lookup_selects_second_bracket() {
    let c0 = hsla(0, SCALE, SCALE / 2, SCALE);
    let c1 = hsla(SCALE / 12, SCALE, SCALE / 2, SCALE);
    let c2 = hsla(SCALE / 6, SCALE, SCALE / 2, SCALE);
    let c3 = hsla(SCALE / 3, SCALE, SCALE / 2, SCALE);
    let stops = vec![
        color_stop(c0, Some(0)),
        color_stop(c1, Some(SCALE * 14 / 100)),
        color_stop(c2, Some(SCALE * 28 / 100)),
        color_stop(c3, Some(SCALE)),
    ];
    let t = SCALE * 20 / 100;
    assert_eq!(bracket_index(&stops, t), 1);
    let g = Gradient::new(GradientType::Linear, stops);
    let c = g.color_for_parameter(t).unwrap();
    let local = (t - SCALE * 14 / 100) * SCALE / (SCALE * 28 / 100 - SCALE * 14 / 100);
    assert_eq!(local, 257142);
    assert_eq!(c, c1.interpolate(c2, local));
}

#[test]
fn implicit_percentages_default_to_axis_ends() {
    let stops = vec![color_stop(red(), None), color_stop(blue(), None)];
    let g = Gradient::new(GradientType::Linear, stops);
    assert_eq!(g.color_for_parameter(0).unwrap(), red());
    assert_eq!(g.color_for_parameter(SCALE).unwrap(), blue());
    assert_eq!(
        g.color_for_parameter(SCALE / 2).unwrap(),
        red().interpolate(blue(), SCALE / 2),
    );
}

#[test]
fn insufficient_stops_is_an_error() {
    let g = Gradient::new(GradientType::Linear, vec![color_stop(red(), None)]);
    assert_eq!(
        g.calculate_color(Point { x: 0, y: 0 }),
        Err(GradientError::InsufficientStops),
    );
    assert_eq!(g.color_for_parameter(0), Err(GradientError::InsufficientStops));
    assert!(g.render(4, 4).is_err());
    let empty = Gradient::new(GradientType::Linear, Vec::new());
    assert_eq!(
        empty.calculate_color(Point { x: 0, y: 0 }),
        Err(GradientError::InsufficientStops),
    );
}

#[test]
fn equal_adjacent_percentages_give_later_stop() {
    let stops = vec![
        color_stop(red(), Some(SCALE / 2)),
        color_stop(blue(), Some(SCALE / 2)),
    ];
    let g = Gradient::new(GradientType::Linear, stops);
    assert_eq!(g.color_for_parameter(SCALE / 2).unwrap(), blue());
}

#[test]
fn degenerate_axis_paints_first_stop() {
    let g = Gradient::linear(AngleOrCorner::Side(GradientSide::Right), two_stops(), 0, 0);
    assert_eq!(g.calculate_color(Point { x: 0, y: 0 }).unwrap(), red());
}

#[test]
fn radial_center_and_edge_reference() {
    let stops = vec![color_stop(red(), None), color_stop(blue(), None)];
    let g = Gradient::radial(Point { x: 0, y: 0 }, stops);
    // At the center the distance ratio is zero.
    assert_eq!(g.calculate_color(Point { x: 0, y: 0 }).unwrap(), red());
    // At the edge reference point, pixel (1, 1), the ratio is one.
    assert_eq!(g.calculate_color(Point { x: 2, y: 2 }).unwrap(), blue());
}

#[test]
fn conic_interpolates_a_supplied_parameter() {
    let g = Gradient::conic(Point { x: 800, y: 600 }, two_stops());
    assert!(matches!(g.gradient_type, GradientType::Conic));
    assert_eq!(g.color_for_parameter(0).unwrap(), red());
    assert_eq!(
        g.color_for_parameter(SCALE / 4).unwrap(),
        red().interpolate(blue(), SCALE / 4),
    );
}

#[test]
fn render_writes_bgra_rows() {
    let g = Gradient::linear(AngleOrCorner::Side(GradientSide::Right), two_stops(), 2, 1);
    let buf = g.render(2, 1).unwrap();
    assert_eq!(buf.len(), 8);
    let (r0, g0, b0, a0) = red().to_rgba();
    assert_eq!(&buf[0..4], &[b0, g0, r0, a0]);
    let mid = red().interpolate(blue(), SCALE / 2);
    let (r1, g1, b1, a1) = mid.to_rgba();
    assert_eq!(&buf[4..8], &[b1, g1, r1, a1]);
}

#[test]
fn render_of_empty_canvas_is_empty() {
    let g = Gradient::linear(AngleOrCorner::Side(GradientSide::Right), two_stops(), 0, 0);
    assert_eq!(g.render(0, 0).unwrap().len(), 0);
}
