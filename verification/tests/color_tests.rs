use gradient::SCALE;
use gradient::hsla;

#[test]
fn make_clamps_out_of_range_components() {
    let c = hsla(2 * SCALE, -SCALE, SCALE / 2, SCALE + 1);
    assert_eq!(c.h, SCALE);
    assert_eq!(c.s, 0);
    assert_eq!(c.l, SCALE / 2);
    assert_eq!(c.a, SCALE);
}

#[test]
fn make_keeps_in_range_components() {
    let c = hsla(0, SCALE, SCALE / 4, SCALE / 3);
    assert_eq!(c.h, 0);
    assert_eq!(c.s, SCALE);
    assert_eq!(c.l, SCALE / 4);
    assert_eq!(c.a, SCALE / 3);
}

#[test]
fn interpolate_identical_endpoints_is_identity() {
    let a = hsla(SCALE / 3, SCALE / 4, SCALE / 5, SCALE);
    let params = [0, 1, SCALE / 7, SCALE / 2, SCALE - 1, SCALE];
    for t in params {
        assert_eq!(a.interpolate(a, t), a);
    }
}

#[test]
fn interpolate_endpoints_are_exact() {
    let a = hsla(0, SCALE, SCALE / 2, SCALE);
    let b = hsla(SCALE, 0, SCALE / 4, SCALE / 2);
    assert_eq!(a.interpolate(b, 0), a);
    assert_eq!(a.interpolate(b, SCALE), b);
}

#[test]
fn interpolate_midpoint_averages_each_channel() {
    let a = hsla(0, 0, 0, SCALE);
    let b = hsla(0, 0, SCALE, SCALE);
    let m = a.interpolate(b, SCALE / 2);
    assert_eq!(m.l, SCALE / 2);
    assert_eq!(m.h, 0);
    assert_eq!(m.s, 0);
    assert_eq!(m.a, SCALE);
}

#[test]
fn hue_does_not_wrap_around_the_wheel() {
    let a = hsla(SCALE * 95 / 100, SCALE, SCALE / 2, SCALE);
    let b = hsla(SCALE * 5 / 100, SCALE, SCALE / 2, SCALE);
    let m = a.interpolate(b, SCALE / 2);
    assert_eq!(m.h, SCALE / 2);
}

#[test]
fn black_white_red_are_fixed_points() {
    let black = hsla(0, 0, 0, SCALE);
    assert_eq!(black.to_rgba(), (0, 0, 0, 255));
    let white = hsla(0, 0, SCALE, SCALE);
    assert_eq!(white.to_rgba(), (255, 255, 255, 255));
    let red = hsla(0, SCALE, SCALE / 2, SCALE);
    assert_eq!(red.to_rgba(), (255, 0, 0, 255));
}

#[test]
fn byte_conversion_truncates_instead_of_rounding() {
    let gray = hsla(0, 0, SCALE / 2, SCALE / 2);
    assert_eq!(gray.to_rgba(), (127, 127, 127, 127));
}

#[test]
fn green_hue_third_of_turn() {
    let green = hsla(SCALE / 3, SCALE, SCALE / 2, SCALE);
    assert_eq!(green.to_rgba(), (0, 255, 0, 255));
}

#[test]
fn blue_hue_two_thirds_of_turn() {
    let blue = hsla(2 * SCALE / 3, SCALE, SCALE / 2, SCALE);
    assert_eq!(blue.to_rgba(), (0, 0, 255, 255));
}
