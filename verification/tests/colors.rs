use solar_raytracer::color::{lerp_color, rgb, Color};
use solar_raytracer::fixed::ONE;

#[test]
fn rgb_is_opaque() {
    assert_eq!(rgb(1, 2, 3), Color { r: 1, g: 2, b: 3, a: 255 });
}

#[test]
fn lerp_color_ends_and_middle() {
    let a = rgb(0, 0, 0);
    let b = rgb(255, 255, 255);
    assert_eq!(lerp_color(a, b, 0), a);
    assert_eq!(lerp_color(a, b, ONE), b);
    assert_eq!(lerp_color(a, b, ONE / 2), rgb(127, 127, 127));
}

#[test]
fn lerp_color_goes_down_as_well_as_up() {
    assert_eq!(lerp_color(rgb(10, 200, 30), rgb(110, 100, 30), 250_000), rgb(35, 175, 30));
}

#[test]
fn lerp_color_limits_the_weight() {
    let a = rgb(10, 200, 30);
    let b = rgb(110, 100, 30);
    assert_eq!(lerp_color(a, b, -5), a);
    assert_eq!(lerp_color(a, b, 7 * ONE), b);
    assert_eq!(lerp_color(a, b, i64::MIN), a);
    assert_eq!(lerp_color(a, b, i64::MAX), b);
}

#[test]
fn lerp_color_makes_an_opaque_colour() {
    let a = Color { r: 1, g: 2, b: 3, a: 0 };
    let b = Color { r: 5, g: 6, b: 7, a: 9 };
    assert_eq!(lerp_color(a, b, 0).a, 255);
}

#[test]
fn lit_dims_each_channel_by_its_factor() {
    assert_eq!(rgb(200, 100, 50).lit(500_000, 450_000, 425_000), rgb(100, 45, 21));
    assert_eq!(rgb(255, 255, 255).lit(ONE, 0, 1), rgb(255, 0, 0));
}

#[test]
fn lit_by_one_changes_nothing() {
    assert_eq!(rgb(17, 0, 255).lit(ONE, ONE, ONE), rgb(17, 0, 255));
}
