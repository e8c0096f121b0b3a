use galar::color::Color;
use galar::fixed::FX_ONE;

#[test]
fn rgb_sets_channels_opaque() {
    let c = Color::rgb(10, 20, 30);
    assert_eq!(c.r, 10);
    assert_eq!(c.g, 20);
    assert_eq!(c.b, 30);
    assert_eq!(c.a, 255);
}

#[test]
fn rgba_sets_all_channels() {
    let c = Color::rgba(1, 2, 3, 4);
    assert_eq!((c.r, c.g, c.b, c.a), (1, 2, 3, 4));
}

#[test]
fn default_is_opaque_black() {
    let c = Color::default();
    assert_eq!((c.r, c.g, c.b, c.a), (0, 0, 0, 255));
}

#[test]
fn to_hex_packs_argb() {
    let c = Color::rgba(0x12, 0x34, 0x56, 0x78);
    assert_eq!(c.to_hex(), 0x78123456);
}

#[test]
fn to_rgba_hex_packs_rgba() {
    let c = Color::rgba(0x12, 0x34, 0x56, 0x78);
    assert_eq!(c.to_rgba_hex(), 0x12345678);
}

#[test]
fn hsl_primary_sectors() {
    assert_eq!(Color::hsl(0, FX_ONE, FX_ONE / 2), Color::rgb(255, 0, 0));
    assert_eq!(Color::hsl(120 * FX_ONE, FX_ONE, FX_ONE / 2), Color::rgb(0, 255, 0));
    assert_eq!(Color::hsl(240 * FX_ONE, FX_ONE, FX_ONE / 2), Color::rgb(0, 0, 255));
}

#[test]
fn hsl_secondary_sectors() {
    assert_eq!(Color::hsl(60 * FX_ONE, FX_ONE, FX_ONE / 2), Color::rgb(255, 255, 0));
    assert_eq!(Color::hsl(180 * FX_ONE, FX_ONE, FX_ONE / 2), Color::rgb(0, 255, 255));
    assert_eq!(Color::hsl(300 * FX_ONE, FX_ONE, FX_ONE / 2), Color::rgb(255, 0, 255));
}

#[test]
fn hsl_hue_wraps() {
    assert_eq!(Color::hsl(360 * FX_ONE, FX_ONE, FX_ONE / 2), Color::rgb(255, 0, 0));
    assert_eq!(Color::hsl(-120 * FX_ONE, FX_ONE, FX_ONE / 2), Color::rgb(0, 0, 255));
}

#[test]
fn hsl_zero_saturation_is_gray() {
    // round(0.5 * 255) rounds half away from zero to 128.
    assert_eq!(Color::hsl(0, 0, FX_ONE / 2), Color::rgb(128, 128, 128));
    assert_eq!(Color::hsl(77 * FX_ONE, 0, FX_ONE), Color::rgb(255, 255, 255));
    assert_eq!(Color::hsl(77 * FX_ONE, 0, 0), Color::rgb(0, 0, 0));
}

#[test]
fn hsl_clamps_saturation_and_lightness() {
    assert_eq!(Color::hsl(0, 2 * FX_ONE, FX_ONE / 2), Color::hsl(0, FX_ONE, FX_ONE / 2));
    assert_eq!(Color::hsl(0, FX_ONE, 2 * FX_ONE), Color::rgb(255, 255, 255));
    assert_eq!(Color::hsl(0, FX_ONE, -7), Color::rgb(0, 0, 0));
}

#[test]
fn hsla_keeps_alpha() {
    let c = Color::hsla(0, FX_ONE, FX_ONE / 2, 42);
    assert_eq!(c, Color::rgba(255, 0, 0, 42));
}

#[test]
fn rainbow_endpoints() {
    assert_eq!(Color::rainbow(0), Color::rgb(255, 0, 0));
    // t = 1 maps to hue 360, which wraps back to red.
    assert_eq!(Color::rainbow(FX_ONE), Color::rgb(255, 0, 0));
    assert_eq!(Color::rainbow(FX_ONE / 3), Color::rgb(0, 255, 0));
}

#[test]
fn lightness_scale() {
    assert_eq!(Color::lightness(0), Color::rgb(0, 0, 0));
    assert_eq!(Color::lightness(FX_ONE), Color::rgb(255, 255, 255));
}

#[test]
fn lerp_midpoint_rounds_half_up() {
    let c = Color::lerp(Color::rgb(0, 0, 0), Color::rgb(255, 255, 255), FX_ONE / 2);
    assert_eq!(c, Color::rgb(128, 128, 128));
}

#[test]
fn lerp_clamps_parameter() {
    let a = Color::rgb(10, 20, 30);
    let b = Color::rgb(200, 100, 50);
    assert_eq!(Color::lerp(a, b, -FX_ONE), a);
    assert_eq!(Color::lerp(a, b, 3 * FX_ONE), b);
}

#[test]
fn from_heat_key_points() {
    assert_eq!(Color::from_heat(0), Color::rgb(0, 0, 0));
    assert_eq!(Color::from_heat(FX_ONE / 8), Color::rgb(128, 0, 0));
    assert_eq!(Color::from_heat(FX_ONE / 4), Color::rgb(255, 0, 0));
    assert_eq!(Color::from_heat(FX_ONE / 2), Color::rgb(255, 255, 0));
    assert_eq!(Color::from_heat(3 * FX_ONE / 4), Color::rgb(255, 255, 128));
    assert_eq!(Color::from_heat(FX_ONE), Color::rgb(255, 255, 255));
}

#[test]
fn interpolate_color_truncates() {
    let black = Color::rgb(0, 0, 0);
    let white = Color::rgb(255, 255, 255);
    // (1 - 0.5) * 0 + 0.5 * 255 = 127.5, truncated to 127 (lerp would round).
    let c = black.interpolate_color(white, FX_ONE / 2);
    assert_eq!(c, Color::rgb(127, 127, 127));
}

#[test]
fn interpolate_color_saturates_out_of_range() {
    let a = Color::rgb(0, 0, 0);
    let b = Color::rgb(255, 255, 255);
    // t = 2: (1 - 2) * 0 + 2 * 255 = 510, saturated to 255.
    let c = a.interpolate_color(b, 2 * FX_ONE);
    assert_eq!((c.r, c.g, c.b), (255, 255, 255));
    // t = -1 on the red channel of (255, _) drives it past 255 as well,
    // while starting from 0 toward 255 it goes negative and saturates to 0.
    let d = a.interpolate_color(b, -FX_ONE);
    assert_eq!((d.r, d.g, d.b), (0, 0, 0));
}

#[test]
fn getters_and_setters() {
    let mut c = Color::rgb(1, 2, 3);
    assert_eq!((c.r(), c.g(), c.b(), c.a()), (1, 2, 3, 255));
    c.set_r(9);
    c.set_g(8);
    c.set_b(7);
    c.set_a(6);
    assert_eq!((c.r, c.g, c.b, c.a), (9, 8, 7, 6));
}

#[test]
fn u32_from_color_is_the_canonical_packing() {
    let c = Color::rgba(0x12, 0x34, 0x56, 0x78);
    assert_eq!(u32::from(c), 0x78123456);
}

#[test]
fn random_is_opaque() {
    let c = Color::random();
    assert_eq!(c.a, 255);
    assert!(c.r < 255 && c.g < 255 && c.b < 255);
}

#[test]
fn random_with_alpha_draws_all_channels() {
    let c = Color::random_with_alpha();
    assert!(c.r < 255 && c.g < 255 && c.b < 255 && c.a < 255);
}
