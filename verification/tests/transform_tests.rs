use galar::fixed::FX_ONE;
use galar::transform::Transform;

#[test]
fn identity_fields() {
    let t = Transform::identity();
    assert_eq!(t.translation_x, 0);
    assert_eq!(t.translation_y, 0);
    assert_eq!(t.rotation_cos, FX_ONE);
    assert_eq!(t.rotation_sin, 0);
    assert_eq!(t.scale_x, FX_ONE);
    assert_eq!(t.scale_y, FX_ONE);
}

#[test]
fn from_translation_has_unit_scale() {
    let t = Transform::from_translation(3 * FX_ONE, 4 * FX_ONE);
    assert_eq!(t.translation_x, 3 * FX_ONE);
    assert_eq!(t.translation_y, 4 * FX_ONE);
    assert_eq!(t.scale_x, FX_ONE);
    assert_eq!(t.scale_y, FX_ONE);
    assert_eq!(t.rotation_cos, FX_ONE);
    assert_eq!(t.rotation_sin, 0);
}

#[test]
fn apply_translates() {
    let t = Transform::from_translation(10 * FX_ONE, 5 * FX_ONE);
    let p = t.apply(3 * FX_ONE, 4 * FX_ONE);
    assert_eq!(p, (13 * FX_ONE, 9 * FX_ONE));
}

#[test]
fn apply_scales_before_translating() {
    let t = Transform::new(FX_ONE, 0, FX_ONE, 0, 2 * FX_ONE, 3 * FX_ONE);
    let p = t.apply(3 * FX_ONE, 2 * FX_ONE);
    assert_eq!(p, (7 * FX_ONE, 6 * FX_ONE));
}

#[test]
fn apply_quarter_turn() {
    // A quarter turn: cosine 0, sine 1.
    let t = Transform::new(0, 0, 0, FX_ONE, FX_ONE, FX_ONE);
    let p = t.apply(3 * FX_ONE, 0);
    assert_eq!(p, (0, 3 * FX_ONE));
}

#[test]
fn apply_centered_at_pivot_returns_translated_pivot() {
    // Zero rotation and unit scale at the shape's own pivot: the result is
    // the pivot plus the translation, exactly.
    let t = Transform::new(5 * FX_ONE, 7 * FX_ONE, FX_ONE, 0, FX_ONE, FX_ONE);
    let p = t.apply_centered(3 * FX_ONE, 2 * FX_ONE, 3 * FX_ONE, 2 * FX_ONE);
    assert_eq!(p, (8 * FX_ONE, 9 * FX_ONE));
}

#[test]
fn apply_centered_snaps_to_whole_pixels() {
    // A half-pixel translation rounds to the nearest whole pixel.
    let t = Transform::new(FX_ONE / 2, -FX_ONE / 2, FX_ONE, 0, FX_ONE, FX_ONE);
    let p = t.apply_centered(0, 0, 0, 0);
    assert_eq!(p, (FX_ONE, -FX_ONE));
}

#[test]
fn default_keeps_zero_angle() {
    let t = Transform::default();
    assert_eq!(t.rotation_cos, FX_ONE);
    assert_eq!(t.rotation_sin, 0);
    assert_eq!(t.scale_x, 0);
    assert_eq!(t.scale_y, 0);
}
