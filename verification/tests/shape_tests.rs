use galar::auxiliar::roll_dice;
use galar::color::Color;
use galar::fixed::FX_ONE;
use galar::shape::{Shape, Vertex};
use galar::texture::Material;
use galar::transform::Transform;

#[test]
fn quad_layout() {
    let s = Shape::quad(4);
    assert_eq!(s.vertices.len(), 4);
    assert_eq!(s.vertices[0].x, 0);
    assert_eq!(s.vertices[0].y, 4 * FX_ONE);
    assert_eq!(s.vertices[0].color, Color::rgb(255, 0, 0));
    assert_eq!((s.vertices[0].u, s.vertices[0].v), (0, FX_ONE));
    assert_eq!(s.vertices[2].x, 4 * FX_ONE);
    assert_eq!(s.vertices[2].y, 0);
    assert_eq!(s.indices, vec![(0, 1, 2), (0, 3, 2)]);
    assert_eq!(s.layer, 0);
    assert!(!s.origen);
}

#[test]
fn vertex_new_and_default() {
    let v = Vertex::new(1, 2, Color::rgb(3, 4, 5), 6, 7);
    assert_eq!((v.x, v.y, v.u, v.v), (1, 2, 6, 7));
    let d = Vertex::default();
    assert_eq!((d.x, d.y, d.u, d.v), (0, 0, 0, 0));
    assert_eq!(d.color.a, 255);
}

#[test]
fn builders_set_transform_parts() {
    let s = Shape::quad(2)
        .with_position(5 * FX_ONE, 6 * FX_ONE)
        .with_rotation(0, FX_ONE)
        .with_scale(2 * FX_ONE, 3 * FX_ONE);
    assert_eq!(s.transform.translation_x, 5 * FX_ONE);
    assert_eq!(s.transform.translation_y, 6 * FX_ONE);
    assert_eq!(s.transform.rotation_cos, 0);
    assert_eq!(s.transform.rotation_sin, FX_ONE);
    assert_eq!(s.transform.scale_x, 2 * FX_ONE);
    assert_eq!(s.transform.scale_y, 3 * FX_ONE);
}

#[test]
fn with_color_overrides_material() {
    let s = Shape::quad(2).with_color(Color::rgb(9, 9, 9));
    assert_eq!(s.material.base_color, Some(Color::rgb(9, 9, 9)));
    assert!(s.material.texture.is_none());
}

#[test]
fn setters_mirror_builders() {
    let mut s = Shape::quad(2);
    s.set_position(FX_ONE, 2 * FX_ONE);
    s.set_rotation(FX_ONE, 0);
    s.set_scale(FX_ONE, FX_ONE);
    s.set_origen(true);
    s.set_color(Color::rgb(1, 2, 3));
    assert_eq!(s.transform.translation_x, FX_ONE);
    assert_eq!(s.transform.translation_y, 2 * FX_ONE);
    assert!(s.origen);
    assert_eq!(s.material.base_color, Some(Color::rgb(1, 2, 3)));
    let t = Transform::identity();
    s.set_transform(t);
    assert_eq!(s.transform, t);
    s.set_material(Material::default());
    assert!(s.material.base_color.is_none());
}

#[test]
fn with_orgien_flag() {
    let s = Shape::quad(2).with_orgien(true);
    assert!(s.origen);
}

#[test]
fn dimensions_and_center_of_quad() {
    let s = Shape::quad(4);
    assert_eq!(s.get_dimensions(), (4 * FX_ONE, 4 * FX_ONE));
    assert_eq!(s.get_center(), (2 * FX_ONE, 2 * FX_ONE));
}

#[test]
fn dimensions_of_uneven_shape() {
    let s = Shape {
        vertices: vec![
            Vertex::new(-FX_ONE, 0, Color::default(), 0, 0),
            Vertex::new(3 * FX_ONE, 5 * FX_ONE, Color::default(), 0, 0),
            Vertex::new(0, -2 * FX_ONE, Color::default(), 0, 0),
        ],
        indices: vec![],
        transform: Transform::identity(),
        material: Material::default(),
        layer: 0,
        origen: false,
    };
    assert_eq!(s.get_dimensions(), (4 * FX_ONE, 7 * FX_ONE));
    assert_eq!(s.get_center(), (FX_ONE, 3 * FX_ONE / 2));
}

#[test]
fn roll_dice_stays_below_faces() {
    assert_eq!(roll_dice(1), 0);
    for _ in 0..32 {
        assert!(roll_dice(6) < 6);
    }
}
