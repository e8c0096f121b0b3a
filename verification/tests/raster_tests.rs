use galar::color::Color;
use galar::engine::ConfigGalar;
use galar::fixed::FX_ONE;
use galar::raster::{draw_shape, edge_function};
use galar::shape::{Shape, Vertex};
use galar::texture::{Material, Texture};
use galar::transform::Transform;

const RED: u32 = 0xFFFF0000;

fn solid(color: Color) -> Material {
    Material { base_color: Some(color), texture: None }
}

fn plain_shape(vertices: Vec<Vertex>, indices: Vec<(usize, usize, usize)>, material: Material) -> Shape {
    Shape {
        vertices,
        indices,
        transform: Transform::identity(),
        material,
        layer: 0,
        origen: false,
    }
}

#[test]
fn edge_function_signed_area() {
    assert_eq!(edge_function((0, 0), (4, 0), (2, 2)), 8);
    assert_eq!(edge_function((0, 0), (2, 2), (4, 0)), -8);
    // Collinear points give zero.
    assert_eq!(edge_function((0, 0), (5, 0), (10, 0)), 0);
}

#[test]
fn barycentric_weights_partition_the_plane() {
    // For a triangle of nonzero area, the three edge values at any pixel sum
    // exactly to the area; a painted pixel has all three weights
    // nonnegative, an unpainted one in the box has at least one negative.
    let fx = FX_ONE;
    let p0 = (0, 0);
    let p1 = (4 * fx, 0);
    let p2 = (0, 4 * fx);
    let area = edge_function(p0, p1, p2);
    assert_ne!(area, 0);
    let mut c = ConfigGalar::new(8, 8);
    let s = plain_shape(
        vec![
            Vertex::new(p0.0, p0.1, Color::rgb(0, 0, 0), 0, 0),
            Vertex::new(p1.0, p1.1, Color::rgb(0, 0, 0), 0, 0),
            Vertex::new(p2.0, p2.1, Color::rgb(0, 0, 0), 0, 0),
        ],
        vec![(0, 1, 2)],
        solid(Color::rgb(255, 0, 0)),
    );
    draw_shape(&mut c, &s);
    for y in 0..5i64 {
        for x in 0..5i64 {
            let p = (x * fx, y * fx);
            let e0 = edge_function(p, p1, p2);
            let e1 = edge_function(p, p2, p0);
            let e2 = edge_function(p, p0, p1);
            // The weights e_i / area sum to one: the numerators sum to area.
            assert_eq!(e0 + e1 + e2, area);
            let sa = area.signum();
            let inside = e0 * sa >= 0 && e1 * sa >= 0 && e2 * sa >= 0;
            let painted = c.get_pixel(x as usize, y as usize) == RED;
            assert_eq!(inside, painted, "pixel ({}, {})", x, y);
        }
    }
}

#[test]
fn degenerate_triangle_draws_nothing() {
    // Three collinear points: (0,0), (5,0), (10,0).
    let mut c = ConfigGalar::new(16, 16);
    let s = plain_shape(
        vec![
            Vertex::new(0, 0, Color::rgb(255, 0, 0), 0, 0),
            Vertex::new(5 * FX_ONE, 0, Color::rgb(255, 0, 0), 0, 0),
            Vertex::new(10 * FX_ONE, 0, Color::rgb(255, 0, 0), 0, 0),
        ],
        vec![(0, 1, 2)],
        solid(Color::rgb(255, 0, 0)),
    );
    draw_shape(&mut c, &s);
    assert!(c.buffer().iter().all(|&p| p == 0));
}

#[test]
fn solid_triangle_covers_expected_pixels() {
    // Right triangle with legs of 4 pixels: pixels with x + y <= 4 are inside.
    let mut c = ConfigGalar::new(8, 8);
    let s = plain_shape(
        vec![
            Vertex::new(0, 0, Color::rgb(0, 0, 0), 0, 0),
            Vertex::new(4 * FX_ONE, 0, Color::rgb(0, 0, 0), 0, 0),
            Vertex::new(0, 4 * FX_ONE, Color::rgb(0, 0, 0), 0, 0),
        ],
        vec![(0, 1, 2)],
        solid(Color::rgb(255, 0, 0)),
    );
    draw_shape(&mut c, &s);
    let mut painted = 0;
    for y in 0..8usize {
        for x in 0..8usize {
            let inside = x + y <= 4;
            let expected = if inside { RED } else { 0 };
            assert_eq!(c.get_pixel(x, y), expected, "pixel ({}, {})", x, y);
            if inside {
                painted += 1;
            }
        }
    }
    assert_eq!(painted, 15);
}

#[test]
fn winding_does_not_change_coverage() {
    // The same triangle with the opposite winding covers the same pixels.
    let mut c1 = ConfigGalar::new(8, 8);
    let mut c2 = ConfigGalar::new(8, 8);
    let verts = vec![
        Vertex::new(0, 0, Color::rgb(0, 0, 0), 0, 0),
        Vertex::new(4 * FX_ONE, 0, Color::rgb(0, 0, 0), 0, 0),
        Vertex::new(0, 4 * FX_ONE, Color::rgb(0, 0, 0), 0, 0),
    ];
    let s1 = plain_shape(verts.clone(), vec![(0, 1, 2)], solid(Color::rgb(255, 0, 0)));
    let s2 = plain_shape(verts, vec![(0, 2, 1)], solid(Color::rgb(255, 0, 0)));
    draw_shape(&mut c1, &s1);
    draw_shape(&mut c2, &s2);
    assert_eq!(c1.buffer(), c2.buffer());
}

#[test]
fn vertex_colors_interpolate() {
    let mut c = ConfigGalar::new(8, 8);
    let s = plain_shape(
        vec![
            Vertex::new(0, 0, Color::rgb(255, 0, 0), 0, 0),
            Vertex::new(4 * FX_ONE, 0, Color::rgb(0, 255, 0), 0, 0),
            Vertex::new(0, 4 * FX_ONE, Color::rgb(0, 0, 255), 0, 0),
        ],
        vec![(0, 1, 2)],
        Material::default(),
    );
    draw_shape(&mut c, &s);
    // The corners carry the pure vertex colors.
    assert_eq!(c.get_pixel(0, 0), 0xFFFF0000);
    assert_eq!(c.get_pixel(4, 0), 0xFF00FF00);
    assert_eq!(c.get_pixel(0, 4), 0xFF0000FF);
    // The midpoint of the red-green edge mixes half and half; 127.5 rounds
    // half away from zero to 128.
    assert_eq!(c.get_pixel(2, 0), 0xFF808000);
}

#[test]
fn solid_color_overrides_texture() {
    let texture = Texture {
        path: String::new(),
        data: vec![0xFF111111, 0xFF222222, 0xFF333333, 0xFF444444],
        width: 2,
        height: 2,
    };
    let mut c = ConfigGalar::new(8, 8);
    let mut s = Shape::quad(4);
    s.material = Material { base_color: Some(Color::rgb(255, 0, 0)), texture: Some(texture) };
    draw_shape(&mut c, &s);
    assert_eq!(c.get_pixel(1, 1), RED);
}

#[test]
fn textured_quad_samples_corner_texels() {
    // A texture-mapped quad sampled at UV (0,0) and (1,1) returns the
    // texture's corner texels exactly — nearest sample, no blending.
    let texture = Texture {
        path: String::new(),
        data: vec![0xFF111111, 0xFF222222, 0xFF333333, 0xFF444444],
        width: 2,
        height: 2,
    };
    let mut c = ConfigGalar::new(8, 8);
    let mut s = Shape::quad(4);
    s.material = Material { base_color: None, texture: Some(texture) };
    draw_shape(&mut c, &s);
    // Pixel (0,0) lies on the vertex with UV (0,0): the first texel.
    assert_eq!(c.get_pixel(0, 0), 0xFF111111);
    // Pixel (4,4) lies on the vertex with UV (1,1): the last texel.
    assert_eq!(c.get_pixel(4, 4), 0xFF444444);
}

#[test]
fn out_of_range_indices_are_skipped() {
    let mut c = ConfigGalar::new(8, 8);
    let s = plain_shape(
        vec![
            Vertex::new(0, 0, Color::rgb(0, 0, 0), 0, 0),
            Vertex::new(4 * FX_ONE, 0, Color::rgb(0, 0, 0), 0, 0),
            Vertex::new(0, 4 * FX_ONE, Color::rgb(0, 0, 0), 0, 0),
        ],
        vec![(0, 1, 9)],
        solid(Color::rgb(255, 0, 0)),
    );
    draw_shape(&mut c, &s);
    assert!(c.buffer().iter().all(|&p| p == 0));
}

#[test]
fn translated_triangle_moves() {
    let mut c = ConfigGalar::new(8, 8);
    let mut s = plain_shape(
        vec![
            Vertex::new(0, 0, Color::rgb(0, 0, 0), 0, 0),
            Vertex::new(2 * FX_ONE, 0, Color::rgb(0, 0, 0), 0, 0),
            Vertex::new(0, 2 * FX_ONE, Color::rgb(0, 0, 0), 0, 0),
        ],
        vec![(0, 1, 2)],
        solid(Color::rgb(255, 0, 0)),
    );
    s = s.with_position(3 * FX_ONE, 3 * FX_ONE);
    draw_shape(&mut c, &s);
    assert_eq!(c.get_pixel(3, 3), RED);
    assert_eq!(c.get_pixel(0, 0), 0);
}
