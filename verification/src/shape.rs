//! Meshes: vertices with per-vertex color and texture coordinates, triangle
//! index triples, one transform, one material, a layer index and the
//! origin-centering flag.

use crate::color::Color;
use crate::fixed::FX_ONE;
use crate::texture::Material;
use crate::transform::{Transform, LOCAL_LIMIT};
use vstd::prelude::*;

verus! {

/// One mesh vertex: a local fixed-point position (pre-transform), a color,
/// and fixed-point texture coordinates (conventionally in `[0, FX_ONE]`,
/// unclamped at storage time).
#[derive(Debug, Clone, Copy, PartialEq, Eq, Structural)]
pub struct Vertex {
    pub x: i64,
    pub y: i64,
    pub color: Color,
    /// Texture coordinates.
    pub u: i64,
    pub v: i64,
}

impl Vertex {
    /// A vertex from its parts.
    pub fn new(x: i64, y: i64, color: Color, u: i64, v: i64) -> (r: Self)
        ensures
            r == (Vertex { x, y, color, u, v }),
    {
        Vertex { x, y, color, u, v }
    }
}

impl Default for Vertex {
    /// The origin, opaque black, texture coordinates zero.
    fn default() -> (r: Self)
        ensures
            r == (Vertex { x: 0, y: 0, color: Color { r: 0, g: 0, b: 0, a: 255 }, u: 0, v: 0 }),
    {
        Vertex { x: 0, y: 0, color: Color { r: 0, g: 0, b: 0, a: 255 }, u: 0, v: 0 }
    }
}

/// A drawable mesh.  Each entry of `indices` names three vertex positions
/// forming one triangle; the rasterizer skips a triple that points outside
/// the vertex list.  `layer` is an advisory z-order only — drawing order is
/// plugin registration order.
#[derive(Clone)]
pub struct Shape {
    pub vertices: Vec<Vertex>,
    /// Triangles, as triples of vertex positions.
    pub indices: Vec<(usize, usize, usize)>,
    pub transform: Transform,
    pub material: Material,
    /// Advisory z-order; not enforced by the engine.
    pub layer: usize,
    /// When set, vertices are transformed about the shape's bounding-box
    /// center instead of the local origin.
    pub origen: bool,
}

/// All vertex coordinates and texture coordinates lie within the engine's
/// fixed-point working range.
pub open spec fn vertices_bounded(vs: Seq<Vertex>) -> bool {
    forall|k: int|
        0 <= k < vs.len() ==> {
            &&& -LOCAL_LIMIT <= #[trigger] vs[k].x <= LOCAL_LIMIT
            &&& -LOCAL_LIMIT <= vs[k].y <= LOCAL_LIMIT
            &&& -LOCAL_LIMIT <= vs[k].u <= LOCAL_LIMIT
            &&& -LOCAL_LIMIT <= vs[k].v <= LOCAL_LIMIT
        }
}

/// The least x coordinate among the vertices.
pub open spec fn min_x_of(vs: Seq<Vertex>) -> int
    decreases vs.len(),
{
    if vs.len() <= 1 {
        if vs.len() == 1 {
            vs[0].x as int
        } else {
            0
        }
    } else {
        let rest = min_x_of(vs.drop_last());
        if vs.last().x < rest {
            vs.last().x as int
        } else {
            rest
        }
    }
}

/// The greatest x coordinate among the vertices.
pub open spec fn max_x_of(vs: Seq<Vertex>) -> int
    decreases vs.len(),
{
    if vs.len() <= 1 {
        if vs.len() == 1 {
            vs[0].x as int
        } else {
            0
        }
    } else {
        let rest = max_x_of(vs.drop_last());
        if vs.last().x > rest {
            vs.last().x as int
        } else {
            rest
        }
    }
}

/// The least y coordinate among the vertices.
pub open spec fn min_y_of(vs: Seq<Vertex>) -> int
    decreases vs.len(),
{
    if vs.len() <= 1 {
        if vs.len() == 1 {
            vs[0].y as int
        } else {
            0
        }
    } else {
        let rest = min_y_of(vs.drop_last());
        if vs.last().y < rest {
            vs.last().y as int
        } else {
            rest
        }
    }
}

/// The greatest y coordinate among the vertices.
pub open spec fn max_y_of(vs: Seq<Vertex>) -> int
    decreases vs.len(),
{
    if vs.len() <= 1 {
        if vs.len() == 1 {
            vs[0].y as int
        } else {
            0
        }
    } else {
        let rest = max_y_of(vs.drop_last());
        if vs.last().y > rest {
            vs.last().y as int
        } else {
            rest
        }
    }
}

/// The x coordinate of the local bounding-box center.
pub open spec fn center_x_of(vs: Seq<Vertex>) -> int {
    min_x_of(vs) + (max_x_of(vs) - min_x_of(vs)) / 2
}

/// The y coordinate of the local bounding-box center.
pub open spec fn center_y_of(vs: Seq<Vertex>) -> int {
    min_y_of(vs) + (max_y_of(vs) - min_y_of(vs)) / 2
}

impl Shape {
    /// A unit quad of the given side length (in whole pixels): two triangles
    /// over four corner vertices carrying red, green, blue and magenta and
    /// the four corner texture coordinates.
    pub fn quad(size: usize) -> (s: Shape)
        requires
            size <= 8192,
        ensures
            s.vertices@.len() == 4,
            s.vertices@[0] == (Vertex {
                x: 0,
                y: (size * FX_ONE) as i64,
                color: Color { r: 255, g: 0, b: 0, a: 255 },
                u: 0,
                v: FX_ONE,
            }),
            s.vertices@[1] == (Vertex {
                x: 0,
                y: 0,
                color: Color { r: 0, g: 255, b: 0, a: 255 },
                u: 0,
                v: 0,
            }),
            s.vertices@[2] == (Vertex {
                x: (size * FX_ONE) as i64,
                y: 0,
                color: Color { r: 0, g: 0, b: 255, a: 255 },
                u: FX_ONE,
                v: 0,
            }),
            s.vertices@[3] == (Vertex {
                x: (size * FX_ONE) as i64,
                y: (size * FX_ONE) as i64,
                color: Color { r: 255, g: 0, b: 255, a: 255 },
                u: FX_ONE,
                v: FX_ONE,
            }),
            s.indices@ =~= seq![(0usize, 1usize, 2usize), (0usize, 3usize, 2usize)],
            s.transform == (Transform {
                translation_x: 0,
                translation_y: 0,
                rotation_cos: FX_ONE,
                rotation_sin: 0,
                scale_x: FX_ONE,
                scale_y: FX_ONE,
            }),
            s.material.base_color is None,
            s.material.texture is None,
            s.layer == 0,
            s.origen == false,
            vertices_bounded(s.vertices@),
    {
        let side = (size as i64) * FX_ONE;
        let mut vertices: Vec<Vertex> = Vec::new();
        vertices.push(Vertex { x: 0, y: side, color: Color::rgb(255, 0, 0), u: 0, v: FX_ONE });
        vertices.push(Vertex { x: 0, y: 0, color: Color::rgb(0, 255, 0), u: 0, v: 0 });
        vertices.push(Vertex { x: side, y: 0, color: Color::rgb(0, 0, 255), u: FX_ONE, v: 0 });
        vertices.push(Vertex { x: side, y: side, color: Color::rgb(255, 0, 255), u: FX_ONE, v: FX_ONE });
        let mut indices: Vec<(usize, usize, usize)> = Vec::new();
        indices.push((0, 1, 2));
        indices.push((0, 3, 2));
        Shape {
            vertices,
            indices,
            transform: Transform::identity(),
            material: Material::default(),
            layer: 0,
            origen: false,
        }
    }

    /// Builder: the translation.
    pub fn with_position(self, x: i64, y: i64) -> (s: Self)
        ensures
            s == (Shape {
                transform: Transform {
                    translation_x: x,
                    translation_y: y,
                    ..self.transform
                },
                ..self
            }),
    {
        let mut s = self;
        s.transform.translation_x = x;
        s.transform.translation_y = y;
        s
    }

    /// Builder: the rotation angle, given as its fixed-point cosine and
    /// sine.
    pub fn with_rotation(self, rotation_cos: i64, rotation_sin: i64) -> (s: Self)
        ensures
            s == (Shape {
                transform: Transform { rotation_cos, rotation_sin, ..self.transform },
                ..self
            }),
    {
        let mut s = self;
        s.transform.rotation_cos = rotation_cos;
        s.transform.rotation_sin = rotation_sin;
        s
    }

    /// Builder: the scale factors.
    pub fn with_scale(self, x: i64, y: i64) -> (s: Self)
        ensures
            s == (Shape {
                transform: Transform { scale_x: x, scale_y: y, ..self.transform },
                ..self
            }),
    {
        let mut s = self;
        s.transform.scale_x = x;
        s.transform.scale_y = y;
        s
    }

    /// Builder: the whole transform.
    pub fn with_transform(self, transform: Transform) -> (s: Self)
        ensures
            s == (Shape { transform, ..self }),
    {
        let mut s = self;
        s.transform = transform;
        s
    }

    /// Builder: the material.
    pub fn with_material(self, material: Material) -> (s: Self)
        ensures
            s.vertices == self.vertices,
            s.indices == self.indices,
            s.transform == self.transform,
            s.layer == self.layer,
            s.origen == self.origen,
            s.material == material,
    {
        let mut s = self;
        s.material = material;
        s
    }

    /// Builder: a solid color, dropping any texture.
    pub fn with_color(self, color: Color) -> (s: Self)
        ensures
            s.vertices == self.vertices,
            s.indices == self.indices,
            s.transform == self.transform,
            s.layer == self.layer,
            s.origen == self.origen,
            s.material.base_color == Some(color),
            s.material.texture is None,
    {
        let mut s = self;
        s.material = Material { base_color: Some(color), texture: None };
        s
    }

    /// Builder: the origin-centering flag.
    pub fn with_orgien(self, origen: bool) -> (s: Self)
        ensures
            s == (Shape { origen, ..self }),
    {
        let mut s = self;
        s.origen = origen;
        s
    }

    /// Sets the translation.
    pub fn set_position(&mut self, x: i64, y: i64)
        ensures
            *final(self) == (Shape {
                transform: Transform {
                    translation_x: x,
                    translation_y: y,
                    ..old(self).transform
                },
                ..*old(self)
            }),
    {
        self.transform.translation_x = x;
        self.transform.translation_y = y;
    }

    /// Sets the rotation angle, given as its fixed-point cosine and sine.
    pub fn set_rotation(&mut self, rotation_cos: i64, rotation_sin: i64)
        ensures
            *final(self) == (Shape {
                transform: Transform { rotation_cos, rotation_sin, ..old(self).transform },
                ..*old(self)
            }),
    {
        self.transform.rotation_cos = rotation_cos;
        self.transform.rotation_sin = rotation_sin;
    }

    /// Sets the scale factors.
    pub fn set_scale(&mut self, x: i64, y: i64)
        ensures
            *final(self) == (Shape {
                transform: Transform { scale_x: x, scale_y: y, ..old(self).transform },
                ..*old(self)
            }),
    {
        self.transform.scale_x = x;
        self.transform.scale_y = y;
    }

    /// Sets the whole transform.
    pub fn set_transform(&mut self, transform: Transform)
        ensures
            *final(self) == (Shape { transform, ..*old(self) }),
    {
        self.transform = transform;
    }

    /// Sets the material.
    pub fn set_material(&mut self, material: Material)
        ensures
            final(self).vertices == old(self).vertices,
            final(self).indices == old(self).indices,
            final(self).transform == old(self).transform,
            final(self).layer == old(self).layer,
            final(self).origen == old(self).origen,
            final(self).material == material,
    {
        self.material = material;
    }

    /// Sets a solid color, dropping any texture.
    pub fn set_color(&mut self, color: Color)
        ensures
            final(self).vertices == old(self).vertices,
            final(self).indices == old(self).indices,
            final(self).transform == old(self).transform,
            final(self).layer == old(self).layer,
            final(self).origen == old(self).origen,
            final(self).material.base_color == Some(color),
            final(self).material.texture is None,
    {
        self.material = Material { base_color: Some(color), texture: None };
    }

    /// Sets the origin-centering flag.
    pub fn set_origen(&mut self, origen: bool)
        ensures
            *final(self) == (Shape { origen, ..*old(self) }),
    {
        self.origen = origen;
    }

    /// The local bounding box size, as (width, height).
    pub fn get_dimensions(&self) -> (d: (i64, i64))
        requires
            self.vertices@.len() > 0,
            vertices_bounded(self.vertices@),
        ensures
            d.0 == max_x_of(self.vertices@) - min_x_of(self.vertices@),
            d.1 == max_y_of(self.vertices@) - min_y_of(self.vertices@),
    {
        let (min_x, max_x, min_y, max_y) = self.bounds();
        (max_x - min_x, max_y - min_y)
    }

    /// The local bounding-box center — the pivot used when `origen` is set.
    pub fn get_center(&self) -> (c: (i64, i64))
        requires
            self.vertices@.len() > 0,
            vertices_bounded(self.vertices@),
        ensures
            c.0 == center_x_of(self.vertices@),
            c.1 == center_y_of(self.vertices@),
            -LOCAL_LIMIT <= c.0 <= LOCAL_LIMIT,
            -LOCAL_LIMIT <= c.1 <= LOCAL_LIMIT,
    {
        let (min_x, max_x, min_y, max_y) = self.bounds();
        let cx = min_x + (((max_x - min_x) as u64) / 2) as i64;
        let cy = min_y + (((max_y - min_y) as u64) / 2) as i64;
        proof {
            crate::fixed::lemma_trunc_div_le(
                max_x_of(self.vertices@) - min_x_of(self.vertices@),
                2,
                max_x_of(self.vertices@) - min_x_of(self.vertices@),
            );
            crate::fixed::lemma_trunc_div_le(
                max_y_of(self.vertices@) - min_y_of(self.vertices@),
                2,
                max_y_of(self.vertices@) - min_y_of(self.vertices@),
            );
        }
        (cx, cy)
    }

    /// The least and greatest vertex coordinates on each axis.
    fn bounds(&self) -> (b: (i64, i64, i64, i64))
        requires
            self.vertices@.len() > 0,
            vertices_bounded(self.vertices@),
        ensures
            b.0 == min_x_of(self.vertices@),
            b.1 == max_x_of(self.vertices@),
            b.2 == min_y_of(self.vertices@),
            b.3 == max_y_of(self.vertices@),
            -LOCAL_LIMIT <= b.0 <= b.1 <= LOCAL_LIMIT,
            -LOCAL_LIMIT <= b.2 <= b.3 <= LOCAL_LIMIT,
    {
        let n = self.vertices.len();
        let v0 = self.vertices[0];
        let mut min_x = v0.x;
        let mut max_x = v0.x;
        let mut min_y = v0.y;
        let mut max_y = v0.y;
        let mut i: usize = 1;
        proof {
            assert(self.vertices@.take(1) =~= seq![self.vertices@[0]]);
        }
        while i < n
            invariant
                1 <= i <= n,
                n == self.vertices@.len(),
                vertices_bounded(self.vertices@),
                min_x == min_x_of(self.vertices@.take(i as int)),
                max_x == max_x_of(self.vertices@.take(i as int)),
                min_y == min_y_of(self.vertices@.take(i as int)),
                max_y == max_y_of(self.vertices@.take(i as int)),
                -LOCAL_LIMIT <= min_x <= max_x <= LOCAL_LIMIT,
                -LOCAL_LIMIT <= min_y <= max_y <= LOCAL_LIMIT,
            decreases n - i,
        {
            let v = self.vertices[i];
            proof {
                assert(self.vertices@.take(i + 1).drop_last() =~= self.vertices@.take(i as int));
                assert(self.vertices@.take(i + 1).last() == self.vertices@[i as int]);
            }
            if v.x < min_x {
                min_x = v.x;
            }
            if v.x > max_x {
                max_x = v.x;
            }
            if v.y < min_y {
                min_y = v.y;
            }
            if v.y > max_y {
                max_y = v.y;
            }
            i = i + 1;
        }
        proof {
            assert(self.vertices@.take(n as int) =~= self.vertices@);
        }
        (min_x, max_x, min_y, max_y)
    }
}

impl crate::engine::PluginGalar for Shape {
    /// Drawing the shape is this plugin's whole update.
    fn update(&mut self, config: &mut crate::engine::ConfigGalar) {
        crate::raster::draw_shape(config, self);
    }
}

} // verus!
