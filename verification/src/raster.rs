//! The CPU triangle rasterizer: a shape's triangles become framebuffer
//! writes by a bounding-box scan with barycentric interpolation.
//!
//! Per triangle: the three vertices go through the shape's transform (the
//! pivot-centered variant when `origen` is set), an integer bounding box is
//! clamped to the canvas, and every pixel in the box is tested against the
//! three edge functions.  A pixel is inside exactly when all three
//! barycentric weights are nonnegative; a triangle of zero signed area
//! contributes no pixels.  Color comes, in priority order, from the
//! material's solid override, from nearest-sampling its texture at the
//! interpolated texture coordinates, or from interpolating the three vertex
//! colors channel-wise.

use crate::color::{to_hex_spec, Color};
use crate::engine::{lemma_cell_index_in_range, lemma_row_of_index, ConfigGalar, MAX_DIM};
use crate::fixed::{
    lemma_round_div_exact, lemma_round_div_ordered, round_div, round_div_i128, trunc_div,
    trunc_div_i64, FX_ONE,
};
use crate::shape::{center_x_of, center_y_of, vertices_bounded, Shape, Vertex};
use crate::texture::{sample_spec, Material};
use crate::transform::{
    apply_centered_x_spec, apply_centered_y_spec, apply_x_spec, apply_y_spec, Transform,
    COORD_LIMIT, LOCAL_LIMIT,
};
use vstd::prelude::*;

verus! {

/// The edge function: the doubled signed area of the directed triangle
/// `a`, `b`, `c` — the side test at `c` against the edge from `a` to `b`.
pub open spec fn edge_spec(a: (int, int), b: (int, int), c: (int, int)) -> int {
    (b.0 - a.0) * (c.1 - a.1) - (b.1 - a.1) * (c.0 - a.0)
}

/// The doubled signed area of a triangle.
pub open spec fn tri_area(p0: (int, int), p1: (int, int), p2: (int, int)) -> int {
    edge_spec(p0, p1, p2)
}

/// The center of pixel `(x, y)` in fixed-point canvas space.
pub open spec fn pixel_pt(x: int, y: int) -> (int, int) {
    (x * FX_ONE, y * FX_ONE)
}

/// The three edge values of a pixel against the triangle's sides, each
/// normalized by the sign of the area so that "inside" reads as all three
/// being nonnegative; the last component is the normalized (positive) area.
pub open spec fn norm_edges(
    p0: (int, int),
    p1: (int, int),
    p2: (int, int),
    x: int,
    y: int,
) -> (int, int, int, int) {
    let p = pixel_pt(x, y);
    let e0 = edge_spec(p, p1, p2);
    let e1 = edge_spec(p, p2, p0);
    let e2 = edge_spec(p, p0, p1);
    let area = tri_area(p0, p1, p2);
    if area < 0 {
        (-e0, -e1, -e2, -area)
    } else {
        (e0, e1, e2, area)
    }
}

/// Whether the pixel `(x, y)` lies inside the triangle: all three
/// barycentric weights `e_i / area` are nonnegative.
pub open spec fn tri_inside(p0: (int, int), p1: (int, int), p2: (int, int), x: int, y: int) -> bool {
    let e = norm_edges(p0, p1, p2, x, y);
    e.0 >= 0 && e.1 >= 0 && e.2 >= 0
}

/// The least of three values.
pub open spec fn min3(a: int, b: int, c: int) -> int {
    if a <= b && a <= c {
        a
    } else if b <= c {
        b
    } else {
        c
    }
}

/// The greatest of three values.
pub open spec fn max3(a: int, b: int, c: int) -> int {
    if a >= b && a >= c {
        a
    } else if b >= c {
        b
    } else {
        c
    }
}

/// The left column of the triangle's clamped bounding box.
pub open spec fn bb_min_x(p0: (int, int), p1: (int, int), p2: (int, int)) -> int {
    let m = trunc_div(min3(p0.0, p1.0, p2.0), FX_ONE as int);
    if m < 0 {
        0
    } else {
        m
    }
}

/// The right column of the triangle's clamped bounding box.
pub open spec fn bb_max_x(p0: (int, int), p1: (int, int), p2: (int, int), w: int) -> int {
    let m = trunc_div(max3(p0.0, p1.0, p2.0), FX_ONE as int);
    if m > w - 1 {
        w - 1
    } else {
        m
    }
}

/// The top row of the triangle's clamped bounding box.
pub open spec fn bb_min_y(p0: (int, int), p1: (int, int), p2: (int, int)) -> int {
    let m = trunc_div(min3(p0.1, p1.1, p2.1), FX_ONE as int);
    if m < 0 {
        0
    } else {
        m
    }
}

/// The bottom row of the triangle's clamped bounding box.
pub open spec fn bb_max_y(p0: (int, int), p1: (int, int), p2: (int, int), h: int) -> int {
    let m = trunc_div(max3(p0.1, p1.1, p2.1), FX_ONE as int);
    if m > h - 1 {
        h - 1
    } else {
        m
    }
}

/// Whether the rasterizer paints pixel `(x, y)`: it lies in the clamped
/// bounding box and inside the triangle.
pub open spec fn tri_covers(
    p0: (int, int),
    p1: (int, int),
    p2: (int, int),
    w: int,
    h: int,
    x: int,
    y: int,
) -> bool {
    &&& bb_min_x(p0, p1, p2) <= x <= bb_max_x(p0, p1, p2, w)
    &&& bb_min_y(p0, p1, p2) <= y <= bb_max_y(p0, p1, p2, h)
    &&& tri_inside(p0, p1, p2, x, y)
}

/// One channel interpolated by the normalized barycentric weights and
/// rounded to nearest: `round((c0 e0 + c1 e1 + c2 e2) / area)`.
pub open spec fn interp_channel(c0: int, c1: int, c2: int, e0: int, e1: int, e2: int, aa: int) -> int {
    round_div(c0 * e0 + c1 * e1 + c2 * e2, aa)
}

/// The color the rasterizer resolves for pixel `(x, y)`, in the canonical
/// `AARRGGBB` packing.  Priority: the material's solid override color; else
/// its texture, nearest-sampled at the interpolated texture coordinates;
/// else the three vertex colors interpolated channel-wise (opaque).
pub open spec fn tri_color_at(
    v0: Vertex,
    v1: Vertex,
    v2: Vertex,
    p0: (int, int),
    p1: (int, int),
    p2: (int, int),
    mat: Material,
    x: int,
    y: int,
) -> int {
    let e = norm_edges(p0, p1, p2, x, y);
    match mat.base_color {
        Option::Some(c) => to_hex_spec(c),
        Option::None => match mat.texture {
            Option::Some(_) => sample_spec(
                mat,
                interp_channel(v0.u as int, v1.u as int, v2.u as int, e.0, e.1, e.2, e.3),
                interp_channel(v0.v as int, v1.v as int, v2.v as int, e.0, e.1, e.2, e.3),
            ),
            Option::None => to_hex_spec(
                Color {
                    r: interp_channel(
                        v0.color.r as int,
                        v1.color.r as int,
                        v2.color.r as int,
                        e.0,
                        e.1,
                        e.2,
                        e.3,
                    ) as u8,
                    g: interp_channel(
                        v0.color.g as int,
                        v1.color.g as int,
                        v2.color.g as int,
                        e.0,
                        e.1,
                        e.2,
                        e.3,
                    ) as u8,
                    b: interp_channel(
                        v0.color.b as int,
                        v1.color.b as int,
                        v2.color.b as int,
                        e.0,
                        e.1,
                        e.2,
                        e.3,
                    ) as u8,
                    a: 255,
                },
            ),
        },
    }
}

/// The framebuffer after rasterizing one triangle: a triangle of zero
/// doubled area contributes nothing, otherwise every covered pixel takes its
/// resolved color.
pub open spec fn tri_render(
    buf: Seq<u32>,
    w: int,
    h: int,
    v0: Vertex,
    v1: Vertex,
    v2: Vertex,
    p0: (int, int),
    p1: (int, int),
    p2: (int, int),
    mat: Material,
) -> Seq<u32> {
    if tri_area(p0, p1, p2) == 0 {
        buf
    } else {
        Seq::new(
            buf.len(),
            |i: int|
                if tri_covers(p0, p1, p2, w, h, i % w, i / w) {
                    tri_color_at(v0, v1, v2, p0, p1, p2, mat, i % w, i / w) as u32
                } else {
                    buf[i]
                },
        )
    }
}

/// Law: a degenerate triangle — three collinear points, doubled area zero —
/// produces no framebuffer writes.
pub proof fn lemma_degenerate_triangle(
    buf: Seq<u32>,
    w: int,
    h: int,
    v0: Vertex,
    v1: Vertex,
    v2: Vertex,
    p0: (int, int),
    p1: (int, int),
    p2: (int, int),
    mat: Material,
)
    requires
        tri_area(p0, p1, p2) == 0,
    ensures
        tri_render(buf, w, h, v0, v1, v2, p0, p1, p2, mat) == buf,
{
}

/// The three edge values at any point sum exactly to the doubled area.
#[verifier::rlimit(60)]
proof fn lemma_edge_sum(
    px: int,
    py: int,
    ax: int,
    ay: int,
    bx: int,
    by: int,
    cx: int,
    cy: int,
)
    by (nonlinear_arith)
    ensures
        edge_spec((px, py), (bx, by), (cx, cy)) + edge_spec((px, py), (cx, cy), (ax, ay))
            + edge_spec((px, py), (ax, ay), (bx, by)) == tri_area((ax, ay), (bx, by), (cx, cy)),
{
}

/// Law: for every triangle with nonzero doubled area and every pixel, the
/// three barycentric numerators sum exactly to the area — the weights
/// `e_i / area` sum to one — and the pixel is reported inside exactly when
/// every weight is nonnegative, that is, when every `e_i * area >= 0`.
pub proof fn lemma_barycentric(p0: (int, int), p1: (int, int), p2: (int, int), x: int, y: int)
    requires
        tri_area(p0, p1, p2) != 0,
    ensures
        ({
            let p = pixel_pt(x, y);
            edge_spec(p, p1, p2) + edge_spec(p, p2, p0) + edge_spec(p, p0, p1) == tri_area(
                p0,
                p1,
                p2,
            )
        }),
        norm_edges(p0, p1, p2, x, y).3 > 0,
        norm_edges(p0, p1, p2, x, y).0 + norm_edges(p0, p1, p2, x, y).1 + norm_edges(
            p0,
            p1,
            p2,
            x,
            y,
        ).2 == norm_edges(p0, p1, p2, x, y).3,
        ({
            let p = pixel_pt(x, y);
            let area = tri_area(p0, p1, p2);
            tri_inside(p0, p1, p2, x, y) <==> {
                &&& edge_spec(p, p1, p2) * area >= 0
                &&& edge_spec(p, p2, p0) * area >= 0
                &&& edge_spec(p, p0, p1) * area >= 0
            }
        }),
{
    let p = pixel_pt(x, y);
    lemma_edge_sum(p.0, p.1, p0.0, p0.1, p1.0, p1.1, p2.0, p2.1);
    let area = tri_area(p0, p1, p2);
    let e0 = edge_spec(p, p1, p2);
    let e1 = edge_spec(p, p2, p0);
    let e2 = edge_spec(p, p0, p1);
    if area > 0 {
        assert((e0 >= 0 <==> e0 * area >= 0) && (e1 >= 0 <==> e1 * area >= 0) && (e2 >= 0 <==> e2
            * area >= 0)) by (nonlinear_arith)
            requires
                area > 0,
        ;
    } else {
        assert((-e0 >= 0 <==> e0 * area >= 0) && (-e1 >= 0 <==> e1 * area >= 0) && (-e2 >= 0 <==> e2
            * area >= 0)) by (nonlinear_arith)
            requires
                area < 0,
        ;
    }
}

/// A weighted combination of channel values in `[0, m]` under nonnegative
/// weights summing to `aa` stays within `[0, m * aa]`.
proof fn lemma_weighted_nonneg(c0: int, c1: int, c2: int, e0: int, e1: int, e2: int, aa: int, m: int)
    by (nonlinear_arith)
    requires
        e0 >= 0,
        e1 >= 0,
        e2 >= 0,
        e0 + e1 + e2 == aa,
        0 <= c0 <= m,
        0 <= c1 <= m,
        0 <= c2 <= m,
    ensures
        0 <= c0 * e0 + c1 * e1 + c2 * e2 <= m * aa,
{
}

/// A weighted combination of values in `[-m, m]` under nonnegative weights
/// summing to `aa` stays within `[-m * aa, m * aa]`.
proof fn lemma_weighted_bound(c0: int, c1: int, c2: int, e0: int, e1: int, e2: int, aa: int, m: int)
    by (nonlinear_arith)
    requires
        e0 >= 0,
        e1 >= 0,
        e2 >= 0,
        e0 + e1 + e2 == aa,
        -m <= c0 <= m,
        -m <= c1 <= m,
        -m <= c2 <= m,
        m >= 0,
    ensures
        -(m * aa) <= c0 * e0 + c1 * e1 + c2 * e2 <= m * aa,
{
}

/// The edge function on fixed-point points, exact in 64-bit arithmetic.
pub fn edge_function(a: (i64, i64), b: (i64, i64), c: (i64, i64)) -> (r: i64)
    requires
        -COORD_LIMIT <= a.0 <= COORD_LIMIT,
        -COORD_LIMIT <= a.1 <= COORD_LIMIT,
        -COORD_LIMIT <= b.0 <= COORD_LIMIT,
        -COORD_LIMIT <= b.1 <= COORD_LIMIT,
        -COORD_LIMIT <= c.0 <= COORD_LIMIT,
        -COORD_LIMIT <= c.1 <= COORD_LIMIT,
    ensures
        r == edge_spec((a.0 as int, a.1 as int), (b.0 as int, b.1 as int), (c.0 as int, c.1 as int)),
        -0x7fff_fffe_0000_0002 <= r <= 0x7fff_fffe_0000_0002,
{
    proof {
        assert((b.0 - a.0) * (c.1 - a.1) <= 0x3fff_ffff_0000_0001 && (b.0 - a.0) * (c.1 - a.1)
            >= -0x3fff_ffff_0000_0001) by (nonlinear_arith)
            requires
                -0x7fff_fffe <= b.0 - a.0 <= 0x7fff_fffe,
                -0x7fff_fffe <= c.1 - a.1 <= 0x7fff_fffe,
        ;
        assert((b.1 - a.1) * (c.0 - a.0) <= 0x3fff_ffff_0000_0001 && (b.1 - a.1) * (c.0 - a.0)
            >= -0x3fff_ffff_0000_0001) by (nonlinear_arith)
            requires
                -0x7fff_fffe <= b.1 - a.1 <= 0x7fff_fffe,
                -0x7fff_fffe <= c.0 - a.0 <= 0x7fff_fffe,
        ;
    }
    (b.0 - a.0) * (c.1 - a.1) - (b.1 - a.1) * (c.0 - a.0)
}

/// One color channel interpolated by the normalized barycentric weights.
fn interp_u8(c0: u8, c1: u8, c2: u8, e0: i64, e1: i64, e2: i64, aa: i64) -> (r: u8)
    requires
        aa > 0,
        e0 >= 0,
        e1 >= 0,
        e2 >= 0,
        e0 + e1 + e2 == aa,
    ensures
        r == interp_channel(c0 as int, c1 as int, c2 as int, e0 as int, e1 as int, e2 as int, aa as int),
{
    proof {
        lemma_weighted_nonneg(c0 as int, c1 as int, c2 as int, e0 as int, e1 as int, e2 as int, aa as int, 255);
        lemma_round_div_exact(255, aa as int);
        lemma_round_div_exact(0, aa as int);
        lemma_round_div_ordered(
            c0 as int * e0 as int + c1 as int * e1 as int + c2 as int * e2 as int,
            255 * (aa as int),
            aa as int,
        );
        lemma_round_div_ordered(
            0,
            c0 as int * e0 as int + c1 as int * e1 as int + c2 as int * e2 as int,
            aa as int,
        );
        assert(255 * (aa as int) == (aa as int) * 255) by (nonlinear_arith);
    }
    let num: i128 = (c0 as i128) * (e0 as i128) + (c1 as i128) * (e1 as i128) + (c2 as i128) * (e2
        as i128);
    round_div_i128(num, aa as i128) as u8
}

/// One texture coordinate interpolated by the normalized barycentric
/// weights.
fn interp_uv(u0: i64, u1: i64, u2: i64, e0: i64, e1: i64, e2: i64, aa: i64) -> (r: i64)
    requires
        aa > 0,
        e0 >= 0,
        e1 >= 0,
        e2 >= 0,
        e0 + e1 + e2 == aa,
        -LOCAL_LIMIT <= u0 <= LOCAL_LIMIT,
        -LOCAL_LIMIT <= u1 <= LOCAL_LIMIT,
        -LOCAL_LIMIT <= u2 <= LOCAL_LIMIT,
    ensures
        r == interp_channel(u0 as int, u1 as int, u2 as int, e0 as int, e1 as int, e2 as int, aa as int),
        -LOCAL_LIMIT <= r <= LOCAL_LIMIT,
{
    proof {
        lemma_weighted_bound(
            u0 as int,
            u1 as int,
            u2 as int,
            e0 as int,
            e1 as int,
            e2 as int,
            aa as int,
            LOCAL_LIMIT as int,
        );
        crate::fixed::lemma_round_div_scaled(
            u0 as int * e0 as int + u1 as int * e1 as int + u2 as int * e2 as int,
            aa as int,
            LOCAL_LIMIT as int,
        );
        assert(LOCAL_LIMIT as int * aa as int == aa as int * LOCAL_LIMIT) by (nonlinear_arith);
        assert(-(LOCAL_LIMIT as int * aa as int) == -(aa as int) * LOCAL_LIMIT) by (nonlinear_arith);
        assert(-0x4000_0000_0000_0000_0000_0000 <= u0 * e0 <= 0x4000_0000_0000_0000_0000_0000
            && -0x4000_0000_0000_0000_0000_0000 <= u1 * e1 <= 0x4000_0000_0000_0000_0000_0000
            && -0x4000_0000_0000_0000_0000_0000 <= u2 * e2 <= 0x4000_0000_0000_0000_0000_0000)
            by (nonlinear_arith)
            requires
                -0x2000_0000 <= u0 <= 0x2000_0000,
                -0x2000_0000 <= u1 <= 0x2000_0000,
                -0x2000_0000 <= u2 <= 0x2000_0000,
                -0x8000_0000_0000_0000 <= e0 <= 0x8000_0000_0000_0000,
                -0x8000_0000_0000_0000 <= e1 <= 0x8000_0000_0000_0000,
                -0x8000_0000_0000_0000 <= e2 <= 0x8000_0000_0000_0000,
        ;
    }
    let num: i128 = (u0 as i128) * (e0 as i128) + (u1 as i128) * (e1 as i128) + (u2 as i128) * (e2
        as i128);
    round_div_i128(num, aa as i128) as i64
}

/// Writes one pixel of the given color at a transform's translation,
/// rounded to the nearest whole pixel and bounds-checked against the canvas.
pub fn pixel_set(config: &mut ConfigGalar, transform: &Transform, color: Color)
    requires
        old(config).wf(),
    ensures
        final(config).wf(),
        ConfigGalar::same_config(*old(config), *final(config)),
        final(config).pixels() == crate::engine::write_pixel_spec(
            old(config).pixels(),
            old(config).width_spec(),
            old(config).height_spec(),
            crate::fixed::fx_round_spec(transform.translation_x as int),
            crate::fixed::fx_round_spec(transform.translation_y as int),
            crate::color::to_hex_spec(color) as u32,
        ),
{
    let x = crate::fixed::fx_round(transform.translation_x);
    let y = crate::fixed::fx_round(transform.translation_y);
    let (w, h) = config.size();
    if x >= 0 && y >= 0 && (x as u64) < (w as u64) && (y as u64) < (h as u64) {
        config.draw_pixel(x as usize, y as usize, color.to_hex());
    }
}

/// Rasterizes one triangle onto the canvas: bounding-box scan, barycentric
/// inside test, color resolution, and one direct write per covered pixel.
fn draw_triangle_cpu(
    config: &mut ConfigGalar,
    v0: &Vertex,
    v1: &Vertex,
    v2: &Vertex,
    p0: (i64, i64),
    p1: (i64, i64),
    p2: (i64, i64),
    material: &Material,
)
    requires
        old(config).wf(),
        -COORD_LIMIT <= p0.0 <= COORD_LIMIT,
        -COORD_LIMIT <= p0.1 <= COORD_LIMIT,
        -COORD_LIMIT <= p1.0 <= COORD_LIMIT,
        -COORD_LIMIT <= p1.1 <= COORD_LIMIT,
        -COORD_LIMIT <= p2.0 <= COORD_LIMIT,
        -COORD_LIMIT <= p2.1 <= COORD_LIMIT,
        -LOCAL_LIMIT <= v0.u <= LOCAL_LIMIT,
        -LOCAL_LIMIT <= v0.v <= LOCAL_LIMIT,
        -LOCAL_LIMIT <= v1.u <= LOCAL_LIMIT,
        -LOCAL_LIMIT <= v1.v <= LOCAL_LIMIT,
        -LOCAL_LIMIT <= v2.u <= LOCAL_LIMIT,
        -LOCAL_LIMIT <= v2.v <= LOCAL_LIMIT,
    ensures
        final(config).wf(),
        ConfigGalar::same_config(*old(config), *final(config)),
        final(config).pixels() =~= tri_render(
            old(config).pixels(),
            old(config).width_spec(),
            old(config).height_spec(),
            *v0,
            *v1,
            *v2,
            (p0.0 as int, p0.1 as int),
            (p1.0 as int, p1.1 as int),
            (p2.0 as int, p2.1 as int),
            *material,
        ),
{
    let ghost buf0 = old(config).pixels();
    let ghost w0 = old(config).width_spec();
    let ghost h0 = old(config).height_spec();
    let ghost p0i = (p0.0 as int, p0.1 as int);
    let ghost p1i = (p1.0 as int, p1.1 as int);
    let ghost p2i = (p2.0 as int, p2.1 as int);
    let ghost mat = *material;
    proof {
        old(config).lemma_wf();
    }
    let area = edge_function(p0, p1, p2);
    if area == 0 {
        return ;
    }
    let (wu, hu) = config.size();
    let w = wu as i64;
    let h = hu as i64;
    let min_fx_x = if p0.0 <= p1.0 && p0.0 <= p2.0 {
        p0.0
    } else if p1.0 <= p2.0 {
        p1.0
    } else {
        p2.0
    };
    let max_fx_x = if p0.0 >= p1.0 && p0.0 >= p2.0 {
        p0.0
    } else if p1.0 >= p2.0 {
        p1.0
    } else {
        p2.0
    };
    let min_fx_y = if p0.1 <= p1.1 && p0.1 <= p2.1 {
        p0.1
    } else if p1.1 <= p2.1 {
        p1.1
    } else {
        p2.1
    };
    let max_fx_y = if p0.1 >= p1.1 && p0.1 >= p2.1 {
        p0.1
    } else if p1.1 >= p2.1 {
        p1.1
    } else {
        p2.1
    };
    let t_min_x = trunc_div_i64(min_fx_x, FX_ONE);
    let t_max_x = trunc_div_i64(max_fx_x, FX_ONE);
    let t_min_y = trunc_div_i64(min_fx_y, FX_ONE);
    let t_max_y = trunc_div_i64(max_fx_y, FX_ONE);
    let min_x: i64 = if t_min_x < 0 {
        0
    } else {
        t_min_x
    };
    let max_x: i64 = if t_max_x > w - 1 {
        w - 1
    } else {
        t_max_x
    };
    let min_y: i64 = if t_min_y < 0 {
        0
    } else {
        t_min_y
    };
    let max_y: i64 = if t_max_y > h - 1 {
        h - 1
    } else {
        t_max_y
    };
    proof {
        crate::fixed::lemma_trunc_div_mag(min_fx_x as int, FX_ONE as int);
        crate::fixed::lemma_trunc_div_mag(max_fx_x as int, FX_ONE as int);
        crate::fixed::lemma_trunc_div_mag(min_fx_y as int, FX_ONE as int);
        crate::fixed::lemma_trunc_div_mag(max_fx_y as int, FX_ONE as int);
    }
    let mut cy = min_y;
    while cy <= max_y
        invariant
            config.wf(),
            ConfigGalar::same_config(*old(config), *config),
            w0 == old(config).width_spec(),
            h0 == old(config).height_spec(),
            w == w0,
            h == h0,
            wu as int == w0,
            hu as int == h0,
            0 <= w0 <= MAX_DIM,
            0 <= h0 <= MAX_DIM,
            buf0 == old(config).pixels(),
            buf0.len() == w0 * h0,
            config.pixels().len() == buf0.len(),
            p0i == (p0.0 as int, p0.1 as int),
            p1i == (p1.0 as int, p1.1 as int),
            p2i == (p2.0 as int, p2.1 as int),
            mat == *material,
            -COORD_LIMIT <= p0.0 <= COORD_LIMIT,
            -COORD_LIMIT <= p0.1 <= COORD_LIMIT,
            -COORD_LIMIT <= p1.0 <= COORD_LIMIT,
            -COORD_LIMIT <= p1.1 <= COORD_LIMIT,
            -COORD_LIMIT <= p2.0 <= COORD_LIMIT,
            -COORD_LIMIT <= p2.1 <= COORD_LIMIT,
            -LOCAL_LIMIT <= v0.u <= LOCAL_LIMIT,
            -LOCAL_LIMIT <= v0.v <= LOCAL_LIMIT,
            -LOCAL_LIMIT <= v1.u <= LOCAL_LIMIT,
            -LOCAL_LIMIT <= v1.v <= LOCAL_LIMIT,
            -LOCAL_LIMIT <= v2.u <= LOCAL_LIMIT,
            -LOCAL_LIMIT <= v2.v <= LOCAL_LIMIT,
            area == tri_area(p0i, p1i, p2i),
            area != 0,
            -0x7fff_fffe_0000_0002 <= area <= 0x7fff_fffe_0000_0002,
            min_x == bb_min_x(p0i, p1i, p2i),
            max_x == bb_max_x(p0i, p1i, p2i, w0),
            min_y == bb_min_y(p0i, p1i, p2i),
            max_y == bb_max_y(p0i, p1i, p2i, h0),
            0 <= min_x <= 0x4000,
            max_x <= w0 - 1 || max_x <= 0x4000,
            0 <= min_y <= 0x4000,
            max_y <= h0 - 1,
            min_y <= cy,
            cy <= max_y + 1 || cy == min_y,
            forall|i: int|
                0 <= i < buf0.len() ==> config.pixels()[i] == (if tri_covers(
                    p0i,
                    p1i,
                    p2i,
                    w0,
                    h0,
                    i % w0,
                    i / w0,
                ) && i / w0 < cy {
                    tri_color_at(*v0, *v1, *v2, p0i, p1i, p2i, mat, i % w0, i / w0) as u32
                } else {
                    buf0[i]
                }),
        decreases max_y + 1 - cy,
    {
        let mut cx = min_x;
        while cx <= max_x
            invariant
                config.wf(),
                ConfigGalar::same_config(*old(config), *config),
                w0 == old(config).width_spec(),
                h0 == old(config).height_spec(),
                w == w0,
                h == h0,
                wu as int == w0,
                hu as int == h0,
                0 <= w0 <= MAX_DIM,
                0 <= h0 <= MAX_DIM,
                buf0 == old(config).pixels(),
                buf0.len() == w0 * h0,
                config.pixels().len() == buf0.len(),
                p0i == (p0.0 as int, p0.1 as int),
                p1i == (p1.0 as int, p1.1 as int),
                p2i == (p2.0 as int, p2.1 as int),
                mat == *material,
                -COORD_LIMIT <= p0.0 <= COORD_LIMIT,
                -COORD_LIMIT <= p0.1 <= COORD_LIMIT,
                -COORD_LIMIT <= p1.0 <= COORD_LIMIT,
                -COORD_LIMIT <= p1.1 <= COORD_LIMIT,
                -COORD_LIMIT <= p2.0 <= COORD_LIMIT,
                -COORD_LIMIT <= p2.1 <= COORD_LIMIT,
                -LOCAL_LIMIT <= v0.u <= LOCAL_LIMIT,
                -LOCAL_LIMIT <= v0.v <= LOCAL_LIMIT,
                -LOCAL_LIMIT <= v1.u <= LOCAL_LIMIT,
                -LOCAL_LIMIT <= v1.v <= LOCAL_LIMIT,
                -LOCAL_LIMIT <= v2.u <= LOCAL_LIMIT,
                -LOCAL_LIMIT <= v2.v <= LOCAL_LIMIT,
                area == tri_area(p0i, p1i, p2i),
                area != 0,
                -0x7fff_fffe_0000_0002 <= area <= 0x7fff_fffe_0000_0002,
                min_x == bb_min_x(p0i, p1i, p2i),
                max_x == bb_max_x(p0i, p1i, p2i, w0),
                min_y == bb_min_y(p0i, p1i, p2i),
                max_y == bb_max_y(p0i, p1i, p2i, h0),
                0 <= min_x <= 0x4000,
                max_x <= w0 - 1,
                0 <= min_y <= cy,
                cy <= max_y <= h0 - 1,
                min_x <= cx,
                cx <= max_x + 1 || cx == min_x,
                forall|i: int|
                    0 <= i < buf0.len() ==> config.pixels()[i] == (if tri_covers(
                        p0i,
                        p1i,
                        p2i,
                        w0,
                        h0,
                        i % w0,
                        i / w0,
                    ) && (i / w0 < cy || (i / w0 == cy && i % w0 < cx)) {
                        tri_color_at(*v0, *v1, *v2, p0i, p1i, p2i, mat, i % w0, i / w0) as u32
                    } else {
                        buf0[i]
                    }),
            decreases max_x + 1 - cx,
        {
            let px: i64 = cx * FX_ONE;
            let py: i64 = cy * FX_ONE;
            let e0 = edge_function((px, py), p1, p2);
            let e1 = edge_function((px, py), p2, p0);
            let e2 = edge_function((px, py), p0, p1);
            let (ea0, ea1, ea2, aa) = if area < 0 {
                (-e0, -e1, -e2, -area)
            } else {
                (e0, e1, e2, area)
            };
            proof {
                lemma_barycentric(p0i, p1i, p2i, cx as int, cy as int);
            }
            if ea0 >= 0 && ea1 >= 0 && ea2 >= 0 {
                let pix_color: u32 = match &material.base_color {
                    Option::Some(c) => c.to_hex(),
                    Option::None => match &material.texture {
                        Option::Some(_) => {
                            let uu = interp_uv(v0.u, v1.u, v2.u, ea0, ea1, ea2, aa);
                            let vv = interp_uv(v0.v, v1.v, v2.v, ea0, ea1, ea2, aa);
                            material.sample_texture((uu, vv))
                        },
                        Option::None => {
                            let cr = interp_u8(v0.color.r, v1.color.r, v2.color.r, ea0, ea1, ea2, aa);
                            let cg = interp_u8(v0.color.g, v1.color.g, v2.color.g, ea0, ea1, ea2, aa);
                            let cb = interp_u8(v0.color.b, v1.color.b, v2.color.b, ea0, ea1, ea2, aa);
                            Color::rgb(cr, cg, cb).to_hex()
                        },
                    },
                };
                proof {
                    assert(pix_color == tri_color_at(*v0, *v1, *v2, p0i, p1i, p2i, mat, cx as int, cy as int));
                    lemma_cell_index_in_range(w0, h0, cx as int, cy as int);
                    assert(w0 * h0 <= MAX_DIM * MAX_DIM) by (nonlinear_arith)
                        requires
                            0 <= w0 <= MAX_DIM,
                            0 <= h0 <= MAX_DIM,
                    ;
                }
                let index = (cy as usize) * wu + (cx as usize);
                config.explicit_draw(index, pix_color);
            }
            proof {
                assert forall|i: int| 0 <= i < buf0.len() implies config.pixels()[i] == (
                if tri_covers(p0i, p1i, p2i, w0, h0, i % w0, i / w0) && (i / w0 < cy || (i / w0
                    == cy && i % w0 < cx + 1)) {
                    tri_color_at(*v0, *v1, *v2, p0i, p1i, p2i, mat, i % w0, i / w0) as u32
                } else {
                    buf0[i]
                }) by {
                    lemma_row_of_index(i, w0, h0);
                }
            }
            cx = cx + 1;
        }
        cy = cy + 1;
    }
    proof {
        assert forall|i: int| 0 <= i < buf0.len() implies config.pixels()[i] == (if tri_covers(
            p0i,
            p1i,
            p2i,
            w0,
            h0,
            i % w0,
            i / w0,
        ) {
            tri_color_at(*v0, *v1, *v2, p0i, p1i, p2i, mat, i % w0, i / w0) as u32
        } else {
            buf0[i]
        }) by {
            lemma_row_of_index(i, w0, h0);
        }
        assert(config.pixels() =~= tri_render(buf0, w0, h0, *v0, *v1, *v2, p0i, p1i, p2i, mat));
    }
}


/// A shape the rasterizer can draw: at least one vertex, every vertex within
/// the fixed-point working range, and a transform whose application cannot
/// overflow.
pub open spec fn shape_wf(s: Shape) -> bool {
    &&& s.vertices@.len() > 0
    &&& vertices_bounded(s.vertices@)
    &&& s.transform.wf()
}

/// The three canvas-space points of triangle `k`: its vertices through the
/// shape's transform — the pivot-centered variant about the bounding-box
/// center when `origen` is set.
pub open spec fn tri_pts(s: Shape, k: int) -> ((int, int), (int, int), (int, int)) {
    let t = s.indices@[k];
    let v0 = s.vertices@[t.0 as int];
    let v1 = s.vertices@[t.1 as int];
    let v2 = s.vertices@[t.2 as int];
    if s.origen {
        let cx = center_x_of(s.vertices@);
        let cy = center_y_of(s.vertices@);
        (
            (
                apply_centered_x_spec(s.transform, v0.x as int, v0.y as int, cx, cy),
                apply_centered_y_spec(s.transform, v0.x as int, v0.y as int, cx, cy),
            ),
            (
                apply_centered_x_spec(s.transform, v1.x as int, v1.y as int, cx, cy),
                apply_centered_y_spec(s.transform, v1.x as int, v1.y as int, cx, cy),
            ),
            (
                apply_centered_x_spec(s.transform, v2.x as int, v2.y as int, cx, cy),
                apply_centered_y_spec(s.transform, v2.x as int, v2.y as int, cx, cy),
            ),
        )
    } else {
        (
            (
                apply_x_spec(s.transform, v0.x as int, v0.y as int),
                apply_y_spec(s.transform, v0.x as int, v0.y as int),
            ),
            (
                apply_x_spec(s.transform, v1.x as int, v1.y as int),
                apply_y_spec(s.transform, v1.x as int, v1.y as int),
            ),
            (
                apply_x_spec(s.transform, v2.x as int, v2.y as int),
                apply_y_spec(s.transform, v2.x as int, v2.y as int),
            ),
        )
    }
}

/// Whether triangle `k` is drawn: its three indices name vertices, and its
/// transformed points stay within the rasterizer's coordinate range (a
/// clipping guard; a triangle that far off the canvas is skipped).
pub open spec fn tri_ok(s: Shape, k: int) -> bool {
    let t = s.indices@[k];
    &&& t.0 < s.vertices@.len()
    &&& t.1 < s.vertices@.len()
    &&& t.2 < s.vertices@.len()
    &&& {
        let p = tri_pts(s, k);
        &&& -COORD_LIMIT <= p.0.0 <= COORD_LIMIT
        &&& -COORD_LIMIT <= p.0.1 <= COORD_LIMIT
        &&& -COORD_LIMIT <= p.1.0 <= COORD_LIMIT
        &&& -COORD_LIMIT <= p.1.1 <= COORD_LIMIT
        &&& -COORD_LIMIT <= p.2.0 <= COORD_LIMIT
        &&& -COORD_LIMIT <= p.2.1 <= COORD_LIMIT
    }
}

/// The framebuffer after rasterizing the shape's first `n` triangles in
/// order, skipping those that `tri_ok` rejects.
pub open spec fn shape_render(buf: Seq<u32>, w: int, h: int, s: Shape, n: int) -> Seq<u32>
    decreases n,
{
    if n <= 0 {
        buf
    } else {
        let prev = shape_render(buf, w, h, s, n - 1);
        if tri_ok(s, n - 1) {
            let t = s.indices@[n - 1];
            let p = tri_pts(s, n - 1);
            tri_render(
                prev,
                w,
                h,
                s.vertices@[t.0 as int],
                s.vertices@[t.1 as int],
                s.vertices@[t.2 as int],
                p.0,
                p.1,
                p.2,
                s.material,
            )
        } else {
            prev
        }
    }
}

/// Draws every triangle of the shape, in index order.  A shape without
/// vertices, with a vertex outside the working range or with an overflowing
/// transform is left undrawn; within a drawable shape, a triangle whose
/// indices point outside the vertex list or whose transformed points leave
/// the coordinate range is skipped.
pub fn draw_shape(config: &mut ConfigGalar, shape: &Shape)
    requires
        old(config).wf(),
    ensures
        final(config).wf(),
        ConfigGalar::same_config(*old(config), *final(config)),
        final(config).width_spec() == old(config).width_spec(),
        final(config).height_spec() == old(config).height_spec(),
        shape_wf(*shape) ==> final(config).pixels() == shape_render(
            old(config).pixels(),
            old(config).width_spec(),
            old(config).height_spec(),
            *shape,
            shape.indices@.len() as int,
        ),
        !shape_wf(*shape) ==> final(config).pixels() == old(config).pixels(),
{
    let ghost buf0 = old(config).pixels();
    let ghost w0 = old(config).width_spec();
    let ghost h0 = old(config).height_spec();
    let vn = shape.vertices.len();
    if vn == 0 {
        return ;
    }
    let mut i: usize = 0;
    while i < vn
        invariant
            0 <= i <= vn,
            vn == shape.vertices@.len(),
            forall|k: int|
                0 <= k < i ==> {
                    &&& -LOCAL_LIMIT <= #[trigger] shape.vertices@[k].x <= LOCAL_LIMIT
                    &&& -LOCAL_LIMIT <= shape.vertices@[k].y <= LOCAL_LIMIT
                    &&& -LOCAL_LIMIT <= shape.vertices@[k].u <= LOCAL_LIMIT
                    &&& -LOCAL_LIMIT <= shape.vertices@[k].v <= LOCAL_LIMIT
                },
            config == old(config),
            config.wf(),
        decreases vn - i,
    {
        let v = shape.vertices[i];
        if v.x < -LOCAL_LIMIT || v.x > LOCAL_LIMIT || v.y < -LOCAL_LIMIT || v.y > LOCAL_LIMIT
            || v.u < -LOCAL_LIMIT || v.u > LOCAL_LIMIT || v.v < -LOCAL_LIMIT || v.v > LOCAL_LIMIT {
            return ;
        }
        i = i + 1;
    }
    let t = &shape.transform;
    if t.translation_x < -COORD_LIMIT || t.translation_x > COORD_LIMIT || t.translation_y
        < -COORD_LIMIT || t.translation_y > COORD_LIMIT || t.rotation_cos < -FX_ONE
        || t.rotation_cos > FX_ONE || t.rotation_sin < -FX_ONE || t.rotation_sin > FX_ONE
        || t.scale_x < -crate::transform::SCALE_LIMIT || t.scale_x > crate::transform::SCALE_LIMIT
        || t.scale_y < -crate::transform::SCALE_LIMIT || t.scale_y
        > crate::transform::SCALE_LIMIT {
        return ;
    }
    let (cx, cy) = if shape.origen {
        shape.get_center()
    } else {
        (0, 0)
    };
    let n = shape.indices.len();
    let mut k: usize = 0;
    while k < n
        invariant
            config.wf(),
            ConfigGalar::same_config(*old(config), *config),
            w0 == old(config).width_spec(),
            h0 == old(config).height_spec(),
            buf0 == old(config).pixels(),
            0 <= k <= n,
            n == shape.indices@.len(),
            shape_wf(*shape),
            shape.origen ==> cx == center_x_of(shape.vertices@) && cy == center_y_of(
                shape.vertices@,
            ),
            -LOCAL_LIMIT <= cx <= LOCAL_LIMIT,
            -LOCAL_LIMIT <= cy <= LOCAL_LIMIT,
            config.pixels() == shape_render(buf0, w0, h0, *shape, k as int),
        decreases n - k,
    {
        let tri = shape.indices[k];
        if tri.0 < shape.vertices.len() && tri.1 < shape.vertices.len() && tri.2
            < shape.vertices.len() {
            let v0 = shape.vertices[tri.0];
            let v1 = shape.vertices[tri.1];
            let v2 = shape.vertices[tri.2];
            let q0 = if shape.origen {
                shape.transform.apply_centered(v0.x, v0.y, cx, cy)
            } else {
                shape.transform.apply(v0.x, v0.y)
            };
            let q1 = if shape.origen {
                shape.transform.apply_centered(v1.x, v1.y, cx, cy)
            } else {
                shape.transform.apply(v1.x, v1.y)
            };
            let q2 = if shape.origen {
                shape.transform.apply_centered(v2.x, v2.y, cx, cy)
            } else {
                shape.transform.apply(v2.x, v2.y)
            };
            if q0.0 >= -COORD_LIMIT && q0.0 <= COORD_LIMIT && q0.1 >= -COORD_LIMIT && q0.1
                <= COORD_LIMIT && q1.0 >= -COORD_LIMIT && q1.0 <= COORD_LIMIT && q1.1
                >= -COORD_LIMIT && q1.1 <= COORD_LIMIT && q2.0 >= -COORD_LIMIT && q2.0
                <= COORD_LIMIT && q2.1 >= -COORD_LIMIT && q2.1 <= COORD_LIMIT {
                proof {
                    assert(tri_ok(*shape, k as int));
                }
                draw_triangle_cpu(config, &v0, &v1, &v2, q0, q1, q2, &shape.material);
                proof {
                    assert(config.pixels() =~= shape_render(buf0, w0, h0, *shape, k + 1));
                }
            } else {
                proof {
                    assert(!tri_ok(*shape, k as int));
                    assert(config.pixels() == shape_render(buf0, w0, h0, *shape, k + 1));
                }
            }
        } else {
            proof {
                assert(!tri_ok(*shape, k as int));
                assert(config.pixels() == shape_render(buf0, w0, h0, *shape, k + 1));
            }
        }
        k = k + 1;
    }
}

} // verus!
