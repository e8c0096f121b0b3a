//! Affine transforms: scale, then rotation, then translation.
//!
//! The order is fixed — scale, rotate, translate — because commuting
//! rotation and scale changes a shape's aspect under non-uniform scale.
//! Rotation is carried as the fixed-point cosine and sine of the angle, so
//! the whole pipeline stays in exact integer arithmetic; whoever owns the
//! angle in radians or degrees computes the pair once at the boundary.

use crate::fixed::{
    fx_mul, fx_mul_spec, fx_round, fx_round_spec, lemma_round_div_exact, lemma_round_div_scaled,
    FX_ONE,
};
use vstd::arithmetic::div_mod::lemma_fundamental_div_mod;
use vstd::prelude::*;

verus! {

/// The largest fixed-point magnitude accepted for a translation and for a
/// transformed point fed to the rasterizer (about 16 thousand pixels).
pub const COORD_LIMIT: i64 = 0x3fff_ffff;

/// The largest fixed-point magnitude accepted for a scale factor (256).
pub const SCALE_LIMIT: i64 = 0x100_0000;

/// The largest fixed-point magnitude accepted for a vertex coordinate and
/// for a pivot (about 8 thousand pixels).
pub const LOCAL_LIMIT: i64 = 0x2000_0000;

/// A bound that every coordinate coming out of a transform respects.
pub const APPLY_LIMIT: i64 = 0x200_0000_0000;

/// Scale, rotation and translation, all in 16.16 fixed point.
#[derive(Debug, Clone, Copy, PartialEq, Eq, Structural)]
pub struct Transform {
    /// Translation, applied last.
    pub translation_x: i64,
    pub translation_y: i64,
    /// The cosine of the rotation angle.
    pub rotation_cos: i64,
    /// The sine of the rotation angle.
    pub rotation_sin: i64,
    /// Scale factors, applied first.
    pub scale_x: i64,
    pub scale_y: i64,
}

impl Transform {
    /// The bounds under which [`Transform::apply`] cannot overflow.
    pub open spec fn wf(self) -> bool {
        &&& -COORD_LIMIT <= self.translation_x <= COORD_LIMIT
        &&& -COORD_LIMIT <= self.translation_y <= COORD_LIMIT
        &&& -FX_ONE <= self.rotation_cos <= FX_ONE
        &&& -FX_ONE <= self.rotation_sin <= FX_ONE
        &&& -SCALE_LIMIT <= self.scale_x <= SCALE_LIMIT
        &&& -SCALE_LIMIT <= self.scale_y <= SCALE_LIMIT
    }

    /// No translation, no rotation, unit scale.
    pub fn identity() -> (t: Self)
        ensures
            t == (Transform {
                translation_x: 0,
                translation_y: 0,
                rotation_cos: FX_ONE,
                rotation_sin: 0,
                scale_x: FX_ONE,
                scale_y: FX_ONE,
            }),
            t.wf(),
    {
        Self::new(0, 0, FX_ONE, 0, FX_ONE, FX_ONE)
    }

    /// A transform from its parts; the rotation angle is given as its
    /// fixed-point cosine and sine.
    pub fn new(x: i64, y: i64, rotation_cos: i64, rotation_sin: i64, scale_x: i64, scale_y: i64) -> (t: Self)
        ensures
            t == (Transform {
                translation_x: x,
                translation_y: y,
                rotation_cos,
                rotation_sin,
                scale_x,
                scale_y,
            }),
    {
        Transform { translation_x: x, translation_y: y, rotation_cos, rotation_sin, scale_x, scale_y }
    }

    /// A pure translation.
    pub fn from_translation(x: i64, y: i64) -> (t: Self)
        ensures
            t == (Transform {
                translation_x: x,
                translation_y: y,
                rotation_cos: FX_ONE,
                rotation_sin: 0,
                scale_x: FX_ONE,
                scale_y: FX_ONE,
            }),
    {
        Transform {
            translation_x: x,
            translation_y: y,
            rotation_cos: FX_ONE,
            rotation_sin: 0,
            scale_x: FX_ONE,
            scale_y: FX_ONE,
        }
    }
}

impl Default for Transform {
    /// All parts zero but the rotation, which is the angle zero.
    fn default() -> (t: Self)
        ensures
            t == (Transform {
                translation_x: 0,
                translation_y: 0,
                rotation_cos: FX_ONE,
                rotation_sin: 0,
                scale_x: 0,
                scale_y: 0,
            }),
    {
        Transform {
            translation_x: 0,
            translation_y: 0,
            rotation_cos: FX_ONE,
            rotation_sin: 0,
            scale_x: 0,
            scale_y: 0,
        }
    }
}

/// The x coordinate of a local point scaled, rotated and translated.
pub open spec fn apply_x_spec(t: Transform, lx: int, ly: int) -> int {
    fx_mul_spec(fx_mul_spec(lx, t.scale_x as int), t.rotation_cos as int) - fx_mul_spec(
        fx_mul_spec(ly, t.scale_y as int),
        t.rotation_sin as int,
    ) + t.translation_x
}

/// The y coordinate of a local point scaled, rotated and translated.
pub open spec fn apply_y_spec(t: Transform, lx: int, ly: int) -> int {
    fx_mul_spec(fx_mul_spec(lx, t.scale_x as int), t.rotation_sin as int) + fx_mul_spec(
        fx_mul_spec(ly, t.scale_y as int),
        t.rotation_cos as int,
    ) + t.translation_y
}

/// The x coordinate of the pivot-centered application: the pivot is
/// subtracted before scale and rotation, added back with the translation,
/// and the result is rounded to a whole pixel.
pub open spec fn apply_centered_x_spec(t: Transform, lx: int, ly: int, cx: int, cy: int) -> int {
    let rot = fx_mul_spec(fx_mul_spec(lx - cx, t.scale_x as int), t.rotation_cos as int)
        - fx_mul_spec(fx_mul_spec(ly - cy, t.scale_y as int), t.rotation_sin as int);
    fx_round_spec(rot + t.translation_x + cx) * FX_ONE
}

/// The y coordinate of the pivot-centered application.
pub open spec fn apply_centered_y_spec(t: Transform, lx: int, ly: int, cx: int, cy: int) -> int {
    let rot = fx_mul_spec(fx_mul_spec(lx - cx, t.scale_x as int), t.rotation_sin as int)
        + fx_mul_spec(fx_mul_spec(ly - cy, t.scale_y as int), t.rotation_cos as int);
    fx_round_spec(rot + t.translation_y + cy) * FX_ONE
}

/// One scale-and-rotate term: `local` scaled by `scale`, then weighted by a
/// rotation coefficient.
fn scaled_rotated(local: i64, scale: i64, rot: i64) -> (r: i64)
    requires
        -2 * LOCAL_LIMIT <= local <= 2 * LOCAL_LIMIT,
        -SCALE_LIMIT <= scale <= SCALE_LIMIT,
        -FX_ONE <= rot <= FX_ONE,
    ensures
        r == fx_mul_spec(fx_mul_spec(local as int, scale as int), rot as int),
        -0x40_0000_0000 <= r <= 0x40_0000_0000,
{
    proof {
        assert(-0x40_0000_0000_0000 <= local * scale <= 0x40_0000_0000_0000) by (nonlinear_arith)
            requires
                -0x4000_0000 <= local <= 0x4000_0000,
                -0x100_0000 <= scale <= 0x100_0000,
        ;
        lemma_round_div_scaled(local as int * scale as int, FX_ONE as int, 0x40_0000_0000);
    }
    let s = fx_mul(local, scale);
    proof {
        assert(-0x40_0000_0000_0000 <= s * rot <= 0x40_0000_0000_0000) by (nonlinear_arith)
            requires
                -0x40_0000_0000 <= s <= 0x40_0000_0000,
                -0x1_0000 <= rot <= 0x1_0000,
        ;
        lemma_round_div_scaled(s as int * rot as int, FX_ONE as int, 0x40_0000_0000);
    }
    fx_mul(s, rot)
}

impl Transform {
    /// Scale, rotate, then translate a local point.
    pub fn apply(&self, local_x: i64, local_y: i64) -> (p: (i64, i64))
        requires
            self.wf(),
            -LOCAL_LIMIT <= local_x <= LOCAL_LIMIT,
            -LOCAL_LIMIT <= local_y <= LOCAL_LIMIT,
        ensures
            p.0 == apply_x_spec(*self, local_x as int, local_y as int),
            p.1 == apply_y_spec(*self, local_x as int, local_y as int),
            -APPLY_LIMIT <= p.0 <= APPLY_LIMIT,
            -APPLY_LIMIT <= p.1 <= APPLY_LIMIT,
    {
        let xc = scaled_rotated(local_x, self.scale_x, self.rotation_cos);
        let xs = scaled_rotated(local_x, self.scale_x, self.rotation_sin);
        let yc = scaled_rotated(local_y, self.scale_y, self.rotation_cos);
        let ys = scaled_rotated(local_y, self.scale_y, self.rotation_sin);
        (xc - ys + self.translation_x, xs + yc + self.translation_y)
    }

    /// Scale, rotate and translate a local point about a pivot, rounding the
    /// result to a whole pixel to avoid a one-pixel drift under rotation.
    pub fn apply_centered(&self, local_x: i64, local_y: i64, shape_center_x: i64, shape_center_y: i64) -> (p: (i64, i64))
        requires
            self.wf(),
            -LOCAL_LIMIT <= local_x <= LOCAL_LIMIT,
            -LOCAL_LIMIT <= local_y <= LOCAL_LIMIT,
            -LOCAL_LIMIT <= shape_center_x <= LOCAL_LIMIT,
            -LOCAL_LIMIT <= shape_center_y <= LOCAL_LIMIT,
        ensures
            p.0 == apply_centered_x_spec(
                *self,
                local_x as int,
                local_y as int,
                shape_center_x as int,
                shape_center_y as int,
            ),
            p.1 == apply_centered_y_spec(
                *self,
                local_x as int,
                local_y as int,
                shape_center_x as int,
                shape_center_y as int,
            ),
            -APPLY_LIMIT <= p.0 <= APPLY_LIMIT,
            -APPLY_LIMIT <= p.1 <= APPLY_LIMIT,
    {
        let dx = local_x - shape_center_x;
        let dy = local_y - shape_center_y;
        let xc = scaled_rotated(dx, self.scale_x, self.rotation_cos);
        let xs = scaled_rotated(dx, self.scale_x, self.rotation_sin);
        let yc = scaled_rotated(dy, self.scale_y, self.rotation_cos);
        let ys = scaled_rotated(dy, self.scale_y, self.rotation_sin);
        let fx = round_to_pixel(xc - ys + self.translation_x + shape_center_x);
        let fy = round_to_pixel(xs + yc + self.translation_y + shape_center_y);
        (fx, fy)
    }
}

/// A fixed-point coordinate snapped to the nearest whole pixel.
fn round_to_pixel(v: i64) -> (r: i64)
    requires
        -0x100_0000_0000 <= v <= 0x100_0000_0000,
    ensures
        r == fx_round_spec(v as int) * FX_ONE,
        -0x100_0100_0000 <= r <= 0x100_0100_0000,
{
    proof {
        lemma_round_div_scaled(v as int, FX_ONE as int, 0x100_0000);
    }
    let k = fx_round(v);
    k * FX_ONE
}

/// Law: the pivot-centered application at the shape's own pivot, with zero
/// rotation and unit scale, returns the translated pivot — rounded to a
/// whole pixel, and exactly when translation plus pivot is a whole pixel.
pub proof fn lemma_apply_centered_pivot_identity(t: Transform, px: int, py: int)
    requires
        t.rotation_cos == FX_ONE,
        t.rotation_sin == 0,
        t.scale_x == FX_ONE,
        t.scale_y == FX_ONE,
    ensures
        apply_centered_x_spec(t, px, py, px, py) == fx_round_spec(t.translation_x + px) * FX_ONE,
        apply_centered_y_spec(t, px, py, px, py) == fx_round_spec(t.translation_y + py) * FX_ONE,
        (t.translation_x + px) % (FX_ONE as int) == 0 ==> apply_centered_x_spec(t, px, py, px, py)
            == t.translation_x + px,
        (t.translation_y + py) % (FX_ONE as int) == 0 ==> apply_centered_y_spec(t, px, py, px, py)
            == t.translation_y + py,
{
    lemma_round_div_exact(0, FX_ONE as int);
    assert(fx_mul_spec(0, FX_ONE as int) == 0) by {
        assert(0 * FX_ONE == 0 * FX_ONE as int);
        lemma_round_div_exact(0, FX_ONE as int);
    }
    assert(fx_mul_spec(fx_mul_spec(0, FX_ONE as int), FX_ONE as int) == 0);
    assert(fx_mul_spec(fx_mul_spec(0, FX_ONE as int), 0) == 0);
    if (t.translation_x + px) % (FX_ONE as int) == 0 {
        lemma_exact_pixel(t.translation_x + px);
    }
    if (t.translation_y + py) % (FX_ONE as int) == 0 {
        lemma_exact_pixel(t.translation_y + py);
    }
}

/// Rounding to a whole pixel is the identity on whole pixels.
proof fn lemma_exact_pixel(v: int)
    requires
        v % (FX_ONE as int) == 0,
    ensures
        fx_round_spec(v) * FX_ONE == v,
{
    lemma_fundamental_div_mod(v, FX_ONE as int);
    let k = v / (FX_ONE as int);
    lemma_round_div_exact(k, FX_ONE as int);
    assert(v == k * FX_ONE) by (nonlinear_arith)
        requires
            v == FX_ONE as int * k + 0,
    ;
}

} // verus!
