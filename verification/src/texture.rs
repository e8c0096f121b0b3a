//! Decoded textures and materials.
//!
//! A [`Texture`] is row-major RGBA8 pixel data, packed in the canonical
//! `AARRGGBB` order, immutable once built.  A [`Material`] resolves a
//! surface: an optional solid override color and an optional texture, the
//! solid color taking precedence when both are set.  Decoding an image file
//! into raw bytes is the business of an outside collaborator; the library
//! only packs bytes it is handed.

use crate::color::Color;
use crate::fixed::{clamp_fx, clamp_fx_spec, lemma_trunc_div_le, trunc_div, trunc_div_i64, FX_ONE};
use vstd::prelude::*;

verus! {

/// The sentinel color returned when a texture lookup lands outside the pixel
/// data (magenta).
pub const MISSING_TEXEL: u32 = 0xFF00FFFF;

/// Decoded image data: row-major `AARRGGBB` texels.
#[derive(Debug, Clone)]
pub struct Texture {
    /// Where the data came from; provenance only.
    pub path: String,
    /// Row-major texels.
    pub data: Vec<u32>,
    /// Width in texels.
    pub width: u32,
    /// Height in texels.
    pub height: u32,
}

/// One `AARRGGBB` texel from its four bytes.
pub open spec fn texel_spec(r: u8, g: u8, b: u8, a: u8) -> int {
    a as int * 0x1000000 + r as int * 0x10000 + g as int * 0x100 + b as int
}

impl Texture {
    /// The pixel data covers exactly the advertised size.
    pub open spec fn wf(self) -> bool {
        self.data@.len() == self.width as int * self.height as int
    }

    /// Packs decoded RGBA bytes (four per texel, row-major) into a texture;
    /// `None` when the byte count does not match the advertised size.
    pub fn from_rgba_bytes(path: String, width: u32, height: u32, bytes: &Vec<u8>) -> (t: Option<
        Texture,
    >)
        ensures
            t is Some <==> bytes@.len() == 4 * (width as int * height as int),
            t matches Some(tex) ==> {
                &&& tex.wf()
                &&& tex.width == width
                &&& tex.height == height
                &&& tex.data@.len() == width as int * height as int
                &&& forall|i: int|
                    0 <= i < tex.data@.len() ==> tex.data@[i] == texel_spec(
                        bytes@[4 * i],
                        bytes@[4 * i + 1],
                        bytes@[4 * i + 2],
                        bytes@[4 * i + 3],
                    )
            },
    {
        proof {
            assert((width as int) * (height as int) < 0x1_0000_0000_0000_0000) by (nonlinear_arith)
                requires
                    width < 0x1_0000_0000,
                    height < 0x1_0000_0000,
            ;
        }
        let n: u64 = (width as u64) * (height as u64);
        if (bytes.len() as u64) / 4 != n || bytes.len() % 4 != 0 {
            return None;
        }
        let count = bytes.len() / 4;
        proof {
            vstd::arithmetic::div_mod::lemma_fundamental_div_mod(bytes@.len() as int, 4);
        }
        let mut data: Vec<u32> = Vec::new();
        let mut i: usize = 0;
        while i < count
            invariant
                0 <= i <= count,
                4 * count == bytes@.len(),
                bytes@.len() <= usize::MAX,
                data@.len() == i,
                forall|k: int|
                    0 <= k < i ==> data@[k] == texel_spec(
                        bytes@[4 * k],
                        bytes@[4 * k + 1],
                        bytes@[4 * k + 2],
                        bytes@[4 * k + 3],
                    ),
            decreases count - i,
        {
            let r = bytes[4 * i];
            let g = bytes[4 * i + 1];
            let b = bytes[4 * i + 2];
            let a = bytes[4 * i + 3];
            let texel: u32 = (a as u32) * 0x1000000 + (r as u32) * 0x10000 + (g as u32) * 0x100
                + (b as u32);
            data.push(texel);
            i = i + 1;
        }
        Some(Texture { path, data, width, height })
    }
}

/// Resolved surface appearance: an optional solid override color and an
/// optional texture.  The solid color takes precedence when both are set.
#[derive(Debug, Clone)]
pub struct Material {
    pub base_color: Option<Color>,
    pub texture: Option<Texture>,
}

impl Default for Material {
    /// No override color and no texture.
    fn default() -> (m: Self)
        ensures
            m.base_color is None,
            m.texture is None,
    {
        Material { base_color: None, texture: None }
    }
}

/// The nearest texel of a material's texture at normalized fixed-point
/// coordinates: each axis is clamped to `[0, FX_ONE]` and mapped by
/// truncating `u * (width - 1)`; an out-of-range index falls back to the
/// sentinel color, and a material without a texture samples to zero.
pub open spec fn sample_spec(m: Material, u: int, v: int) -> int {
    match m.texture {
        Option::None => 0,
        Option::Some(t) => {
            let w = t.width as int;
            let h = t.height as int;
            let x = if w == 0 {
                0
            } else {
                trunc_div(clamp_fx_spec(u) * (w - 1), FX_ONE as int)
            };
            let y = if h == 0 {
                0
            } else {
                trunc_div(clamp_fx_spec(v) * (h - 1), FX_ONE as int)
            };
            let idx = y * w + x;
            if idx < t.data@.len() {
                t.data@[idx] as int
            } else {
                MISSING_TEXEL as int
            }
        },
    }
}

impl Material {
    /// Nearest-sample lookup at normalized fixed-point UV coordinates.
    pub fn sample_texture(&self, uv: (i64, i64)) -> (p: u32)
        ensures
            p == sample_spec(*self, uv.0 as int, uv.1 as int),
    {
        let u1 = clamp_fx(uv.0);
        let v1 = clamp_fx(uv.1);
        match &self.texture {
            Option::None => 0,
            Option::Some(t) => {
                let w = t.width;
                let h = t.height;
                let x: i64 = if w == 0 {
                    0
                } else {
                    proof {
                        assert(0 <= u1 * (w - 1) <= (w - 1) as int * FX_ONE) by (nonlinear_arith)
                            requires
                                0 <= u1 <= FX_ONE,
                                w >= 1,
                        ;
                        lemma_trunc_div_le(u1 as int * (w - 1) as int, FX_ONE as int, (w - 1) as int);
                    }
                    trunc_div_i64(u1 * ((w - 1) as i64), FX_ONE)
                };
                let y: i64 = if h == 0 {
                    0
                } else {
                    proof {
                        assert(0 <= v1 * (h - 1) <= (h - 1) as int * FX_ONE) by (nonlinear_arith)
                            requires
                                0 <= v1 <= FX_ONE,
                                h >= 1,
                        ;
                        lemma_trunc_div_le(v1 as int * (h - 1) as int, FX_ONE as int, (h - 1) as int);
                    }
                    trunc_div_i64(v1 * ((h - 1) as i64), FX_ONE)
                };
                proof {
                    assert((y as int) * (w as int) + (x as int) < 0x1_0000_0000_0000_0000) by (nonlinear_arith)
                        requires
                            0 <= x <= 0xffff_fffe,
                            0 <= y <= 0xffff_fffe,
                            0 <= w <= 0xffff_ffff,
                    ;
                    assert((y as int) * (w as int) >= 0) by (nonlinear_arith)
                        requires
                            0 <= y,
                            0 <= w,
                    ;
                }
                let idx: u64 = (y as u64) * (w as u64) + (x as u64);
                if idx < t.data.len() as u64 {
                    t.data[idx as usize]
                } else {
                    MISSING_TEXEL
                }
            },
        }
    }
}

impl Texture {
    /// Width and height in texels.
    pub fn size(&self) -> (s: (u32, u32))
        ensures
            s == (self.width, self.height),
    {
        (self.width, self.height)
    }
}

} // verus!
