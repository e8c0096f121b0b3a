//! Packed RGBA8 color values and their conversions.
//!
//! The canonical packed 32-bit encoding of the whole engine is `AARRGGBB`
//! ([`Color::to_hex`]); the alternative `RRGGBBAA` order is offered only as
//! an explicit conversion ([`Color::to_rgba_hex`]).  Hue, saturation,
//! lightness and interpolation parameters are 16.16 fixed-point values (see
//! [`crate::fixed`]): saturation, lightness and parameters range over
//! `[0, FX_ONE]`, hue over fixed-point degrees.

use crate::fixed::{
    clamp_fx, clamp_fx_spec, euclid_mod_i64, fx_abs, lemma_round_div_mag, lemma_round_div_scaled,
    round_div, round_div_i64, trunc_div, trunc_div_i64, FX_ONE,
};
use vstd::prelude::*;

verus! {

/// One RGBA8 color: four 8-bit channels.
#[derive(Debug, Clone, Copy, PartialEq, Eq, Structural)]
pub struct Color {
    pub r: u8,
    pub g: u8,
    pub b: u8,
    pub a: u8,
}

/// The canonical `AARRGGBB` packing of a color.
pub open spec fn to_hex_spec(c: Color) -> int {
    c.a as int * 0x1000000 + c.r as int * 0x10000 + c.g as int * 0x100 + c.b as int
}

/// The `RRGGBBAA` packing of a color.
pub open spec fn to_rgba_hex_spec(c: Color) -> int {
    c.r as int * 0x1000000 + c.g as int * 0x10000 + c.b as int * 0x100 + c.a as int
}

/// A fixed-point fraction in `[0, FX_ONE]` scaled to a channel in `[0, 255]`,
/// rounded to nearest.
pub open spec fn channel_fx_spec(v: int) -> int {
    round_div(v * 255, FX_ONE as int)
}

/// One channel of the linear interpolation from `a` to `b` at parameter `t`
/// (fixed-point, clamped to `[0, FX_ONE]`), rounded to nearest.
pub open spec fn lerp_channel_spec(a: int, b: int, t: int) -> int {
    a + round_div((b - a) * clamp_fx_spec(t), FX_ONE as int)
}

/// The channel-wise linear interpolation from `c1` to `c2` at parameter `t`.
pub open spec fn lerp_spec(c1: Color, c2: Color, t: int) -> Color {
    Color {
        r: lerp_channel_spec(c1.r as int, c2.r as int, t) as u8,
        g: lerp_channel_spec(c1.g as int, c2.g as int, t) as u8,
        b: lerp_channel_spec(c1.b as int, c2.b as int, t) as u8,
        a: lerp_channel_spec(c1.a as int, c2.a as int, t) as u8,
    }
}

/// The standard six-sector HSL to RGB conversion, carried out exactly in
/// fixed point: hue in fixed-point degrees (wrapped into `[0, 360)`),
/// saturation and lightness clamped to `[0, FX_ONE]`.
pub open spec fn hsl_spec(h: int, s: int, l: int) -> Color {
    let s1 = clamp_fx_spec(s);
    let l1 = clamp_fx_spec(l);
    if s1 == 0 {
        let v = channel_fx_spec(l1) as u8;
        Color { r: v, g: v, b: v, a: 255 }
    } else {
        let c = round_div((FX_ONE - fx_abs(2 * l1 - FX_ONE)) * s1, FX_ONE as int);
        let hh = h % (360 * FX_ONE as int);
        let sector = hh / (60 * FX_ONE as int);
        let t = hh % (120 * FX_ONE as int);
        let x = round_div(c * (60 * FX_ONE - fx_abs(t - 60 * FX_ONE)), 60 * FX_ONE as int);
        let m = l1 - c / 2;
        let rgb1 = if sector == 0 {
            (c, x, 0int)
        } else if sector == 1 {
            (x, c, 0int)
        } else if sector == 2 {
            (0int, c, x)
        } else if sector == 3 {
            (0int, x, c)
        } else if sector == 4 {
            (x, 0int, c)
        } else {
            (c, 0int, x)
        };
        Color {
            r: channel_fx_spec(clamp_fx_spec(rgb1.0 + m)) as u8,
            g: channel_fx_spec(clamp_fx_spec(rgb1.1 + m)) as u8,
            b: channel_fx_spec(clamp_fx_spec(rgb1.2 + m)) as u8,
            a: 255,
        }
    }
}

/// The fire gradient black, red, yellow, white, piecewise linear in the
/// clamped parameter.
pub open spec fn heat_spec(v: int) -> Color {
    let v1 = clamp_fx_spec(v);
    if v1 < 16384 {
        lerp_spec(Color { r: 0, g: 0, b: 0, a: 255 }, Color { r: 255, g: 0, b: 0, a: 255 }, 4 * v1)
    } else if v1 < 32768 {
        lerp_spec(
            Color { r: 255, g: 0, b: 0, a: 255 },
            Color { r: 255, g: 255, b: 0, a: 255 },
            4 * v1 - FX_ONE,
        )
    } else {
        lerp_spec(
            Color { r: 255, g: 255, b: 0, a: 255 },
            Color { r: 255, g: 255, b: 255, a: 255 },
            2 * v1 - FX_ONE,
        )
    }
}

/// One channel of the two-sided mix `(1 - t) * a + t * b` with an unclamped
/// parameter: the exact value is truncated toward zero, then saturated to
/// `[0, 255]`.
pub open spec fn mix_channel_spec(a: int, b: int, t: int) -> int {
    let q = trunc_div((FX_ONE - t) * a + t * b, FX_ONE as int);
    if q < 0 {
        0
    } else if q > 255 {
        255
    } else {
        q
    }
}

/// A fraction in `[0, FX_ONE]` scaled to one channel byte.
fn channel_fx(v: i64) -> (r: u8)
    requires
        0 <= v <= FX_ONE,
    ensures
        r == channel_fx_spec(v as int),
{
    let q = round_div_i64(v * 255, FX_ONE);
    proof {
        lemma_round_div_scaled(v as int * 255, FX_ONE as int, 255);
    }
    q as u8
}

/// One interpolated channel at a parameter already clamped to `[0, FX_ONE]`.
fn lerp_channel(a: u8, b: u8, t: i64) -> (r: u8)
    requires
        0 <= t <= FX_ONE,
    ensures
        r == lerp_channel_spec(a as int, b as int, t as int),
{
    let d: i64 = (b as i64) - (a as i64);
    proof {
        if d >= 0 {
            assert(0 <= d * t <= d * FX_ONE) by (nonlinear_arith)
                requires
                    d >= 0,
                    0 <= t <= FX_ONE,
            ;
            lemma_round_div_scaled(d as int * t as int, FX_ONE as int, d as int);
            lemma_round_div_mag(d as int * t as int, FX_ONE as int);
        } else {
            assert(d * FX_ONE <= d * t <= 0) by (nonlinear_arith)
                requires
                    d < 0,
                    0 <= t <= FX_ONE,
            ;
            lemma_round_div_scaled(d as int * t as int, FX_ONE as int, -(d as int));
            lemma_round_div_mag(d as int * t as int, FX_ONE as int);
        }
    }
    let q = round_div_i64(d * t, FX_ONE);
    ((a as i64) + q) as u8
}

impl Default for Color {
    /// Opaque black.
    fn default() -> (c: Self)
        ensures
            c == (Color { r: 0, g: 0, b: 0, a: 255 }),
    {
        Color { r: 0, g: 0, b: 0, a: 255 }
    }
}

impl Color {
    /// An opaque color from its three channels.
    pub fn rgb(r: u8, g: u8, b: u8) -> (c: Self)
        ensures
            c == (Color { r, g, b, a: 255 }),
    {
        Color { r, g, b, a: 255 }
    }

    /// A color from all four channels.
    pub fn rgba(r: u8, g: u8, b: u8, a: u8) -> (c: Self)
        ensures
            c == (Color { r, g, b, a }),
    {
        Color { r, g, b, a }
    }

    /// An opaque color with random channels.
    pub fn random() -> (c: Self)
        ensures
            c.a == 255,
            c.r < 255,
            c.g < 255,
            c.b < 255,
    {
        let r = random_channel();
        let g = random_channel();
        let b = random_channel();
        Color { r, g, b, a: 255 }
    }

    /// A color with all four channels random.
    pub fn random_with_alpha() -> (c: Self)
        ensures
            c.r < 255,
            c.g < 255,
            c.b < 255,
            c.a < 255,
    {
        let r = random_channel();
        let g = random_channel();
        let b = random_channel();
        let a = random_channel();
        Color { r, g, b, a }
    }

    /// The six-sector HSL conversion: hue in fixed-point degrees, saturation
    /// and lightness fixed-point fractions (clamped to `[0, FX_ONE]`).
    pub fn hsl(h: i64, s: i64, l: i64) -> (c: Self)
        requires
            -0x4000_0000_0000_0000 <= h <= 0x4000_0000_0000_0000,
        ensures
            c == hsl_spec(h as int, s as int, l as int),
    {
        let s1 = clamp_fx(s);
        let l1 = clamp_fx(l);
        if s1 == 0 {
            let v = channel_fx(l1);
            Color { r: v, g: v, b: v, a: 255 }
        } else {
            let two_l = 2 * l1;
            let dev = if two_l >= FX_ONE {
                two_l - FX_ONE
            } else {
                FX_ONE - two_l
            };
            proof {
                assert(0 <= (FX_ONE - dev) * s1 <= FX_ONE * FX_ONE) by (nonlinear_arith)
                    requires
                        0 <= FX_ONE - dev <= FX_ONE,
                        0 <= s1 <= FX_ONE,
                ;
                lemma_round_div_scaled((FX_ONE - dev) as int * s1 as int, FX_ONE as int, FX_ONE as int);
                lemma_round_div_mag((FX_ONE - dev) as int * s1 as int, FX_ONE as int);
            }
            let cc = round_div_i64((FX_ONE - dev) * s1, FX_ONE);
            let hh = euclid_mod_i64(h, 360 * FX_ONE);
            let sector = trunc_div_i64(hh, 60 * FX_ONE);
            let t = euclid_mod_i64(hh, 120 * FX_ONE);
            let devt = if t >= 60 * FX_ONE {
                t - 60 * FX_ONE
            } else {
                60 * FX_ONE - t
            };
            proof {
                assert(0 <= cc * (60 * FX_ONE - devt) <= cc * (60 * FX_ONE)) by (nonlinear_arith)
                    requires
                        0 <= cc,
                        0 <= 60 * FX_ONE - devt <= 60 * FX_ONE,
                ;
                assert(cc * (60 * FX_ONE) <= FX_ONE * (60 * FX_ONE)) by (nonlinear_arith)
                    requires
                        0 <= cc <= FX_ONE,
                ;
                lemma_round_div_scaled(cc as int * (60 * FX_ONE - devt) as int, (60 * FX_ONE) as int, cc as int);
                lemma_round_div_mag(cc as int * (60 * FX_ONE - devt) as int, (60 * FX_ONE) as int);
            }
            let x = round_div_i64(cc * (60 * FX_ONE - devt), 60 * FX_ONE);
            let half_c = ((cc as u64) / 2) as i64;
            let m = l1 - half_c;
            let (r1, g1, b1): (i64, i64, i64) = if sector == 0 {
                (cc, x, 0)
            } else if sector == 1 {
                (x, cc, 0)
            } else if sector == 2 {
                (0, cc, x)
            } else if sector == 3 {
                (0, x, cc)
            } else if sector == 4 {
                (x, 0, cc)
            } else {
                (cc, 0, x)
            };
            let r = channel_fx(clamp_fx(r1 + m));
            let g = channel_fx(clamp_fx(g1 + m));
            let b = channel_fx(clamp_fx(b1 + m));
            Color { r, g, b, a: 255 }
        }
    }

    /// HSL with an explicit alpha channel.
    pub fn hsla(h: i64, s: i64, l: i64, a: u8) -> (c: Self)
        requires
            -0x4000_0000_0000_0000 <= h <= 0x4000_0000_0000_0000,
        ensures
            c == (Color { a, ..hsl_spec(h as int, s as int, l as int) }),
    {
        let mut color = Self::hsl(h, s, l);
        color.a = a;
        color
    }

    /// The fully saturated hue wheel at a clamped parameter in `[0, FX_ONE]`.
    pub fn rainbow(value: i64) -> (c: Self)
        ensures
            c == hsl_spec(360 * clamp_fx_spec(value as int), FX_ONE as int, (FX_ONE / 2) as int),
    {
        let v = clamp_fx(value);
        Self::hsl(360 * v, FX_ONE, FX_ONE / 2)
    }

    /// A gray level from a clamped parameter in `[0, FX_ONE]`.
    pub fn lightness(value: i64) -> (c: Self)
        ensures
            c == hsl_spec(0, 0, clamp_fx_spec(value as int)),
    {
        let v = clamp_fx(value);
        Self::hsl(0, 0, v)
    }

    /// Channel-wise linear interpolation from `c1` to `c2` at a fixed-point
    /// parameter clamped to `[0, FX_ONE]`.
    pub fn lerp(c1: Color, c2: Color, t: i64) -> (c: Self)
        ensures
            c == lerp_spec(c1, c2, t as int),
    {
        let t1 = clamp_fx(t);
        Color {
            r: lerp_channel(c1.r, c2.r, t1),
            g: lerp_channel(c1.g, c2.g, t1),
            b: lerp_channel(c1.b, c2.b, t1),
            a: lerp_channel(c1.a, c2.a, t1),
        }
    }

    /// The fire gradient black, red, yellow, white at a clamped parameter.
    pub fn from_heat(value: i64) -> (c: Self)
        ensures
            c == heat_spec(value as int),
    {
        let v = clamp_fx(value);
        if v < 16384 {
            Color::lerp(Color::rgb(0, 0, 0), Color::rgb(255, 0, 0), 4 * v)
        } else if v < 32768 {
            Color::lerp(Color::rgb(255, 0, 0), Color::rgb(255, 255, 0), 4 * v - FX_ONE)
        } else {
            Color::lerp(Color::rgb(255, 255, 0), Color::rgb(255, 255, 255), 2 * v - FX_ONE)
        }
    }

    /// The `RRGGBBAA` packing.
    pub fn to_rgba_hex(&self) -> (r: u32)
        ensures
            r == to_rgba_hex_spec(*self),
    {
        (self.r as u32) * 0x1000000 + (self.g as u32) * 0x10000 + (self.b as u32) * 0x100
            + self.a as u32
    }

    /// The canonical `AARRGGBB` packing.
    pub fn to_hex(&self) -> (r: u32)
        ensures
            r == to_hex_spec(*self),
    {
        (self.a as u32) * 0x1000000 + (self.r as u32) * 0x10000 + (self.g as u32) * 0x100
            + self.b as u32
    }

    /// The mix `(1 - t) * self + t * end` per channel, truncated and
    /// saturated; `t` is fixed-point and may lie outside `[0, FX_ONE]`.
    pub fn interpolate_color(&self, end: Self, t: i64) -> (c: Self)
        requires
            -0x1_0000_0000 <= t <= 0x1_0000_0000,
        ensures
            c.r == mix_channel_spec(self.r as int, end.r as int, t as int),
            c.g == mix_channel_spec(self.g as int, end.g as int, t as int),
            c.b == mix_channel_spec(self.b as int, end.b as int, t as int),
            c.a == mix_channel_spec(self.a as int, end.a as int, t as int),
    {
        Color {
            r: mix_channel(self.r, end.r, t),
            g: mix_channel(self.g, end.g, t),
            b: mix_channel(self.b, end.b, t),
            a: mix_channel(self.a, end.a, t),
        }
    }

    /// The red channel.
    pub fn r(&self) -> (v: u8)
        ensures
            v == self.r,
    {
        self.r
    }

    /// The green channel.
    pub fn g(&self) -> (v: u8)
        ensures
            v == self.g,
    {
        self.g
    }

    /// The blue channel.
    pub fn b(&self) -> (v: u8)
        ensures
            v == self.b,
    {
        self.b
    }

    /// The alpha channel.
    pub fn a(&self) -> (v: u8)
        ensures
            v == self.a,
    {
        self.a
    }

    /// Replaces the red channel.
    pub fn set_r(&mut self, r: u8)
        ensures
            *final(self) == (Color { r, ..*old(self) }),
    {
        self.r = r;
    }

    /// Replaces the green channel.
    pub fn set_g(&mut self, g: u8)
        ensures
            *final(self) == (Color { g, ..*old(self) }),
    {
        self.g = g;
    }

    /// Replaces the blue channel.
    pub fn set_b(&mut self, b: u8)
        ensures
            *final(self) == (Color { b, ..*old(self) }),
    {
        self.b = b;
    }

    /// Replaces the alpha channel.
    pub fn set_a(&mut self, a: u8)
        ensures
            *final(self) == (Color { a, ..*old(self) }),
    {
        self.a = a;
    }
}

/// One channel of the unclamped two-sided mix.
fn mix_channel(a: u8, b: u8, t: i64) -> (r: u8)
    requires
        -0x1_0000_0000 <= t <= 0x1_0000_0000,
    ensures
        r == mix_channel_spec(a as int, b as int, t as int),
{
    proof {
        assert(-0x200_0000_0000 <= (FX_ONE - t) * a <= 0x200_0000_0000) by (nonlinear_arith)
            requires
                -0x2_0000_0000 <= FX_ONE - t <= 0x2_0000_0000,
                0 <= a <= 255,
        ;
        assert(-0x200_0000_0000 <= t * b <= 0x200_0000_0000) by (nonlinear_arith)
            requires
                -0x2_0000_0000 <= t <= 0x2_0000_0000,
                0 <= b <= 255,
        ;
    }
    let n = (FX_ONE - t) * (a as i64) + t * (b as i64);
    let q = trunc_div_i64(n, FX_ONE);
    if q < 0 {
        0
    } else if q > 255 {
        255
    } else {
        q as u8
    }
}

impl From<Color> for u32 {
    /// The canonical `AARRGGBB` packing.
    fn from(color: Color) -> (r: u32)
        ensures
            r == to_hex_spec(color),
    {
        color.to_hex()
    }
}

impl vstd::std_specs::convert::FromSpecImpl<Color> for u32 {
    open spec fn obeys_from_spec() -> bool {
        true
    }

    open spec fn from_spec(color: Color) -> u32 {
        to_hex_spec(color) as u32
    }
}

/// Relies on rand::random_range over `0..255u8`: the range is nonempty and
/// the drawn value lies within it, so the result is below 255.
#[verifier::external_body]
fn random_channel() -> (r: u8)
    ensures
        r < 255,
{
    rand::random_range(0..255u8)
}

} // verus!
