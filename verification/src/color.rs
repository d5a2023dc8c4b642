//! An additive, blendable RGB value.
//!
//! Channels are raw fixed-point scalars, conventionally in `[0, 255]` but not
//! clamped by construction. Every blend operator is a pure function of two
//! colors; each carries an exact contract over its per-channel specification.

use vstd::prelude::*;
use crate::fx::{
    fx_abs, tdiv, fx_mul_spec, fx_div_spec, fx_clamp_spec, fx_min_spec, fx_max_spec,
    fx_round_unit_spec, fx_mul, fx_div, fx_clamp, fx_min, fx_max, fx_round_unit, tdiv_exec,
    fx_abs_exec, lemma_fx_mul_bound, lemma_tdiv_abs_le, FX_ONE,
};
use vstd::arithmetic::div_mod::{
    lemma_fundamental_div_mod, lemma_fundamental_div_mod_converse_div, lemma_div_of0,
};

verus! {

/// Largest channel magnitude the blend operators accept (2^30 raw, about
/// sixteen thousand in real units; channel values conventionally stay in
/// `[0, 255]`).
pub const COLOR_LIM: i64 = 0x40000000;

/// Raw fixed-point representation of 255.
pub const FX_255: i64 = 16711680;

/// An RGB color with raw fixed-point channels.
#[derive(Clone, Copy, Debug, PartialEq, Eq, Structural)]
pub struct Color {
    pub r: i64,
    pub g: i64,
    pub b: i64,
}

/// The mathematical-integer view of a color.
pub open spec fn c3(c: Color) -> (int, int, int) {
    (c.r as int, c.g as int, c.b as int)
}

/// All three channels bounded in magnitude by `m`.
pub open spec fn ch_bounded(c: (int, int, int), m: int) -> bool {
    fx_abs(c.0) <= m && fx_abs(c.1) <= m && fx_abs(c.2) <= m
}

/// One packed hex channel: the whole part of the raw value, negatives
/// saturating to zero, overlarge values to the `u32` maximum.
pub open spec fn hex_channel_spec(v: int) -> int {
    if v <= 0 {
        0
    } else if tdiv(v, 65536) > 4294967295 {
        4294967295
    } else {
        tdiv(v, 65536)
    }
}

/// The packed 24-bit value: red in bits 16.., green in bits 8.., blue low.
/// An out-of-range channel bleeds into the neighbouring bits, as the packing
/// does not mask.
pub open spec fn to_hex_spec(c: Color) -> u32 {
    ((hex_channel_spec(c.r as int) as u32) << 16u32) | ((hex_channel_spec(c.g as int) as u32)
        << 8u32) | (hex_channel_spec(c.b as int) as u32)
}

/// One channel of linear interpolation: the blend factor is clamped into
/// `[0, FX_ONE]` first, and the result rounded to a whole channel value.
pub open spec fn lerp_channel_spec(a: int, b: int, t: int) -> int {
    fx_round_unit_spec(a + fx_mul_spec(b - a, fx_clamp_spec(t, 0, 65536)))
}

pub open spec fn color_lerp_spec(a: (int, int, int), b: (int, int, int), t: int) -> (
    int,
    int,
    int,
) {
    (lerp_channel_spec(a.0, b.0, t), lerp_channel_spec(a.1, b.1, t), lerp_channel_spec(a.2, b.2, t))
}

/// Overlay of one channel: multiply below one half, screen above.
pub open spec fn overlay_channel_spec(base: int, blend: int) -> int {
    if base < 32768 {
        fx_min_spec(fx_mul_spec(fx_mul_spec(131072, base), blend), 65536)
    } else {
        fx_max_spec(65536 - fx_mul_spec(fx_mul_spec(131072, 65536 - base), 65536 - blend), 0)
    }
}

/// Color dodge of one channel.
pub open spec fn dodge_channel_spec(base: int, blend: int) -> int {
    if blend >= 16711680 {
        16711680
    } else {
        fx_min_spec(fx_div_spec(base, 16711680 - blend), 16711680)
    }
}

/// Color burn of one channel.
pub open spec fn burn_channel_spec(base: int, blend: int) -> int {
    if blend == 0 {
        0
    } else {
        16711680 - fx_min_spec(
            fx_div_spec(fx_mul_spec(16711680 - base, 16711680), blend),
            16711680,
        )
    }
}

/// Soft light of one channel, on channels rescaled into `[0, 1]`.
pub open spec fn soft_light_channel_spec(base: int, blend: int) -> int {
    let b = fx_div_spec(base, 16711680);
    let s = fx_div_spec(blend, 16711680);
    fx_round_unit_spec(
        if s < 32768 {
            fx_mul_spec(
                b - fx_mul_spec(fx_mul_spec(65536 - fx_mul_spec(131072, s), b), 65536 - b),
                16711680,
            )
        } else {
            fx_mul_spec(
                b + fx_mul_spec(
                    fx_mul_spec(131072, s) - 65536,
                    fx_mul_spec(fx_mul_spec(fx_abs(b - 32768), 1048576) + 786432, b) - 196608,
                ),
                16711680,
            )
        },
    )
}

/// Difference of one channel, capped at one.
pub open spec fn difference_channel_spec(a: int, b: int) -> int {
    fx_min_spec(fx_abs(a - b), 65536)
}

/// Exclusion of one channel, clamped into `[0, 1]`.
pub open spec fn exclusion_channel_spec(a: int, b: int) -> int {
    fx_clamp_spec(a + b - fx_mul_spec(fx_mul_spec(131072, a), b), 0, 65536)
}

impl Color {
    /// A color from raw channels.
    pub fn new(r: i64, g: i64, b: i64) -> (c: Color)
        ensures
            c == (Color { r, g, b }),
    {
        Color { r, g, b }
    }

    /// Black: all channels zero.
    pub fn black() -> (c: Color)
        ensures
            c == (Color { r: 0, g: 0, b: 0 }),
    {
        Color { r: 0, g: 0, b: 0 }
    }

    /// Pack into a 24-bit hex pixel value.
    pub fn to_hex(&self) -> (h: u32)
        ensures
            h == to_hex_spec(*self),
    {
        let r: u32 = hex_channel(self.r);
        let g: u32 = hex_channel(self.g);
        let b: u32 = hex_channel(self.b);
        (r << 16u32) | (g << 8u32) | b
    }

    /// Linear interpolation toward `other`; the factor is clamped into
    /// `[0, FX_ONE]`, each channel rounded to a whole value.
    pub fn lerp(&self, other: &Color, t: i64) -> (c: Color)
        requires
            ch_bounded(c3(*self), COLOR_LIM as int),
            ch_bounded(c3(*other), COLOR_LIM as int),
        ensures
            c3(c) == color_lerp_spec(c3(*self), c3(*other), t as int),
            ch_bounded(c3(c), 0x100000000),
    {
        let tc: i64 = fx_clamp(t, 0, FX_ONE);
        Color {
            r: lerp_channel(self.r, other.r, tc),
            g: lerp_channel(self.g, other.g, tc),
            b: lerp_channel(self.b, other.b, tc),
        }
    }

    /// Overlay blend: multiply where the base channel is below one half,
    /// screen above.
    pub fn blend_overlay(&self, blend: &Color) -> (c: Color)
        requires
            ch_bounded(c3(*self), COLOR_LIM as int),
            ch_bounded(c3(*blend), COLOR_LIM as int),
        ensures
            c3(c) == (
                overlay_channel_spec(self.r as int, blend.r as int),
                overlay_channel_spec(self.g as int, blend.g as int),
                overlay_channel_spec(self.b as int, blend.b as int),
            ),
    {
        Color {
            r: overlay_channel(self.r, blend.r),
            g: overlay_channel(self.g, blend.g),
            b: overlay_channel(self.b, blend.b),
        }
    }

    /// Darken blend: the channelwise minimum.
    pub fn blend_darken(&self, blend: &Color) -> (c: Color)
        ensures
            c3(c) == (
                fx_min_spec(self.r as int, blend.r as int),
                fx_min_spec(self.g as int, blend.g as int),
                fx_min_spec(self.b as int, blend.b as int),
            ),
    {
        Color {
            r: fx_min(self.r, blend.r),
            g: fx_min(self.g, blend.g),
            b: fx_min(self.b, blend.b),
        }
    }

    /// Lighten blend: the channelwise maximum.
    pub fn blend_lighten(&self, blend: &Color) -> (c: Color)
        ensures
            c3(c) == (
                fx_max_spec(self.r as int, blend.r as int),
                fx_max_spec(self.g as int, blend.g as int),
                fx_max_spec(self.b as int, blend.b as int),
            ),
    {
        Color {
            r: fx_max(self.r, blend.r),
            g: fx_max(self.g, blend.g),
            b: fx_max(self.b, blend.b),
        }
    }

    /// Linear interpolation without clamping or rounding:
    /// `a * (1 - t) + b * t`.
    pub fn mix(a: Color, b: Color, t: i64) -> (c: Color)
        requires
            ch_bounded(c3(a), COLOR_LIM as int),
            ch_bounded(c3(b), COLOR_LIM as int),
            fx_abs(t as int) <= 0x40000000,
        ensures
            c3(c) == (
                fx_mul_spec(a.r as int, 65536 - t) + fx_mul_spec(b.r as int, t as int),
                fx_mul_spec(a.g as int, 65536 - t) + fx_mul_spec(b.g as int, t as int),
                fx_mul_spec(a.b as int, 65536 - t) + fx_mul_spec(b.b as int, t as int),
            ),
    {
        proof {
            lemma_fx_mul_bound(a.r as int, 65536 - t, 0x40000000, 0x80000000);
            lemma_fx_mul_bound(a.g as int, 65536 - t, 0x40000000, 0x80000000);
            lemma_fx_mul_bound(a.b as int, 65536 - t, 0x40000000, 0x80000000);
            lemma_fx_mul_bound(b.r as int, t as int, 0x40000000, 0x40000000);
            lemma_fx_mul_bound(b.g as int, t as int, 0x40000000, 0x40000000);
            lemma_fx_mul_bound(b.b as int, t as int, 0x40000000, 0x40000000);
        }
        Color {
            r: fx_mul(a.r, FX_ONE - t) + fx_mul(b.r, t),
            g: fx_mul(a.g, FX_ONE - t) + fx_mul(b.g, t),
            b: fx_mul(a.b, FX_ONE - t) + fx_mul(b.b, t),
        }
    }

    /// Color dodge blend.
    pub fn blend_color_dodge(&self, blend: &Color) -> (c: Color)
        requires
            ch_bounded(c3(*self), COLOR_LIM as int),
            ch_bounded(c3(*blend), COLOR_LIM as int),
        ensures
            c3(c) == (
                dodge_channel_spec(self.r as int, blend.r as int),
                dodge_channel_spec(self.g as int, blend.g as int),
                dodge_channel_spec(self.b as int, blend.b as int),
            ),
    {
        Color {
            r: dodge_channel(self.r, blend.r),
            g: dodge_channel(self.g, blend.g),
            b: dodge_channel(self.b, blend.b),
        }
    }

    /// Color burn blend.
    pub fn blend_color_burn(&self, blend: &Color) -> (c: Color)
        requires
            ch_bounded(c3(*self), COLOR_LIM as int),
            ch_bounded(c3(*blend), COLOR_LIM as int),
        ensures
            c3(c) == (
                burn_channel_spec(self.r as int, blend.r as int),
                burn_channel_spec(self.g as int, blend.g as int),
                burn_channel_spec(self.b as int, blend.b as int),
            ),
    {
        Color {
            r: burn_channel(self.r, blend.r),
            g: burn_channel(self.g, blend.g),
            b: burn_channel(self.b, blend.b),
        }
    }

    /// Clamp each channel into `[0, 255]`.
    pub fn clamp(&self) -> (c: Color)
        ensures
            c3(c) == (
                fx_max_spec(fx_min_spec(self.r as int, 16711680), 0),
                fx_max_spec(fx_min_spec(self.g as int, 16711680), 0),
                fx_max_spec(fx_min_spec(self.b as int, 16711680), 0),
            ),
    {
        Color {
            r: fx_max(fx_min(self.r, FX_255), 0),
            g: fx_max(fx_min(self.g, FX_255), 0),
            b: fx_max(fx_min(self.b, FX_255), 0),
        }
    }

    /// Hard light blend: overlay with the same operands.
    pub fn blend_hard_light(&self, blend: &Color) -> (c: Color)
        requires
            ch_bounded(c3(*self), COLOR_LIM as int),
            ch_bounded(c3(*blend), COLOR_LIM as int),
        ensures
            c3(c) == (
                overlay_channel_spec(self.r as int, blend.r as int),
                overlay_channel_spec(self.g as int, blend.g as int),
                overlay_channel_spec(self.b as int, blend.b as int),
            ),
    {
        self.blend_overlay(blend)
    }

    /// Soft light blend. The channel bound here is tighter than elsewhere
    /// because the operator is cubic in its rescaled channels; it still
    /// leaves twice the conventional channel range.
    pub fn blend_soft_light(&self, blend: &Color) -> (c: Color)
        requires
            ch_bounded(c3(*self), 0x2000000),
            ch_bounded(c3(*blend), 0x2000000),
        ensures
            c3(c) == (
                soft_light_channel_spec(self.r as int, blend.r as int),
                soft_light_channel_spec(self.g as int, blend.g as int),
                soft_light_channel_spec(self.b as int, blend.b as int),
            ),
    {
        Color {
            r: soft_light_channel(self.r, blend.r),
            g: soft_light_channel(self.g, blend.g),
            b: soft_light_channel(self.b, blend.b),
        }
    }

    /// Difference blend, capped at one.
    pub fn blend_difference(&self, blend: &Color) -> (c: Color)
        requires
            ch_bounded(c3(*self), COLOR_LIM as int),
            ch_bounded(c3(*blend), COLOR_LIM as int),
        ensures
            c3(c) == (
                difference_channel_spec(self.r as int, blend.r as int),
                difference_channel_spec(self.g as int, blend.g as int),
                difference_channel_spec(self.b as int, blend.b as int),
            ),
    {
        Color {
            r: fx_min(fx_abs_exec(self.r - blend.r), FX_ONE),
            g: fx_min(fx_abs_exec(self.g - blend.g), FX_ONE),
            b: fx_min(fx_abs_exec(self.b - blend.b), FX_ONE),
        }
    }

    /// Exclusion blend, clamped into `[0, 1]`.
    pub fn blend_exclusion(&self, blend: &Color) -> (c: Color)
        requires
            ch_bounded(c3(*self), COLOR_LIM as int),
            ch_bounded(c3(*blend), COLOR_LIM as int),
        ensures
            c3(c) == (
                exclusion_channel_spec(self.r as int, blend.r as int),
                exclusion_channel_spec(self.g as int, blend.g as int),
                exclusion_channel_spec(self.b as int, blend.b as int),
            ),
    {
        Color {
            r: exclusion_channel(self.r, blend.r),
            g: exclusion_channel(self.g, blend.g),
            b: exclusion_channel(self.b, blend.b),
        }
    }

    /// Additive blend, capped at 255.
    pub fn blend_additive(&self, blend: &Color) -> (c: Color)
        requires
            ch_bounded(c3(*self), COLOR_LIM as int),
            ch_bounded(c3(*blend), COLOR_LIM as int),
        ensures
            c3(c) == (
                fx_min_spec(self.r as int + blend.r as int, 16711680),
                fx_min_spec(self.g as int + blend.g as int, 16711680),
                fx_min_spec(self.b as int + blend.b as int, 16711680),
            ),
    {
        Color {
            r: fx_min(self.r + blend.r, FX_255),
            g: fx_min(self.g + blend.g, FX_255),
            b: fx_min(self.b + blend.b, FX_255),
        }
    }

    /// Channelwise scaling by a raw fixed-point factor.
    pub fn mul(&self, scalar: i64) -> (c: Color)
        requires
            ch_bounded(c3(*self), 0x2000000000),
            fx_abs(scalar as int) <= 0x2000000000,
        ensures
            c3(c) == (
                fx_mul_spec(self.r as int, scalar as int),
                fx_mul_spec(self.g as int, scalar as int),
                fx_mul_spec(self.b as int, scalar as int),
            ),
    {
        Color {
            r: fx_mul(self.r, scalar),
            g: fx_mul(self.g, scalar),
            b: fx_mul(self.b, scalar),
        }
    }

    /// Channelwise sum.
    pub fn add(&self, other: &Color) -> (c: Color)
        requires
            ch_bounded(c3(*self), 0x1000000000000000),
            ch_bounded(c3(*other), 0x1000000000000000),
        ensures
            c3(c) == (
                self.r as int + other.r as int,
                self.g as int + other.g as int,
                self.b as int + other.b as int,
            ),
    {
        Color { r: self.r + other.r, g: self.g + other.g, b: self.b + other.b }
    }
}

/// One packed hex channel.
fn hex_channel(v: i64) -> (r: u32)
    ensures
        r == hex_channel_spec(v as int),
{
    if v <= 0 {
        0
    } else {
        let w: i64 = tdiv_exec(v, 65536);
        proof {
            crate::fx::lemma_tdiv_abs_mul_le(v as int, 65536);
        }
        if w > 4294967295 {
            4294967295
        } else {
            w as u32
        }
    }
}

/// One channel of clamped, rounded linear interpolation.
fn lerp_channel(a: i64, b: i64, tc: i64) -> (r: i64)
    requires
        fx_abs(a as int) <= COLOR_LIM,
        fx_abs(b as int) <= COLOR_LIM,
        0 <= tc <= 65536,
    ensures
        r == fx_round_unit_spec(a + fx_mul_spec(b - a, tc as int)),
        fx_abs(r as int) <= 0x100000000,
{
    proof {
        lemma_fx_mul_bound(b - a as int, tc as int, 0x80000000, 65536);
    }
    fx_round_unit(a + fx_mul(b - a, tc))
}

/// Overlay of one channel.
fn overlay_channel(base: i64, blend: i64) -> (r: i64)
    requires
        fx_abs(base as int) <= COLOR_LIM,
        fx_abs(blend as int) <= COLOR_LIM,
    ensures
        r == overlay_channel_spec(base as int, blend as int),
{
    if base < FX_HALF_RAW {
        proof {
            lemma_fx_mul_bound(131072, base as int, 131072, 0x40000000);
            lemma_fx_mul_bound(fx_mul_spec(131072, base as int), blend as int, 0x80000000, 0x40000000);
        }
        fx_min(fx_mul(fx_mul(131072, base), blend), FX_ONE)
    } else {
        proof {
            lemma_fx_mul_bound(131072, 65536 - base as int, 131072, 0x80000000);
            lemma_fx_mul_bound(
                fx_mul_spec(131072, 65536 - base as int),
                65536 - blend as int,
                0x100000000,
                0x80000000,
            );
        }
        fx_max(FX_ONE - fx_mul(fx_mul(131072, FX_ONE - base), FX_ONE - blend), 0)
    }
}

/// Raw one half, named for the overlay threshold.
const FX_HALF_RAW: i64 = 32768;

/// Color dodge of one channel.
fn dodge_channel(base: i64, blend: i64) -> (r: i64)
    requires
        fx_abs(base as int) <= COLOR_LIM,
        fx_abs(blend as int) <= COLOR_LIM,
    ensures
        r == dodge_channel_spec(base as int, blend as int),
{
    if blend >= FX_255 {
        FX_255
    } else {
        fx_min(fx_div(base, FX_255 - blend), FX_255)
    }
}

/// Color burn of one channel.
fn burn_channel(base: i64, blend: i64) -> (r: i64)
    requires
        fx_abs(base as int) <= COLOR_LIM,
        fx_abs(blend as int) <= COLOR_LIM,
    ensures
        r == burn_channel_spec(base as int, blend as int),
{
    if blend == 0 {
        0
    } else {
        proof {
            lemma_fx_mul_bound(16711680 - base as int, 16711680, 0x41000000, 16711680);
        }
        let t: i64 = fx_mul(FX_255 - base, FX_255);
        FX_255 - fx_min(fx_div(t, blend), FX_255)
    }
}

/// Soft light of one channel.
fn soft_light_channel(base: i64, blend: i64) -> (r: i64)
    requires
        fx_abs(base as int) <= 0x2000000,
        fx_abs(blend as int) <= 0x2000000,
    ensures
        r == soft_light_channel_spec(base as int, blend as int),
{
    let b: i64 = fx_div(base, FX_255);
    let s: i64 = fx_div(blend, FX_255);
    proof {
        assert(fx_abs(b as int) * 16711680 <= fx_abs(base as int) * 65536);
        assert(fx_abs(s as int) * 16711680 <= fx_abs(blend as int) * 65536);
        assert(fx_abs(b as int) <= 0x40000);
        assert(fx_abs(s as int) <= 0x40000);
    }
    if s < FX_HALF_RAW {
        proof {
            lemma_fx_mul_bound(131072, s as int, 131072, 0x40000);
            lemma_fx_mul_bound(
                65536 - fx_mul_spec(131072, s as int),
                b as int,
                0x90000,
                0x40000,
            );
            lemma_fx_mul_bound(
                fx_mul_spec(65536 - fx_mul_spec(131072, s as int), b as int),
                65536 - b as int,
                0x240000,
                0x50000,
            );
            lemma_fx_mul_bound(
                b as int - fx_mul_spec(
                    fx_mul_spec(65536 - fx_mul_spec(131072, s as int), b as int),
                    65536 - b as int,
                ),
                16711680,
                0xB80000,
                16711680,
            );
        }
        let u: i64 = fx_mul(fx_mul(FX_ONE - fx_mul(131072, s), b), FX_ONE - b);
        fx_round_unit(fx_mul(b - u, FX_255))
    } else {
        proof {
            lemma_fx_mul_bound(131072, s as int, 131072, 0x40000);
            lemma_fx_mul_bound(fx_abs(b as int - 32768), 1048576, 0x48000, 1048576);
            lemma_fx_mul_bound(
                fx_mul_spec(fx_abs(b as int - 32768), 1048576) + 786432,
                b as int,
                0x540000,
                0x40000,
            );
            lemma_fx_mul_bound(
                fx_mul_spec(131072, s as int) - 65536,
                fx_mul_spec(
                    fx_mul_spec(fx_abs(b as int - 32768), 1048576) + 786432,
                    b as int,
                ) - 196608,
                0x90000,
                0x1530000,
            );
            lemma_fx_mul_bound(
                b as int + fx_mul_spec(
                    fx_mul_spec(131072, s as int) - 65536,
                    fx_mul_spec(
                        fx_mul_spec(fx_abs(b as int - 32768), 1048576) + 786432,
                        b as int,
                    ) - 196608,
                ),
                16711680,
                0xC000000,
                16711680,
            );
        }
        let d: i64 = fx_abs_exec(b - FX_HALF_RAW);
        let v: i64 = fx_mul(fx_mul(d, 1048576) + 786432, b);
        let t: i64 = fx_mul(fx_mul(131072, s) - FX_ONE, v - 196608);
        fx_round_unit(fx_mul(b + t, FX_255))
    }
}

/// Exclusion of one channel.
fn exclusion_channel(a: i64, b: i64) -> (r: i64)
    requires
        fx_abs(a as int) <= COLOR_LIM,
        fx_abs(b as int) <= COLOR_LIM,
    ensures
        r == exclusion_channel_spec(a as int, b as int),
{
    proof {
        lemma_fx_mul_bound(131072, a as int, 131072, 0x40000000);
        lemma_fx_mul_bound(fx_mul_spec(131072, a as int), b as int, 0x80000000, 0x40000000);
    }
    fx_clamp(a + b - fx_mul(fx_mul(131072, a), b), 0, FX_ONE)
}

/// A raw value that is a whole multiple of `FX_ONE` rounds to itself.
pub proof fn lemma_round_unit_integral(v: int)
    requires
        v % 65536 == 0,
    ensures
        fx_round_unit_spec(v) == v,
{
    if v >= 0 {
        let k = v / 65536;
        lemma_fundamental_div_mod(v, 65536);
        lemma_fundamental_div_mod_converse_div(v + 32768, 65536, k, 32768);
    } else {
        let m = -v;
        vstd::arithmetic::div_mod::lemma_mod_neg_neg(v, 65536);
        assert(m % 65536 == 0);
        let k = m / 65536;
        lemma_fundamental_div_mod(m, 65536);
        lemma_fundamental_div_mod_converse_div(m + 32768, 65536, k, 32768);
    }
}

/// Interpolating with a factor at or below zero hands back the receiver;
/// with a factor at or above one, the argument — exactly, whenever the
/// channels are whole values. The factor is clamped into `[0, FX_ONE]`
/// first, so every out-of-range factor falls under one of the two cases.
pub proof fn lemma_color_lerp_endpoints(a: (int, int, int), b: (int, int, int), t: int)
    requires
        a.0 % 65536 == 0,
        a.1 % 65536 == 0,
        a.2 % 65536 == 0,
        b.0 % 65536 == 0,
        b.1 % 65536 == 0,
        b.2 % 65536 == 0,
    ensures
        t <= 0 ==> color_lerp_spec(a, b, t) == a,
        t >= 65536 ==> color_lerp_spec(a, b, t) == b,
        color_lerp_spec(a, b, t) == color_lerp_spec(a, b, fx_clamp_spec(t, 0, 65536)),
{
    crate::fx::lemma_fx_mul_unit(b.0 - a.0);
    crate::fx::lemma_fx_mul_unit(b.1 - a.1);
    crate::fx::lemma_fx_mul_unit(b.2 - a.2);
    if t <= 0 {
        lemma_round_unit_integral(a.0);
        lemma_round_unit_integral(a.1);
        lemma_round_unit_integral(a.2);
    }
    if t >= 65536 {
        lemma_round_unit_integral(b.0);
        lemma_round_unit_integral(b.1);
        lemma_round_unit_integral(b.2);
    }
}

} // verus!
