//! Fixed-point sine, cosine and two-argument arctangent.
//!
//! Angles are raw fixed-point radians. The sine of a reduced quarter-circle
//! angle comes from a degree-seven polynomial; the paired cosine is the
//! rounded-down square-root complement, so that for every angle the pair
//! `(cos, sin)` lies on the unit circle up to two rounding units — the fact
//! the camera's orbit law rests on.

use vstd::prelude::*;
use crate::fx::{
    fx_abs, tdiv, fx_mul_spec, fx_div_spec, fx_clamp_spec, fx_mul, fx_clamp, tdiv_exec, fx_emod,
    fx_div, fx_abs_exec, lemma_fx_mul_bound, lemma_mul_inequality_abs, lemma_tdiv_abs_le,
    FX_ONE, FX_TWO_PI, FX_PI, FX_HALF_PI,
};
use crate::sqrt::{
    sqrt_floor, isqrt, lemma_sqrt_floor_bounds, lemma_sqrt_floor_unique, lemma_sqrt_floor_upper,
};
use vstd::arithmetic::div_mod::{
    lemma_mod_bound, lemma_div_is_ordered, lemma_div_multiples_vanish, lemma_div_pos_is_pos,
    lemma_div_of0,
};

verus! {

/// Sine of an angle in `[0, FX_HALF_PI]`, by the first four Taylor terms,
/// clamped into `[0, FX_ONE]`.
pub open spec fn sin_poly_spec(x: int) -> int {
    let x2 = fx_mul_spec(x, x);
    let x3 = fx_mul_spec(x2, x);
    let x5 = fx_mul_spec(x3, x2);
    let x7 = fx_mul_spec(x5, x2);
    fx_clamp_spec(x - tdiv(x3, 6) + tdiv(x5, 120) - tdiv(x7, 5040), 0, 65536)
}

/// Rounded-down square-root complement of a sine value in `[0, FX_ONE]`.
pub open spec fn cos_from_sin_spec(s: int) -> int {
    sqrt_floor(65536 * 65536 - s * s)
}

/// Fixed-point sine of any raw angle, by reduction into `[0, 2*pi)` and
/// quarter-circle folding.
pub open spec fn fx_sin_spec(a: int) -> int {
    let r = a % 411775;
    if r <= 102944 {
        sin_poly_spec(r)
    } else if r <= 205887 {
        sin_poly_spec(205887 - r)
    } else if r <= 308831 {
        -sin_poly_spec(r - 205887)
    } else {
        -sin_poly_spec(411775 - r)
    }
}

/// Fixed-point cosine of any raw angle: the square-root complement of the
/// folded sine, negative in the middle two quadrants.
pub open spec fn fx_cos_spec(a: int) -> int {
    let r = a % 411775;
    if r <= 102944 {
        cos_from_sin_spec(sin_poly_spec(r))
    } else if r <= 205887 {
        -cos_from_sin_spec(sin_poly_spec(205887 - r))
    } else if r <= 308831 {
        -cos_from_sin_spec(sin_poly_spec(r - 205887))
    } else {
        cos_from_sin_spec(sin_poly_spec(411775 - r))
    }
}

/// Sine of a quarter-circle angle.
fn sin_poly(x: i64) -> (r: i64)
    requires
        0 <= x <= 102944,
    ensures
        r == sin_poly_spec(x as int),
        0 <= r <= 65536,
{
    proof {
        lemma_fx_mul_bound(x as int, x as int, 102944, 102944);
    }
    let x2: i64 = fx_mul(x, x);
    proof {
        lemma_fx_mul_bound(x2 as int, x as int, 161705, 102944);
    }
    let x3: i64 = fx_mul(x2, x);
    proof {
        lemma_fx_mul_bound(x3 as int, x2 as int, 254100, 161705);
    }
    let x5: i64 = fx_mul(x3, x2);
    proof {
        lemma_fx_mul_bound(x5 as int, x2 as int, 627000, 161705);
    }
    let x7: i64 = fx_mul(x5, x2);
    proof {
        lemma_tdiv_abs_le(x3 as int, 6);
        lemma_tdiv_abs_le(x5 as int, 120);
        lemma_tdiv_abs_le(x7 as int, 5040);
    }
    let t: i64 = x - tdiv_exec(x3, 6) + tdiv_exec(x5, 120) - tdiv_exec(x7, 5040);
    fx_clamp(t, 0, FX_ONE)
}

/// Rounded-down square-root complement of a sine value.
fn cos_from_sin(s: i64) -> (r: i64)
    requires
        0 <= s <= 65536,
    ensures
        r == cos_from_sin_spec(s as int),
        0 <= r <= 65536,
{
    proof {
        lemma_mul_inequality_abs(s as int, s as int, 65536, 65536);
        lemma_sqrt_floor_upper(65536 * 65536 - (s as int) * (s as int), 65537);
        lemma_sqrt_floor_bounds(65536 * 65536 - (s as int) * (s as int));
    }
    let d: u64 = (4294967296u64 - ((s as u64) * (s as u64)));
    let r: u64 = isqrt(d);
    r as i64
}

/// Fixed-point cosine and sine of a raw angle, as one pair.
pub fn fx_sincos(a: i64) -> (r: (i64, i64))
    ensures
        r.0 == fx_cos_spec(a as int),
        r.1 == fx_sin_spec(a as int),
        fx_abs(r.0 as int) <= 65536,
        fx_abs(r.1 as int) <= 65536,
{
    let red: i64 = fx_emod(a, FX_TWO_PI);
    if red <= 102944 {
        let s: i64 = sin_poly(red);
        (cos_from_sin(s), s)
    } else if red <= 205887 {
        let s: i64 = sin_poly(205887 - red);
        (-cos_from_sin(s), s)
    } else if red <= 308831 {
        let s: i64 = sin_poly(red - 205887);
        (-cos_from_sin(s), -s)
    } else {
        let s: i64 = sin_poly(411775 - red);
        (cos_from_sin(s), -s)
    }
}

/// Fixed-point sine.
pub fn fx_sin(a: i64) -> (r: i64)
    ensures
        r == fx_sin_spec(a as int),
        fx_abs(r as int) <= 65536,
{
    let cs: (i64, i64) = fx_sincos(a);
    cs.1
}

/// Fixed-point cosine.
pub fn fx_cos(a: i64) -> (r: i64)
    ensures
        r == fx_cos_spec(a as int),
        fx_abs(r as int) <= 65536,
{
    let cs: (i64, i64) = fx_sincos(a);
    cs.0
}

/// For every angle, the pair `(cos, sin)` lies on the fixed-point unit
/// circle up to two rounding units, and both members lie in `[-1, 1]`.
pub proof fn lemma_sincos_pythagorean(a: int)
    ensures
        fx_cos_spec(a) * fx_cos_spec(a) + fx_sin_spec(a) * fx_sin_spec(a) <= 65536 * 65536,
        fx_cos_spec(a) * fx_cos_spec(a) + fx_sin_spec(a) * fx_sin_spec(a) > 65536 * 65536 - 2
            * 65536 - 1,
        fx_abs(fx_sin_spec(a)) <= 65536,
        fx_abs(fx_cos_spec(a)) <= 65536,
{
    lemma_mod_bound(a, 411775);
    let r = a % 411775;
    let red = if r <= 102944 {
        r
    } else if r <= 205887 {
        205887 - r
    } else if r <= 308831 {
        r - 205887
    } else {
        411775 - r
    };
    let s0 = sin_poly_spec(red);
    assert(0 <= s0 <= 65536);
    let c0 = cos_from_sin_spec(s0);
    lemma_mul_inequality_abs(s0, s0, 65536, 65536);
    lemma_sqrt_floor_bounds(65536 * 65536 - s0 * s0);
    lemma_sqrt_floor_upper(65536 * 65536 - s0 * s0, 65537);
    assert(c0 * c0 <= 65536 * 65536 - s0 * s0);
    assert(65536 * 65536 - s0 * s0 < (c0 + 1) * (c0 + 1));
    assert((c0 + 1) * (c0 + 1) == c0 * c0 + 2 * c0 + 1) by (nonlinear_arith);
    assert(fx_sin_spec(a) == s0 || fx_sin_spec(a) == -s0);
    assert(fx_cos_spec(a) == c0 || fx_cos_spec(a) == -c0);
    assert((-s0) * (-s0) == s0 * s0) by (nonlinear_arith);
    assert((-c0) * (-c0) == c0 * c0) by (nonlinear_arith);
}

/// At angle zero the sine is exactly zero and the cosine exactly one.
pub proof fn lemma_sincos_zero()
    ensures
        fx_sin_spec(0) == 0,
        fx_cos_spec(0) == 65536,
{
    lemma_mod_bound(0, 411775);
    lemma_div_multiples_vanish(0, 411775);
    vstd::arithmetic::div_mod::lemma_mod_self_0(411775);
    vstd::arithmetic::div_mod::lemma_small_mod(0, 411775);
    assert(0int % 411775 == 0);
    lemma_div_of0(65536);
    lemma_div_of0(6);
    lemma_div_of0(120);
    lemma_div_of0(5040);
    assert(fx_mul_spec(0, 0) == 0);
    assert(sin_poly_spec(0) == 0);
    assert(65536 * 65536 - 0 * 0 == 4294967296);
    lemma_sqrt_floor_unique(4294967296, 65536);
    assert(cos_from_sin_spec(0) == 65536);
}

/// Arctangent of `z` in `[0, FX_ONE]`, a quarter-circle polynomial
/// approximation that is exactly zero at zero.
pub open spec fn atan_poly_spec(z: int) -> int {
    fx_mul_spec(51472, z) - fx_mul_spec(fx_mul_spec(z, z - 65536), 16037 + fx_mul_spec(4345, z))
}

/// The polynomial arctangent stays within `[0, FX_HALF_PI]` on `[0, FX_ONE]`.
pub proof fn lemma_atan_poly_range(z: int)
    requires
        0 <= z <= 65536,
    ensures
        0 <= atan_poly_spec(z) <= 102944,
{
    let zm = fx_mul_spec(z, z - 65536);
    let c4 = fx_mul_spec(4345, z);
    lemma_fx_mul_bound(51472, z, 51472, 65536);
    lemma_fx_mul_bound(z, z - 65536, 65536, 65536);
    lemma_fx_mul_bound(4345, z, 4345, 65536);
    assert(z * (z - 65536) <= 0) by (nonlinear_arith)
        requires
            0 <= z <= 65536,
    ;
    crate::fx::lemma_tdiv_abs_mul_le(z * (z - 65536), 65536);
    assert(zm <= 0);
    assert(0 <= c4 <= 4345) by {
        assert(4345 * z >= 0) by (nonlinear_arith)
            requires
                z >= 0,
        ;
        crate::fx::lemma_tdiv_abs_mul_le(4345 * z, 65536);
    };
    let prod = fx_mul_spec(zm, 16037 + c4);
    lemma_fx_mul_bound(zm, 16037 + c4, 65536, 20382);
    assert(zm * (16037 + c4) <= 0) by (nonlinear_arith)
        requires
            zm <= 0,
            16037 + c4 >= 0,
    ;
    crate::fx::lemma_tdiv_abs_mul_le(zm * (16037 + c4), 65536);
    assert(prod <= 0);
    assert(fx_mul_spec(51472, z) >= 0) by {
        assert(51472 * z >= 0) by (nonlinear_arith)
            requires
                z >= 0,
        ;
        crate::fx::lemma_tdiv_abs_mul_le(51472 * z, 65536);
    };
}

/// Arctangent of a quotient in `[0, FX_ONE]`.
fn atan_poly(z: i64) -> (r: i64)
    requires
        0 <= z <= 65536,
    ensures
        r == atan_poly_spec(z as int),
        0 <= r <= 102944,
{
    proof {
        lemma_atan_poly_range(z as int);
        lemma_fx_mul_bound(z as int, z as int - 65536, 65536, 65536);
        lemma_fx_mul_bound(4345, z as int, 4345, 65536);
    }
    let zm: i64 = fx_mul(z, z - 65536);
    let c4: i64 = fx_mul(4345, z);
    proof {
        lemma_fx_mul_bound(zm as int, 16037 + c4 as int, 65536, 20382);
        lemma_fx_mul_bound(51472, z as int, 51472, 65536);
    }
    fx_mul(51472, z) - fx_mul(zm, 16037 + c4)
}

/// A scaled quotient of `0 <= a <= b` stays within `[0, FX_ONE]`.
pub proof fn lemma_fx_div_unit_range(a: int, b: int)
    requires
        0 <= a <= b,
        0 < b,
    ensures
        0 <= fx_div_spec(a, b) <= 65536,
{
    lemma_div_pos_is_pos(a * 65536, b);
    assert(a * 65536 >= 0) by (nonlinear_arith)
        requires
            a >= 0,
    ;
    assert(a * 65536 <= b * 65536) by (nonlinear_arith)
        requires
            0 <= a <= b,
    ;
    lemma_div_is_ordered(a * 65536, b * 65536, b);
    lemma_div_multiples_vanish(65536, b);
}

/// The angle of the point `(x, y)`, measured from the positive `x` axis,
/// in `(-pi, pi]`; zero when both arguments are zero.
pub open spec fn fx_atan2_spec(y: int, x: int) -> int {
    if x == 0 && y == 0 {
        0
    } else {
        let ax = fx_abs(x);
        let ay = fx_abs(y);
        let base = if ax >= ay {
            atan_poly_spec(fx_div_spec(ay, ax))
        } else {
            102944 - atan_poly_spec(fx_div_spec(ax, ay))
        };
        let q = if x >= 0 {
            base
        } else {
            205887 - base
        };
        if y >= 0 {
            q
        } else {
            -q
        }
    }
}

/// Two-argument arctangent.
pub fn fx_atan2(y: i64, x: i64) -> (r: i64)
    requires
        fx_abs(y as int) <= crate::fx::FX_DIV_LIM,
        fx_abs(x as int) <= crate::fx::FX_DIV_LIM,
    ensures
        r == fx_atan2_spec(y as int, x as int),
        -205887 <= r <= 205887,
{
    if x == 0 && y == 0 {
        return 0;
    }
    let ax: i64 = fx_abs_exec(x);
    let ay: i64 = fx_abs_exec(y);
    let base: i64 = if ax >= ay {
        proof {
            lemma_fx_div_unit_range(ay as int, ax as int);
        }
        let z: i64 = fx_div(ay, ax);
        atan_poly(z)
    } else {
        proof {
            lemma_fx_div_unit_range(ax as int, ay as int);
        }
        let z: i64 = fx_div(ax, ay);
        102944 - atan_poly(z)
    };
    let q: i64 = if x >= 0 {
        base
    } else {
        205887 - base
    };
    if y >= 0 {
        q
    } else {
        -q
    }
}

} // verus!
