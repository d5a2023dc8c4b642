//! Three-component fixed-point vectors and the small spec algebra they
//! satisfy. Components are raw fixed-point scalars.

use vstd::prelude::*;
use crate::fx::{
    fx_abs, fx_mul_spec, fx_div_spec, fx_mul, fx_div, FX_MUL_LIM,
    lemma_tdiv_abs_mul_le, lemma_mul_inequality_abs,
};
use crate::sqrt::{sqrt_floor, fx_sqrt, fx_sqrt_spec, lemma_sqrt_floor_bounds, lemma_sqrt_floor_mono};
use vstd::arithmetic::div_mod::{
    lemma_div_is_ordered, lemma_div_multiples_vanish, lemma_div_pos_is_pos,
    lemma_fundamental_div_mod,
};

verus! {

/// A point or direction, with raw fixed-point components.
#[derive(Clone, Copy, Debug, PartialEq, Eq, Structural)]
pub struct Vec3 {
    pub x: i64,
    pub y: i64,
    pub z: i64,
}

/// A two-component value (texture coordinates, screen positions).
#[derive(Clone, Copy, Debug, PartialEq, Eq, Structural)]
pub struct Vec2 {
    pub x: i64,
    pub y: i64,
}

/// The mathematical-integer view of a vector.
pub open spec fn v3(a: Vec3) -> (int, int, int) {
    (a.x as int, a.y as int, a.z as int)
}

/// All three components bounded in magnitude by `m`.
pub open spec fn t3_bounded(a: (int, int, int), m: int) -> bool {
    fx_abs(a.0) <= m && fx_abs(a.1) <= m && fx_abs(a.2) <= m
}

pub open spec fn t3_add(a: (int, int, int), b: (int, int, int)) -> (int, int, int) {
    (a.0 + b.0, a.1 + b.1, a.2 + b.2)
}

pub open spec fn t3_sub(a: (int, int, int), b: (int, int, int)) -> (int, int, int) {
    (a.0 - b.0, a.1 - b.1, a.2 - b.2)
}

pub open spec fn t3_scale(a: (int, int, int), s: int) -> (int, int, int) {
    (fx_mul_spec(a.0, s), fx_mul_spec(a.1, s), fx_mul_spec(a.2, s))
}

pub open spec fn t3_dot(a: (int, int, int), b: (int, int, int)) -> int {
    fx_mul_spec(a.0, b.0) + fx_mul_spec(a.1, b.1) + fx_mul_spec(a.2, b.2)
}

pub open spec fn t3_cross(a: (int, int, int), b: (int, int, int)) -> (int, int, int) {
    (
        fx_mul_spec(a.1, b.2) - fx_mul_spec(a.2, b.1),
        fx_mul_spec(a.2, b.0) - fx_mul_spec(a.0, b.2),
        fx_mul_spec(a.0, b.1) - fx_mul_spec(a.1, b.0),
    )
}

/// The squared magnitude, as a raw fixed-point value.
pub open spec fn t3_norm2(a: (int, int, int)) -> int {
    fx_mul_spec(a.0, a.0) + fx_mul_spec(a.1, a.1) + fx_mul_spec(a.2, a.2)
}

/// The magnitude, as a raw fixed-point value, rounded down.
pub open spec fn t3_mag(a: (int, int, int)) -> int {
    fx_sqrt_spec(t3_norm2(a))
}

/// Smallest squared magnitude on which `normalize` divides; below it the
/// vector is handed back unchanged (a defined stand-in for the undefined
/// direction of a degenerate vector).
pub const V3_NORM2_MIN: i64 = 4096;

/// The normalized direction: each component divided by the magnitude;
/// a vector of squared magnitude under `V3_NORM2_MIN` is returned unchanged.
pub open spec fn t3_normalize(a: (int, int, int)) -> (int, int, int) {
    let n2 = t3_norm2(a);
    if n2 < 4096 {
        a
    } else {
        let m = fx_sqrt_spec(n2);
        (fx_div_spec(a.0, m), fx_div_spec(a.1, m), fx_div_spec(a.2, m))
    }
}

/// Linear interpolation of one component.
pub open spec fn lerp1_spec(a: int, b: int, t: int) -> int {
    a + fx_mul_spec(b - a, t)
}

/// Componentwise linear interpolation.
pub open spec fn t3_lerp(a: (int, int, int), b: (int, int, int), t: int) -> (int, int, int) {
    (lerp1_spec(a.0, b.0, t), lerp1_spec(a.1, b.1, t), lerp1_spec(a.2, b.2, t))
}

/// For a blend factor in `[0, FX_ONE]` the interpolant stays between its
/// endpoints; at the endpoints of the factor range it is exact.
pub proof fn lemma_lerp1_range(a: int, b: int, t: int)
    requires
        0 <= t <= 65536,
    ensures
        lerp1_spec(a, b, t) >= a || lerp1_spec(a, b, t) >= b,
        lerp1_spec(a, b, t) <= a || lerp1_spec(a, b, t) <= b,
        fx_abs(lerp1_spec(a, b, t)) <= fx_abs(a) + fx_abs(b - a),
        t == 0 ==> lerp1_spec(a, b, t) == a,
        t == 65536 ==> lerp1_spec(a, b, t) == b,
{
    let m = b - a;
    crate::fx::lemma_fx_mul_unit(m);
    if m >= 0 {
        assert(0 <= m * t <= m * 65536) by (nonlinear_arith)
            requires
                m >= 0,
                0 <= t <= 65536,
        ;
        lemma_div_pos_is_pos(m * t, 65536);
        lemma_div_is_ordered(m * t, m * 65536, 65536);
        lemma_div_multiples_vanish(m, 65536);
    } else {
        assert(0 <= (-m) * t <= (-m) * 65536) by (nonlinear_arith)
            requires
                m < 0,
                0 <= t <= 65536,
        ;
        assert(-(m * t) == (-m) * t) by (nonlinear_arith);
        assert(-(m * 65536) == (-m) * 65536) by (nonlinear_arith);
        lemma_div_pos_is_pos((-m) * t, 65536);
        lemma_div_is_ordered((-m) * t, (-m) * 65536, 65536);
        lemma_div_multiples_vanish(-m, 65536);
    }
}

impl Vec3 {
    /// A vector from raw components.
    pub fn new(x: i64, y: i64, z: i64) -> (r: Vec3)
        ensures
            r == (Vec3 { x, y, z }),
    {
        Vec3 { x, y, z }
    }

    /// Componentwise sum.
    pub fn add(&self, o: &Vec3) -> (r: Vec3)
        requires
            t3_bounded(v3(*self), 0x1000000000000000),
            t3_bounded(v3(*o), 0x1000000000000000),
        ensures
            v3(r) == t3_add(v3(*self), v3(*o)),
    {
        Vec3 { x: self.x + o.x, y: self.y + o.y, z: self.z + o.z }
    }

    /// Componentwise difference.
    pub fn sub(&self, o: &Vec3) -> (r: Vec3)
        requires
            t3_bounded(v3(*self), 0x1000000000000000),
            t3_bounded(v3(*o), 0x1000000000000000),
        ensures
            v3(r) == t3_sub(v3(*self), v3(*o)),
    {
        Vec3 { x: self.x - o.x, y: self.y - o.y, z: self.z - o.z }
    }

    /// Scaling by a raw fixed-point factor.
    pub fn scale(&self, s: i64) -> (r: Vec3)
        requires
            t3_bounded(v3(*self), FX_MUL_LIM as int),
            fx_abs(s as int) <= FX_MUL_LIM,
        ensures
            v3(r) == t3_scale(v3(*self), s as int),
    {
        Vec3 { x: fx_mul(self.x, s), y: fx_mul(self.y, s), z: fx_mul(self.z, s) }
    }

    /// Fixed-point dot product.
    pub fn dot(&self, o: &Vec3) -> (r: i64)
        requires
            t3_bounded(v3(*self), 0x2000000000),
            t3_bounded(v3(*o), 0x2000000000),
        ensures
            r == t3_dot(v3(*self), v3(*o)),
    {
        proof {
            crate::fx::lemma_fx_mul_bound(self.x as int, o.x as int, 0x2000000000, 0x2000000000);
            crate::fx::lemma_fx_mul_bound(self.y as int, o.y as int, 0x2000000000, 0x2000000000);
            crate::fx::lemma_fx_mul_bound(self.z as int, o.z as int, 0x2000000000, 0x2000000000);
        }
        fx_mul(self.x, o.x) + fx_mul(self.y, o.y) + fx_mul(self.z, o.z)
    }

    /// Fixed-point cross product.
    pub fn cross(&self, o: &Vec3) -> (r: Vec3)
        requires
            t3_bounded(v3(*self), 0x2000000000),
            t3_bounded(v3(*o), 0x2000000000),
        ensures
            v3(r) == t3_cross(v3(*self), v3(*o)),
    {
        proof {
            crate::fx::lemma_fx_mul_bound(self.y as int, o.z as int, 0x2000000000, 0x2000000000);
            crate::fx::lemma_fx_mul_bound(self.z as int, o.y as int, 0x2000000000, 0x2000000000);
            crate::fx::lemma_fx_mul_bound(self.z as int, o.x as int, 0x2000000000, 0x2000000000);
            crate::fx::lemma_fx_mul_bound(self.x as int, o.z as int, 0x2000000000, 0x2000000000);
            crate::fx::lemma_fx_mul_bound(self.x as int, o.y as int, 0x2000000000, 0x2000000000);
            crate::fx::lemma_fx_mul_bound(self.y as int, o.x as int, 0x2000000000, 0x2000000000);
        }
        Vec3 {
            x: fx_mul(self.y, o.z) - fx_mul(self.z, o.y),
            y: fx_mul(self.z, o.x) - fx_mul(self.x, o.z),
            z: fx_mul(self.x, o.y) - fx_mul(self.y, o.x),
        }
    }

    /// Squared magnitude.
    pub fn norm2(&self) -> (r: i64)
        requires
            t3_bounded(v3(*self), 0x2000000000),
        ensures
            r == t3_norm2(v3(*self)),
            r >= 0,
            t3_bounded(v3(*self), 0x40000000) ==> r <= 0x300000000000,
    {
        proof {
            lemma_square_nonneg(self.x as int);
            lemma_square_nonneg(self.y as int);
            lemma_square_nonneg(self.z as int);
            crate::fx::lemma_fx_mul_bound(self.x as int, self.x as int, 0x2000000000, 0x2000000000);
            crate::fx::lemma_fx_mul_bound(self.y as int, self.y as int, 0x2000000000, 0x2000000000);
            crate::fx::lemma_fx_mul_bound(self.z as int, self.z as int, 0x2000000000, 0x2000000000);
            if t3_bounded(v3(*self), 0x40000000) {
                crate::fx::lemma_fx_mul_bound(self.x as int, self.x as int, 0x40000000, 0x40000000);
                crate::fx::lemma_fx_mul_bound(self.y as int, self.y as int, 0x40000000, 0x40000000);
                crate::fx::lemma_fx_mul_bound(self.z as int, self.z as int, 0x40000000, 0x40000000);
            }
        }
        fx_mul(self.x, self.x) + fx_mul(self.y, self.y) + fx_mul(self.z, self.z)
    }

    /// Magnitude, rounded down.
    pub fn magnitude(&self) -> (r: i64)
        requires
            t3_bounded(v3(*self), 0x40000000),
        ensures
            r == t3_mag(v3(*self)),
            r >= 0,
    {
        let n2: i64 = self.norm2();
        fx_sqrt(n2)
    }

    /// Normalized direction; a degenerate vector comes back unchanged.
    /// Either way every component of the result is small: a true direction
    /// component is one raw unit plus rounding at most, and a degenerate
    /// vector was small already.
    pub fn normalize(&self) -> (r: Vec3)
        requires
            t3_bounded(v3(*self), 0x40000000),
        ensures
            v3(r) == t3_normalize(v3(*self)),
            t3_bounded(v3(r), 67000),
    {
        let n2: i64 = self.norm2();
        if n2 < V3_NORM2_MIN {
            proof {
                lemma_degenerate_comp_bound(self.x as int, n2 as int, self.y as int, self.z as int);
                lemma_degenerate_comp_bound(self.y as int, n2 as int, self.x as int, self.z as int);
                lemma_degenerate_comp_bound(self.z as int, n2 as int, self.x as int, self.y as int);
            }
            *self
        } else {
            let m: i64 = fx_sqrt(n2);
            proof {
                lemma_mag_lower(n2 as int);
            }
            let r = Vec3 { x: fx_div(self.x, m), y: fx_div(self.y, m), z: fx_div(self.z, m) };
            proof {
                lemma_square_le_norm2(self.x as int, self.y as int, self.z as int);
                lemma_square_le_norm2(self.y as int, self.x as int, self.z as int);
                lemma_square_le_norm2(self.z as int, self.x as int, self.y as int);
                lemma_normalize_comp_bound(self.x as int, n2 as int, r.x as int);
                lemma_normalize_comp_bound(self.y as int, n2 as int, r.y as int);
                lemma_normalize_comp_bound(self.z as int, n2 as int, r.z as int);
            }
            r
        }
    }

    /// Componentwise linear interpolation by a factor in `[0, FX_ONE]`.
    pub fn lerp(&self, o: &Vec3, t: i64) -> (r: Vec3)
        requires
            t3_bounded(v3(*self), 0x40000000),
            t3_bounded(v3(*o), 0x40000000),
            0 <= t <= 65536,
        ensures
            v3(r) == t3_lerp(v3(*self), v3(*o), t as int),
            t3_bounded(v3(r), 0x40000000),
    {
        proof {
            lemma_lerp1_range(self.x as int, o.x as int, t as int);
            lemma_lerp1_range(self.y as int, o.y as int, t as int);
            lemma_lerp1_range(self.z as int, o.z as int, t as int);
        }
        Vec3 {
            x: self.x + fx_mul(o.x - self.x, t),
            y: self.y + fx_mul(o.y - self.y, t),
            z: self.z + fx_mul(o.z - self.z, t),
        }
    }
}

/// A square is never negative.
pub proof fn lemma_square_nonneg(a: int)
    ensures
        fx_mul_spec(a, a) >= 0,
        a * a >= 0,
{
    assert(a * a >= 0) by (nonlinear_arith);
    lemma_tdiv_abs_mul_le(a * a, 65536);
}

/// The magnitude of a vector with squared magnitude at least
/// `V3_NORM2_MIN` is at least `16384`.
proof fn lemma_mag_lower(n2: int)
    requires
        n2 >= 4096,
        n2 <= 0x7FFFFFFFFFFF,
    ensures
        fx_sqrt_spec(n2) >= 16384,
{
    lemma_sqrt_floor_bounds(n2 * 65536);
    let s = fx_sqrt_spec(n2);
    assert(16384 * 16384 <= n2 * 65536) by (nonlinear_arith)
        requires
            n2 >= 4096,
    ;
    if s < 16384 {
        assert((s + 1) * (s + 1) <= 16384 * 16384) by (nonlinear_arith)
            requires
                0 <= s,
                s + 1 <= 16384,
        ;
    }
}

/// The squared-magnitude term of one component is at most the whole
/// squared magnitude.
proof fn lemma_square_le_norm2(c: int, o1: int, o2: int)
    ensures
        fx_mul_spec(c, c) <= fx_mul_spec(c, c) + fx_mul_spec(o1, o1) + fx_mul_spec(o2, o2),
{
    lemma_square_nonneg(o1);
    lemma_square_nonneg(o2);
}

/// A component of a vector whose squared magnitude is under
/// `V3_NORM2_MIN` is itself at most `16385`.
proof fn lemma_degenerate_comp_bound(c: int, n2: int, o1: int, o2: int)
    requires
        0 <= n2 < 4096,
        n2 == fx_mul_spec(c, c) + fx_mul_spec(o1, o1) + fx_mul_spec(o2, o2),
    ensures
        fx_abs(c) <= 16385,
{
    lemma_square_nonneg(o1);
    lemma_square_nonneg(o2);
    lemma_square_nonneg(c);
    let a = fx_abs(c);
    if a > 16385 {
        crate::fx::lemma_abs_square(c);
        assert(a * a >= 16386 * 16386) by (nonlinear_arith)
            requires
                a >= 16386,
        ;
        lemma_div_is_ordered((16386 * 16386) as int, a * a, 65536);
        assert(fx_mul_spec(c, c) >= 4096);
    }
}

/// A component divided by the magnitude is at most one raw unit and a
/// little rounding: the bound `67000`.
proof fn lemma_normalize_comp_bound(c: int, n2: int, q: int)
    requires
        4096 <= n2,
        n2 * 65536 <= 0x7FFFFFFFFFFFFFFF,
        fx_mul_spec(c, c) <= n2,
        fx_abs(c) <= 0x40000000,
        fx_abs(q) * fx_sqrt_spec(n2) <= fx_abs(c) * 65536,
    ensures
        fx_abs(q) <= 67000,
{
    let a = fx_abs(c);
    let m = fx_sqrt_spec(n2);
    lemma_mag_lower(n2);
    if a <= 16384 {
        assert(fx_abs(q) * 16384 <= fx_abs(q) * m) by (nonlinear_arith)
            requires
                m >= 16384,
                fx_abs(q) >= 0,
        ;
        assert(a * 65536 <= 16384 * 65536) by (nonlinear_arith)
            requires
                a <= 16384,
        ;
    } else {
        crate::fx::lemma_abs_square(c);
        lemma_fundamental_div_mod(a * a, 65536);
        assert(65536 * fx_mul_spec(c, c) >= a * a - 65535);
        assert(n2 * 65536 >= a * a - 65535);
        assert((a - 258) * (a - 258) == a * a - 516 * a + 66564) by (nonlinear_arith);
        assert(n2 * 65536 >= (a - 258) * (a - 258));
        lemma_sqrt_floor_mono((a - 258) * (a - 258), n2 * 65536);
        assert((a - 258) * (a - 258) < (a - 257) * (a - 257)) by (nonlinear_arith)
            requires
                a >= 16385,
        ;
        crate::sqrt::lemma_sqrt_floor_unique((a - 258) * (a - 258), a - 258);
        assert(m >= a - 258);
        if fx_abs(q) > 67000 {
            assert(67001 * (a - 258) <= fx_abs(q) * m) by (nonlinear_arith)
                requires
                    fx_abs(q) >= 67001,
                    m >= a - 258,
                    a - 258 >= 0,
            ;
            assert(67001 * (a - 258) <= a * 65536);
            assert(false);
        }
    }
}

} // verus!
