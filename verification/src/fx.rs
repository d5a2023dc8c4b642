//! Signed fixed-point scalars with 16 fractional bits, stored in `i64`.
//!
//! The raw value `65536` stands for the real number `1.0`. Multiplication and
//! division truncate toward zero, symmetric around zero like the rounding of
//! the operations they stand for.

use vstd::prelude::*;
use vstd::arithmetic::div_mod::{
    lemma_fundamental_div_mod, lemma_fundamental_div_mod_converse_mod, lemma_div_is_ordered,
    lemma_div_multiples_vanish, lemma_div_nonincreasing, lemma_div_pos_is_pos,
};

verus! {

/// Raw representation of the real number one.
pub const FX_ONE: i64 = 65536;

/// Raw representation of one half.
pub const FX_HALF: i64 = 32768;

/// Nearest raw representation of pi.
pub const FX_PI: i64 = 205887;

/// Nearest raw representation of two pi.
pub const FX_TWO_PI: i64 = 411775;

/// Nearest raw representation of pi / 2.
pub const FX_HALF_PI: i64 = 102944;

/// Largest operand magnitude accepted by `fx_mul` (2^38).
pub const FX_MUL_LIM: i64 = 0x4000000000;

/// Largest dividend magnitude accepted by `fx_div` (2^46).
pub const FX_DIV_LIM: i64 = 0x400000000000;

/// Absolute value of a mathematical integer.
pub open spec fn fx_abs(a: int) -> int {
    if a >= 0 {
        a
    } else {
        -a
    }
}

/// Division truncating toward zero, for a positive divisor.
pub open spec fn tdiv(a: int, b: int) -> int {
    if a >= 0 {
        a / b
    } else {
        -((-a) / b)
    }
}

/// Division truncating toward zero, for any nonzero divisor.
pub open spec fn sdiv(a: int, b: int) -> int {
    if b >= 0 {
        tdiv(a, b)
    } else {
        -tdiv(a, -b)
    }
}

/// The value of a fixed-point product.
pub open spec fn fx_mul_spec(a: int, b: int) -> int {
    tdiv(a * b, 65536)
}

/// The value of a fixed-point quotient.
pub open spec fn fx_div_spec(a: int, b: int) -> int {
    sdiv(a * 65536, b)
}

/// Clamp into the closed interval `[lo, hi]`.
pub open spec fn fx_clamp_spec(v: int, lo: int, hi: int) -> int {
    if v < lo {
        lo
    } else if v > hi {
        hi
    } else {
        v
    }
}

pub open spec fn fx_min_spec(a: int, b: int) -> int {
    if a < b {
        a
    } else {
        b
    }
}

pub open spec fn fx_max_spec(a: int, b: int) -> int {
    if a > b {
        a
    } else {
        b
    }
}

/// Round a raw value to the nearest whole multiple of `FX_ONE`, halves away
/// from zero.
pub open spec fn fx_round_unit_spec(v: int) -> int {
    if v >= 0 {
        ((v + 32768) / 65536) * 65536
    } else {
        -(((-v + 32768) / 65536) * 65536)
    }
}

/// `|a / b| * b <= |a|` and `|a / b| <= |a|` for a positive divisor `b`.
pub proof fn lemma_tdiv_abs_mul_le(a: int, b: int)
    requires
        b > 0,
    ensures
        fx_abs(tdiv(a, b)) * b <= fx_abs(a),
        fx_abs(tdiv(a, b)) <= fx_abs(a),
        a >= 0 ==> tdiv(a, b) >= 0,
        a <= 0 ==> tdiv(a, b) <= 0,
{
    let m = fx_abs(a);
    lemma_fundamental_div_mod(m, b);
    lemma_div_nonincreasing(m, b);
    lemma_div_pos_is_pos(m, b);
    assert((m / b) * b <= m) by (nonlinear_arith)
        requires
            b > 0,
            m >= 0,
            m == b * (m / b) + m % b,
            0 <= m % b,
    ;
}

/// `|a / b| <= |a| / b` for a positive divisor `b`.
pub proof fn lemma_tdiv_abs_le(a: int, b: int)
    requires
        b > 0,
    ensures
        fx_abs(tdiv(a, b)) <= fx_abs(a) / b,
{
    lemma_div_pos_is_pos(fx_abs(a), b);
    if a >= 0 {
    } else {
    }
}

/// Bounding a product of bounded factors.
pub proof fn lemma_mul_inequality_abs(a: int, b: int, aa: int, bb: int)
    requires
        fx_abs(a) <= aa,
        fx_abs(b) <= bb,
    ensures
        fx_abs(a * b) <= aa * bb,
{
    assert(fx_abs(a * b) <= aa * bb) by (nonlinear_arith)
        requires
            fx_abs(a) <= aa,
            fx_abs(b) <= bb,
    ;
}

/// A fixed-point product of bounded factors is bounded.
pub proof fn lemma_fx_mul_bound(a: int, b: int, aa: int, bb: int)
    requires
        fx_abs(a) <= aa,
        fx_abs(b) <= bb,
    ensures
        fx_abs(fx_mul_spec(a, b)) <= (aa * bb) / 65536,
{
    lemma_mul_inequality_abs(a, b, aa, bb);
    lemma_tdiv_abs_le(a * b, 65536);
    lemma_div_is_ordered(fx_abs(a * b), aa * bb, 65536);
}

/// Multiplying by one raw unit is the identity; by zero, zero.
pub proof fn lemma_fx_mul_unit(a: int)
    ensures
        fx_mul_spec(a, 65536) == a,
        fx_mul_spec(65536, a) == a,
        fx_mul_spec(a, 0) == 0,
        fx_mul_spec(0, a) == 0,
{
    if a >= 0 {
        lemma_div_multiples_vanish(a, 65536);
    } else {
        lemma_div_multiples_vanish(-a, 65536);
    }
}

/// The quotient of scaled division is at least one unit when the dividend
/// reaches the divisor.
pub proof fn lemma_fx_div_ge_one(a: int, b: int)
    requires
        0 < b <= a,
    ensures
        fx_div_spec(a, b) >= 65536,
{
    assert(a * 65536 >= b * 65536) by (nonlinear_arith)
        requires
            0 < b <= a,
    ;
    lemma_div_is_ordered(b * 65536, a * 65536, b);
    lemma_div_multiples_vanish(65536, b);
}

/// A square equals the square of the absolute value, and is nonnegative.
pub proof fn lemma_abs_square(c: int)
    ensures
        c * c == fx_abs(c) * fx_abs(c),
        c * c >= 0,
{
    if c >= 0 {
        assert(c * c >= 0) by (nonlinear_arith)
            requires
                c >= 0,
        ;
    } else {
        assert(c * c == (-c) * (-c)) by (nonlinear_arith);
        assert((-c) * (-c) >= 0) by (nonlinear_arith)
            requires
                -c >= 0,
        ;
    }
}

/// Truncating division by a positive divisor.
pub fn tdiv_exec(a: i64, b: i64) -> (r: i64)
    requires
        b > 0,
        a > i64::MIN,
    ensures
        r == tdiv(a as int, b as int),
{
    if a >= 0 {
        proof {
            lemma_div_nonincreasing(a as int, b as int);
            lemma_div_pos_is_pos(a as int, b as int);
        }
        let q: u64 = (a as u64) / (b as u64);
        q as i64
    } else {
        proof {
            lemma_div_nonincreasing(-(a as int), b as int);
            lemma_div_pos_is_pos(-(a as int), b as int);
        }
        let m: u64 = ((-(a as i128)) as u64) / (b as u64);
        -(m as i64)
    }
}

/// Fixed-point product, truncating toward zero.
pub fn fx_mul(a: i64, b: i64) -> (r: i64)
    requires
        fx_abs(a as int) <= FX_MUL_LIM,
        fx_abs(b as int) <= FX_MUL_LIM,
    ensures
        r == fx_mul_spec(a as int, b as int),
        fx_abs(r as int) * 65536 <= fx_abs(a as int) * fx_abs(b as int),
{
    proof {
        lemma_mul_inequality_abs(a as int, b as int, FX_MUL_LIM as int, FX_MUL_LIM as int);
        assert(fx_abs((a as int) * (b as int)) == fx_abs(a as int) * fx_abs(b as int))
            by (nonlinear_arith);
    }
    let p: i128 = (a as i128) * (b as i128);
    proof {
        lemma_tdiv_abs_mul_le(p as int, 65536);
        lemma_tdiv_abs_le(p as int, 65536);
        lemma_div_nonincreasing(fx_abs(p as int), 65536);
    }
    if p >= 0 {
        (((p as u128) / 65536) as i128) as i64
    } else {
        (-((((-p) as u128) / 65536) as i128)) as i64
    }
}

/// Fixed-point quotient, truncating toward zero.
pub fn fx_div(a: i64, b: i64) -> (r: i64)
    requires
        b != 0,
        fx_abs(a as int) <= FX_DIV_LIM,
    ensures
        r == fx_div_spec(a as int, b as int),
        fx_abs(r as int) * fx_abs(b as int) <= fx_abs(a as int) * 65536,
{
    let n: i128 = (a as i128) * 65536;
    let nm: u128 = if n >= 0 {
        n as u128
    } else {
        (-n) as u128
    };
    let bm: u128 = if b >= 0 {
        b as u128
    } else {
        (-(b as i128)) as u128
    };
    let qm: u128 = nm / bm;
    proof {
        lemma_div_nonincreasing(nm as int, bm as int);
        lemma_div_pos_is_pos(nm as int, bm as int);
        lemma_tdiv_abs_mul_le(n as int, bm as int);
    }
    let neg: bool = (a < 0) != (b < 0);
    if neg {
        -(qm as i64)
    } else {
        qm as i64
    }
}

/// Absolute value.
pub fn fx_abs_exec(a: i64) -> (r: i64)
    requires
        a != i64::MIN,
    ensures
        r == fx_abs(a as int),
{
    if a >= 0 {
        a
    } else {
        -a
    }
}

/// Minimum of two raw values.
pub fn fx_min(a: i64, b: i64) -> (r: i64)
    ensures
        r == fx_min_spec(a as int, b as int),
{
    if a < b {
        a
    } else {
        b
    }
}

/// Maximum of two raw values.
pub fn fx_max(a: i64, b: i64) -> (r: i64)
    ensures
        r == fx_max_spec(a as int, b as int),
{
    if a > b {
        a
    } else {
        b
    }
}

/// Clamp into `[lo, hi]`.
pub fn fx_clamp(v: i64, lo: i64, hi: i64) -> (r: i64)
    ensures
        r == fx_clamp_spec(v as int, lo as int, hi as int),
{
    if v < lo {
        lo
    } else if v > hi {
        hi
    } else {
        v
    }
}

/// Round a raw value to the nearest whole multiple of `FX_ONE`, halves away
/// from zero.
pub fn fx_round_unit(v: i64) -> (r: i64)
    requires
        fx_abs(v as int) <= FX_DIV_LIM,
    ensures
        r == fx_round_unit_spec(v as int),
        fx_abs(r as int) <= fx_abs(v as int) + 32768,
{
    if v >= 0 {
        let q: u64 = ((v as u64) + 32768) / 65536;
        proof {
            lemma_fundamental_div_mod(v + 32768, 65536);
        }
        (q * 65536) as i64
    } else {
        let m: u64 = (-(v as i128)) as u64;
        let q: u64 = (m + 32768) / 65536;
        proof {
            lemma_fundamental_div_mod(m + 32768, 65536);
        }
        -((q * 65536) as i64)
    }
}

/// Euclidean remainder for a positive modulus: the result is in `[0, m)`.
pub fn fx_emod(a: i64, m: i64) -> (r: i64)
    requires
        m > 0,
    ensures
        r == (a as int) % (m as int),
        0 <= r < m,
{
    if a >= 0 {
        let r: u64 = (a as u64) % (m as u64);
        r as i64
    } else {
        let neg: u64 = (-(a as i128)) as u64;
        let rm: u64 = neg % (m as u64);
        proof {
            let na = -(a as int);
            lemma_fundamental_div_mod(na, m as int);
            let k = na / (m as int);
            assert(na == (m as int) * k + rm);
            if rm == 0 {
                assert(a as int == (-k) * (m as int) + 0) by (nonlinear_arith)
                    requires
                        a as int == -na,
                        na == (m as int) * k + rm,
                        rm == 0,
                ;
                lemma_fundamental_div_mod_converse_mod(a as int, m as int, -k, 0);
            } else {
                assert(a as int == (-k - 1) * (m as int) + (m - rm)) by (nonlinear_arith)
                    requires
                        a as int == -na,
                        na == (m as int) * k + rm,
                ;
                lemma_fundamental_div_mod_converse_mod(a as int, m as int, -k - 1, m - rm);
            }
        }
        if rm == 0 {
            0
        } else {
            m - (rm as i64)
        }
    }
}

} // verus!
