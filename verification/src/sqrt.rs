//! Integer and fixed-point square roots.

use vstd::prelude::*;
use crate::fx::fx_abs;

verus! {

/// The floor of the square root of `n` (zero for negative arguments).
pub open spec fn sqrt_floor(n: int) -> int
    decreases
            (if n <= 0 {
                0
            } else {
                n
            }),
{
    if n <= 0 {
        0
    } else {
        let r = sqrt_floor(n - 1);
        if (r + 1) * (r + 1) <= n {
            r + 1
        } else {
            r
        }
    }
}

/// `sqrt_floor(n)` is the unique `r >= 0` with `r^2 <= n < (r+1)^2`.
pub proof fn lemma_sqrt_floor_bounds(n: int)
    requires
        n >= 0,
    ensures
        sqrt_floor(n) >= 0,
        sqrt_floor(n) * sqrt_floor(n) <= n,
        n < (sqrt_floor(n) + 1) * (sqrt_floor(n) + 1),
    decreases n,
{
    if n == 0 {
        assert(sqrt_floor(0) == 0);
    } else {
        lemma_sqrt_floor_bounds(n - 1);
        let r = sqrt_floor(n - 1);
        if (r + 1) * (r + 1) <= n {
            assert(n < ((r + 1) + 1) * ((r + 1) + 1)) by (nonlinear_arith)
                requires
                    n - 1 < (r + 1) * (r + 1),
                    r >= 0,
            ;
        }
    }
}

/// Any `r >= 0` with `r^2 <= n < (r+1)^2` equals `sqrt_floor(n)`.
pub proof fn lemma_sqrt_floor_unique(n: int, r: int)
    requires
        n >= 0,
        r >= 0,
        r * r <= n,
        n < (r + 1) * (r + 1),
    ensures
        r == sqrt_floor(n),
{
    lemma_sqrt_floor_bounds(n);
    let s = sqrt_floor(n);
    if s < r {
        assert((s + 1) * (s + 1) <= r * r) by (nonlinear_arith)
            requires
                0 <= s,
                s + 1 <= r,
        ;
    }
    if r < s {
        assert((r + 1) * (r + 1) <= s * s) by (nonlinear_arith)
            requires
                0 <= r,
                r + 1 <= s,
        ;
    }
}

/// The square root floor is monotone.
pub proof fn lemma_sqrt_floor_mono(a: int, b: int)
    requires
        0 <= a <= b,
    ensures
        sqrt_floor(a) <= sqrt_floor(b),
{
    lemma_sqrt_floor_bounds(a);
    lemma_sqrt_floor_bounds(b);
    let sa = sqrt_floor(a);
    let sb = sqrt_floor(b);
    if sb < sa {
        assert((sb + 1) * (sb + 1) <= sa * sa) by (nonlinear_arith)
            requires
                0 <= sb,
                sb + 1 <= sa,
        ;
    }
}

/// An upper bound on the argument bounds the root.
pub proof fn lemma_sqrt_floor_upper(n: int, b: int)
    requires
        0 <= n,
        0 <= b,
        n < b * b,
    ensures
        sqrt_floor(n) < b,
{
    lemma_sqrt_floor_bounds(n);
    let s = sqrt_floor(n);
    if s >= b {
        assert(b * b <= s * s) by (nonlinear_arith)
            requires
                0 <= b,
                b <= s,
        ;
    }
}

/// Floor of the square root of a `u64`, by bisection.
pub fn isqrt(n: u64) -> (r: u64)
    ensures
        r == sqrt_floor(n as int),
        r <= 0xFFFFFFFF,
{
    let mut lo: u64 = 0;
    let mut hi: u64 = 0x100000000;
    proof {
        assert((0x100000000int) * (0x100000000int) > n as int);
    }
    while hi - lo > 1
        invariant
            lo < hi <= 0x100000000,
            (lo as int) * (lo as int) <= n as int,
            (n as int) < (hi as int) * (hi as int),
        decreases hi - lo,
    {
        let mid: u64 = lo + (hi - lo) / 2;
        proof {
            assert((mid as int) * (mid as int) <= 0x100000000int * 0x100000000int)
                by (nonlinear_arith)
                requires
                    0 <= mid as int <= 0x100000000int,
            ;
        }
        if (mid as u128) * (mid as u128) <= n as u128 {
            lo = mid;
        } else {
            hi = mid;
        }
    }
    proof {
        lemma_sqrt_floor_unique(n as int, lo as int);
    }
    lo
}

/// The value of the fixed-point square root: the root of the raw value
/// rescaled so that the result is again a raw fixed-point value.
pub open spec fn fx_sqrt_spec(v: int) -> int {
    sqrt_floor(v * 65536)
}

/// Largest argument accepted by `fx_sqrt` (2^47 - 1).
pub const FX_SQRT_LIM: i64 = 0x7FFFFFFFFFFF;

/// Fixed-point square root, rounding down.
pub fn fx_sqrt(v: i64) -> (r: i64)
    requires
        0 <= v <= FX_SQRT_LIM,
    ensures
        r == fx_sqrt_spec(v as int),
        0 <= r <= 0xFFFFFFFF,
{
    let r: u64 = isqrt((v as u64) * 65536);
    r as i64
}

} // verus!
