//! Integer square root and truncating scaled division.
//!
//! The steering arithmetic approximates unit vectors in fixed point. Both
//! operations are defined exactly at the spec level so that every contract
//! built on them pins its result down to the last integer.

use vstd::prelude::*;
use vstd::arithmetic::div_mod::{
    lemma_div_is_ordered, lemma_div_multiples_vanish, lemma_div_nonincreasing, lemma_div_of0,
    lemma_div_pos_is_pos,
};
use vstd::arithmetic::mul::lemma_mul_inequality;

verus! {

/// Floor of the square root of `n`.
pub open spec fn sqrt_floor(n: nat) -> nat
    decreases n,
{
    if n == 0 {
        0
    } else {
        let r = sqrt_floor((n - 1) as nat);
        if (r + 1) * (r + 1) <= n {
            r + 1
        } else {
            r
        }
    }
}

/// `sqrt_floor(n)` is the unique `r` with `r * r <= n < (r + 1) * (r + 1)`.
pub proof fn lemma_sqrt_floor_bounds(n: nat)
    ensures
        sqrt_floor(n) * sqrt_floor(n) <= n,
        n < (sqrt_floor(n) + 1) * (sqrt_floor(n) + 1),
    decreases n,
{
    if n == 0 {
        assert(sqrt_floor(n) == 0);
        assert(n < (sqrt_floor(n) + 1) * (sqrt_floor(n) + 1)) by (nonlinear_arith)
            requires
                n == 0,
                sqrt_floor(n) == 0,
        ;
    } else {
        lemma_sqrt_floor_bounds((n - 1) as nat);
        let r = sqrt_floor((n - 1) as nat);
        if (r + 1) * (r + 1) <= n {
            assert(sqrt_floor(n) == r + 1);
            assert(n < (r + 2) * (r + 2)) by (nonlinear_arith)
                requires
                    n - 1 < (r + 1) * (r + 1),
            ;
        } else {
            assert(sqrt_floor(n) == r);
        }
    }
}

pub proof fn lemma_sqrt_floor_unique(n: nat, r: nat)
    requires
        r * r <= n,
        n < (r + 1) * (r + 1),
    ensures
        r == sqrt_floor(n),
{
    lemma_sqrt_floor_bounds(n);
    let s = sqrt_floor(n);
    if r < s {
        assert(false) by (nonlinear_arith)
            requires
                r < s,
                s * s <= n,
                n < (r + 1) * (r + 1),
        ;
    }
    if s < r {
        assert(false) by (nonlinear_arith)
            requires
                s < r,
                r * r <= n,
                n < (s + 1) * (s + 1),
        ;
    }
}

/// Binary search for the floor square root; exact for every `u64`.
pub fn isqrt(n: u64) -> (r: u64)
    ensures
        r == sqrt_floor(n as nat),
        r * r <= n,
        n < (r + 1) * (r + 1),
{
    let mut lo: u64 = 0;
    let mut hi: u64 = 4_294_967_296;
    proof {
        assert((4_294_967_296int) * (4_294_967_296int) > n as int) by (nonlinear_arith)
            requires
                n <= u64::MAX,
        ;
    }
    while lo + 1 < hi
        invariant
            lo < hi <= 4_294_967_296,
            (lo as int) * (lo as int) <= n as int,
            (hi as int) * (hi as int) > n as int,
        decreases hi - lo,
    {
        let mid = lo + (hi - lo) / 2;
        proof {
            assert((mid as int) * (mid as int) <= 0x1_0000_0000_0000_0000) by (nonlinear_arith)
                requires
                    0 <= mid <= 0x1_0000_0000,
            ;
        }
        let sq: u128 = (mid as u128) * (mid as u128);
        if sq <= n as u128 {
            lo = mid;
        } else {
            hi = mid;
        }
    }
    proof {
        lemma_sqrt_floor_unique(n as nat, lo as nat);
    }
    lo
}

/// Bounding two factors bounds their product.
pub proof fn lemma_abs_mul_bound(a: int, b: int, bound_a: int, bound_b: int)
    requires
        -bound_a <= a <= bound_a,
        -bound_b <= b <= bound_b,
    ensures
        -(bound_a * bound_b) <= a * b <= bound_a * bound_b,
{
    assert(-(bound_a * bound_b) <= a * b <= bound_a * bound_b) by (nonlinear_arith)
        requires
            -bound_a <= a <= bound_a,
            -bound_b <= b <= bound_b,
    ;
}

/// `v * m / d` with truncation toward zero, the rounding executable code
/// performs when the division is done on magnitudes.
pub open spec fn mul_div_trunc(v: int, m: int, d: int) -> int
    recommends
        0 <= m,
        1 <= d,
{
    if v >= 0 {
        (v * m) / d
    } else {
        -(((-v) * m) / d)
    }
}

/// Truncating toward zero is odd in its first argument.
pub proof fn lemma_mul_div_trunc_neg(v: int, m: int, d: int)
    requires
        1 <= d,
    ensures
        mul_div_trunc(-v, m, d) == -mul_div_trunc(v, m, d),
{
    if v == 0 {
        lemma_div_of0(d);
        assert(0 * m == 0);
    }
}

/// When `|v| <= d` the scaled quotient keeps `v`'s sign and `|r| <= m`.
pub proof fn lemma_mul_div_trunc_bound(v: int, m: int, d: int)
    requires
        -d <= v <= d,
        0 <= m,
        1 <= d,
    ensures
        -m <= mul_div_trunc(v, m, d) <= m,
        v >= 0 ==> mul_div_trunc(v, m, d) >= 0,
        v <= 0 ==> mul_div_trunc(v, m, d) <= 0,
{
    if v >= 0 {
        lemma_div_pos_is_pos(v * m, d);
        lemma_mul_inequality(v, d, m);
        lemma_div_is_ordered(v * m, d * m, d);
        lemma_div_multiples_vanish(m, d);
    } else {
        lemma_div_pos_is_pos((-v) * m, d);
        lemma_mul_inequality(-v, d, m);
        lemma_div_is_ordered((-v) * m, d * m, d);
        lemma_div_multiples_vanish(m, d);
    }
}

/// Integer division with truncation toward zero.
pub open spec fn div_trunc(a: int, d: int) -> int
    recommends
        1 <= d,
{
    if a >= 0 {
        a / d
    } else {
        -((-a) / d)
    }
}

/// `|a| <= d * c` bounds the truncated quotient by `c`.
pub proof fn lemma_div_trunc_bound(a: int, d: int, c: int)
    requires
        -(d * c) <= a <= d * c,
        1 <= d,
        0 <= c,
    ensures
        -c <= div_trunc(a, d) <= c,
{
    if a >= 0 {
        lemma_div_pos_is_pos(a, d);
        lemma_div_is_ordered(a, d * c, d);
        lemma_div_multiples_vanish(c, d);
    } else {
        lemma_div_pos_is_pos(-a, d);
        lemma_div_is_ordered(-a, d * c, d);
        lemma_div_multiples_vanish(c, d);
    }
}

/// Executable division with truncation toward zero, on magnitudes.
pub fn div_trunc_exec(a: i64, d: i64) -> (r: i64)
    requires
        -3_000_000_000_000 <= a <= 3_000_000_000_000,
        1 <= d,
    ensures
        r == div_trunc(a as int, d as int),
{
    if a >= 0 {
        let q: u64 = (a as u64) / (d as u64);
        proof {
            lemma_div_pos_is_pos(a as int, d as int);
            lemma_div_nonincreasing(a as int, d as int);
        }
        q as i64
    } else {
        let q: u64 = ((-a) as u64) / (d as u64);
        proof {
            lemma_div_pos_is_pos(-(a as int), d as int);
            lemma_div_nonincreasing(-(a as int), d as int);
        }
        -(q as i64)
    }
}

/// Executable truncating scaled division, computed on magnitudes.
pub fn mul_div(v: i64, m: i64, d: i64) -> (r: i64)
    requires
        -3_000_000_000_000 <= v <= 3_000_000_000_000,
        0 <= m <= 2_000_000,
        1 <= d,
    ensures
        r == mul_div_trunc(v as int, m as int, d as int),
{
    if v >= 0 {
        proof {
            assert(v * m <= 6_000_000_000_000_000_000) by (nonlinear_arith)
                requires
                    0 <= v <= 3_000_000_000_000,
                    0 <= m <= 2_000_000,
            ;
        }
        let p: u64 = (v as u64) * (m as u64);
        let q: u64 = p / (d as u64);
        proof {
            lemma_div_pos_is_pos(p as int, d as int);
            lemma_div_nonincreasing(p as int, d as int);
        }
        q as i64
    } else {
        let av: u64 = (-v) as u64;
        proof {
            assert(av * m <= 6_000_000_000_000_000_000) by (nonlinear_arith)
                requires
                    0 <= av <= 3_000_000_000_000,
                    0 <= m <= 2_000_000,
            ;
        }
        let p: u64 = av * (m as u64);
        let q: u64 = p / (d as u64);
        proof {
            lemma_div_pos_is_pos(p as int, d as int);
            lemma_div_nonincreasing(p as int, d as int);
        }
        -(q as i64)
    }
}

} // verus!
