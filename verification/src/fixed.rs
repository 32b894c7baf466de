//! Fixed-point scalar arithmetic.
//!
//! Every scalar quantity of the engine (seconds, world units, speeds,
//! damping coefficients, color channels) is an `i64` counting milli-units:
//! `SCALE == 1000` stands for `1.0`. Multiplication and division of such
//! quantities rescale by `SCALE` and truncate toward zero, which `sdiv` and
//! `fmul` state exactly at the spec level.

use vstd::arithmetic::div_mod::{
    lemma_div_multiples_vanish, lemma_div_nonincreasing, lemma_div_pos_is_pos,
    lemma_fundamental_div_mod,
};
use vstd::prelude::*;

verus! {

/// Number of fixed-point steps per whole unit.
pub const SCALE: i64 = 1000;

/// Magnitude of a mathematical integer.
pub open spec fn absi(a: int) -> int {
    if a >= 0 {
        a
    } else {
        -a
    }
}

/// Division truncating toward zero, as Rust's integer `/` does,
/// for a positive divisor.
pub open spec fn sdiv(a: int, b: int) -> int
    recommends
        1 <= b,
{
    if a >= 0 {
        a / b
    } else {
        -((-a) / b)
    }
}

/// Fixed-point product: `a * b` rescaled back to milli-units.
pub open spec fn fmul(a: int, b: int) -> int {
    sdiv(a * b, SCALE as int)
}

/// Fixed-point quotient of non-negative `a` by positive `b`.
pub open spec fn fdiv(a: int, b: int) -> int
    recommends
        0 <= a,
        1 <= b,
{
    sdiv(a * SCALE as int, b)
}

pub proof fn lemma_sdiv_mag(a: int, b: int, m: int)
    requires
        1 <= b,
        absi(a) <= m,
    ensures
        absi(sdiv(a, b)) * b <= absi(a),
        absi(sdiv(a, b)) <= m,
        a >= 0 ==> sdiv(a, b) >= 0,
        a <= 0 ==> sdiv(a, b) <= 0,
{
    if a >= 0 {
        lemma_div_pos_is_pos(a, b);
        lemma_fundamental_div_mod(a, b);
        lemma_div_nonincreasing(a, b);
        assert((a / b) * b <= a) by (nonlinear_arith)
            requires
                a >= 0,
                b >= 1,
                a == b * (a / b) + a % b,
                a % b >= 0,
        ;
    } else {
        lemma_div_pos_is_pos(-a, b);
        lemma_fundamental_div_mod(-a, b);
        lemma_div_nonincreasing(-a, b);
        assert(((-a) / b) * b <= -a) by (nonlinear_arith)
            requires
                -a >= 0,
                b >= 1,
                -a == b * ((-a) / b) + (-a) % b,
                (-a) % b >= 0,
        ;
    }
}

pub proof fn lemma_fmul_mag(a: int, b: int, ma: int, mb: int)
    requires
        absi(a) <= ma,
        absi(b) <= mb,
    ensures
        absi(fmul(a, b)) * SCALE as int <= ma * mb,
        absi(fmul(a, b)) <= ma * mb,
{
    assert(absi(a * b) <= ma * mb) by (nonlinear_arith)
        requires
            absi(a) <= ma,
            absi(b) <= mb,
    ;
    lemma_sdiv_mag(a * b, SCALE as int, ma * mb);
}

/// Multiplying by the unit value `SCALE` is exact.
pub proof fn lemma_fmul_unit(a: int)
    ensures
        fmul(a, SCALE as int) == a,
        fmul(SCALE as int, a) == a,
{
    if a >= 0 {
        lemma_div_multiples_vanish(a, SCALE as int);
        assert(a * SCALE as int == SCALE as int * a);
    } else {
        lemma_div_multiples_vanish(-a, SCALE as int);
        assert((-a) * SCALE as int == SCALE as int * (-a));
        assert(-(a * SCALE as int) == SCALE as int * (-a)) by (nonlinear_arith);
    }
    assert(a * SCALE as int == SCALE as int * a);
}

pub proof fn lemma_fmul_zero(a: int)
    ensures
        fmul(a, 0) == 0,
        fmul(0, a) == 0,
        fmul(a, 0) == fmul(0, a),
{
    assert(a * 0 == 0) by (nonlinear_arith);
    assert(0 * a == 0) by (nonlinear_arith);
}

/// Fixed-point multiply. Exact per `fmul`; the caller must show the result
/// fits, which the engine's magnitude bounds always do.
pub fn mul_fp(a: i64, b: i64) -> (r: i64)
    requires
        absi(fmul(a as int, b as int)) <= i64::MAX as int,
    ensures
        r as int == fmul(a as int, b as int),
{
    let p: i128 = (a as i128) * (b as i128);
    proof {
        assert(p == a as int * b as int);
    }
    if p >= 0 {
        let q: u128 = (p as u128) / 1000;
        proof {
            assert(q == sdiv(a as int * b as int, SCALE as int));
        }
        q as i64
    } else {
        let q: u128 = ((-p) as u128) / 1000;
        proof {
            assert(q == (-(a as int * b as int)) / (SCALE as int));
        }
        -(q as i64)
    }
}

/// Fixed-point divide of a non-negative value by a positive one.
pub fn div_fp(a: i64, b: i64) -> (r: i64)
    requires
        0 <= a,
        a <= 9_000_000_000_000_000,
        1 <= b,
    ensures
        r as int == fdiv(a as int, b as int),
        0 <= r,
{
    let q: u128 = ((a as u128) * 1000) / (b as u128);
    proof {
        assert(a as int * 1000 == (a as u128 * 1000) as int);
        lemma_sdiv_mag(a as int * SCALE as int, b as int, 9_000_000_000_000_000_000);
        assert(absi(a as int * SCALE as int) <= 9_000_000_000_000_000_000) by (nonlinear_arith)
            requires
                0 <= a as int <= 9_000_000_000_000_000,
        ;
    }
    q as i64
}

/// Halves a value, truncating toward zero.
pub fn half_fp(a: i64) -> (r: i64)
    requires
        absi(a as int) <= 4_000_000_000_000_000_000,
    ensures
        r as int == sdiv(a as int, 2),
{
    if a >= 0 {
        ((a as u64) / 2) as i64
    } else {
        -((((-a) as u64) / 2) as i64)
    }
}

/// Truncating remainder of non-negative `a` by positive `b`.
pub fn rem_fp(a: i64, b: i64) -> (r: i64)
    requires
        0 <= a,
        1 <= b,
    ensures
        r as int == (a as int) % (b as int),
        0 <= r < b,
{
    ((a as u64) % (b as u64)) as i64
}

/// Denominator of the decay factor: the quadratic lower series
/// `1 + x + x^2 / 2` of the exponential, in milli-units.
pub open spec fn decay_denom(x: int) -> int {
    SCALE as int + x + sdiv(sdiv(x * x, SCALE as int), 2)
}

/// Velocity decay factor for a non-negative damping-times-age product `x`:
/// the reciprocal of `decay_denom`, rescaled to milli-units. It is exactly
/// `SCALE` (no decay) at `x == 0`, never exceeds `SCALE`, never goes
/// negative, and falls toward zero as `x` grows.
pub open spec fn decay_factor(x: int) -> int {
    sdiv(SCALE as int * SCALE as int, decay_denom(x))
}

pub proof fn lemma_decay_at_zero()
    ensures
        decay_factor(0) == SCALE as int,
{
    assert(0 * 0 == 0) by (nonlinear_arith);
    assert(decay_denom(0) == SCALE as int);
    assert(decay_factor(0) == sdiv(1_000_000, 1000));
}

pub proof fn lemma_decay_range(x: int)
    requires
        0 <= x,
    ensures
        0 <= decay_factor(x) <= SCALE as int,
        decay_denom(x) >= SCALE as int,
{
    assert(x * x >= 0) by (nonlinear_arith);
    lemma_sdiv_mag(x * x, SCALE as int, x * x);
    lemma_sdiv_mag(sdiv(x * x, SCALE as int), 2, sdiv(x * x, SCALE as int));
    assert(decay_denom(x) >= SCALE as int);
    lemma_div_pos_is_pos(SCALE as int * SCALE as int, decay_denom(x));
    lemma_fundamental_div_mod(SCALE as int * SCALE as int, decay_denom(x));
    let q = (SCALE as int * SCALE as int) / decay_denom(x);
    assert(q * SCALE as int <= 1_000_000) by (nonlinear_arith)
        requires
            q >= 0,
            decay_denom(x) >= SCALE as int,
            1_000_000 == decay_denom(x) * q + (SCALE as int * SCALE as int) % decay_denom(x),
            (SCALE as int * SCALE as int) % decay_denom(x) >= 0,
    ;
}

/// Computes `decay_factor` of the damping-times-age product.
pub fn decay_fp(x: i64) -> (r: i64)
    requires
        0 <= x,
        x <= 4_000_000_000,
    ensures
        r as int == decay_factor(x as int),
        0 <= r <= SCALE,
{
    proof {
        assert(x as int * x as int <= 16_000_000_000_000_000_000) by (nonlinear_arith)
            requires
                0 <= x as int <= 4_000_000_000,
        ;
    }
    let xx: u128 = (x as u128) * (x as u128);
    let t: u128 = (xx / 1000) / 2;
    let denom: u128 = 1000 + (x as u128) + t;
    let q: u128 = 1_000_000 / denom;
    proof {
        assert(xx == (x as int) * (x as int));
        assert(t == sdiv(sdiv(x as int * x as int, SCALE as int), 2)) by {
            assert(x as int * x as int >= 0) by (nonlinear_arith);
            lemma_div_pos_is_pos(x as int * x as int, SCALE as int);
        };
        assert(denom == decay_denom(x as int));
        lemma_decay_range(x as int);
        assert(q == decay_factor(x as int));
    }
    q as i64
}

/// Floor of the square root of a non-negative integer.
pub open spec fn sqrt_floor(n: int) -> int
    recommends
        0 <= n,
    decreases n,
{
    if n <= 0 {
        0
    } else {
        let s = sqrt_floor(n - 1);
        if (s + 1) * (s + 1) <= n {
            s + 1
        } else {
            s
        }
    }
}

/// `sqrt_floor(n)` is the unique `r >= 0` with `r * r <= n < (r + 1) * (r + 1)`.
pub proof fn lemma_sqrt_floor_char(n: int)
    requires
        0 <= n,
    ensures
        0 <= sqrt_floor(n),
        sqrt_floor(n) * sqrt_floor(n) <= n,
        n < (sqrt_floor(n) + 1) * (sqrt_floor(n) + 1),
    decreases n,
{
    if n == 0 {
        assert(sqrt_floor(0) == 0);
    } else {
        lemma_sqrt_floor_char(n - 1);
        let s = sqrt_floor(n - 1);
        if (s + 1) * (s + 1) <= n {
            assert(n - 1 < (s + 1) * (s + 1));
            assert(n < (s + 2) * (s + 2)) by (nonlinear_arith)
                requires
                    n <= (s + 1) * (s + 1),
                    0 <= s,
            ;
        }
    }
}

pub proof fn lemma_sqrt_floor_unique(n: int, r: int)
    requires
        0 <= n,
        0 <= r,
        r * r <= n,
        n < (r + 1) * (r + 1),
    ensures
        r == sqrt_floor(n),
{
    lemma_sqrt_floor_char(n);
    let s = sqrt_floor(n);
    assert(r == s) by (nonlinear_arith)
        requires
            0 <= r,
            0 <= s,
            r * r <= n,
            n < (r + 1) * (r + 1),
            s * s <= n,
            n < (s + 1) * (s + 1),
    ;
}

/// Integer square root by bisection.
pub fn isqrt(n: u64) -> (r: u64)
    requires
        n <= 4_000_000_000_000,
    ensures
        r as int == sqrt_floor(n as int),
        r as int * r as int <= n as int,
        (n as int) < (r as int + 1) * (r as int + 1),
        r <= 2_000_000,
{
    if n == 0 {
        return 0;
    }
    proof {
        lemma_sqrt_floor_char(n as int);
    }
    let mut lo: u64 = 0;
    let mut hi: u64 = 2_000_001;
    proof {
        assert((2_000_001 as int) * (2_000_001 as int) > 4_000_000_000_000) by (nonlinear_arith);
    }
    while lo + 1 < hi
        invariant
            lo < hi,
            hi <= 2_000_001,
            lo as int * lo as int <= n as int,
            (n as int) < hi as int * hi as int,
            n <= 4_000_000_000_000,
        decreases hi - lo,
    {
        let mid: u64 = lo + (hi - lo) / 2;
        proof {
            assert(lo < mid < hi);
            assert(mid as int * mid as int <= 2_000_001 * 2_000_001) by (nonlinear_arith)
                requires
                    0 <= mid as int <= 2_000_001,
            ;
        }
        let sq: u64 = mid * mid;
        if sq <= n {
            lo = mid;
        } else {
            hi = mid;
        }
    }
    proof {
        assert(hi == lo + 1);
        lemma_sqrt_floor_unique(n as int, lo as int);
    }
    lo
}

} // verus!
