//! Fixed-point scalar arithmetic.
//!
//! A world quantity is an `i64` count of millionths: one unit of length (or
//! one second, or one radian) is `SCALE` counts. Multiplying two fixed-point
//! quantities therefore needs a rescale by `SCALE`, which rounds towards
//! zero; that rounding is what [`mul_scale`] pins down. The module also
//! provides the integer ceiling square root used to clamp a velocity to a
//! maximum magnitude, together with the lemmas the clamp proof needs.

use vstd::prelude::*;

verus! {

use vstd::arithmetic::div_mod::lemma_div_is_ordered;
use vstd::arithmetic::div_mod::lemma_div_multiples_vanish;
use vstd::arithmetic::div_mod::lemma_fundamental_div_mod;
use vstd::arithmetic::div_mod::lemma_mod_bound;

/// Number of fixed-point counts in one world unit (and in one second).
pub const SCALE: i64 = 1_000_000;

/// Integer division rounding towards zero (the rounding of a fixed-point
/// rescale), for a positive divisor.
pub open spec fn div_to_zero(n: int, d: int) -> int {
    if n >= 0 {
        n / d
    } else {
        -((-n) / d)
    }
}

/// The product of two fixed-point quantities, brought back to fixed point:
/// `a * b / SCALE`, rounded towards zero.
pub open spec fn mul_scale(a: int, b: int) -> int {
    div_to_zero(a * b, SCALE as int)
}

/// `r` is the least nonnegative integer whose square is at least `x`.
pub open spec fn is_sqrt_ceil(x: int, r: int) -> bool {
    0 <= r && x <= r * r && (r == 0 || (r - 1) * (r - 1) < x)
}

/// The least nonnegative integer whose square is at least `x`
/// (meaningful for `x >= 0`; see [`lemma_sqrt_ceil`]).
pub open spec fn sqrt_ceil(x: int) -> int {
    choose|r: int| #[trigger] is_sqrt_ceil(x, r)
}

pub proof fn lemma_sqrt_ceil_exists(x: int)
    requires
        0 <= x,
    ensures
        exists|r: int| #[trigger] is_sqrt_ceil(x, r),
    decreases x,
{
    if x == 0 {
        assert(is_sqrt_ceil(0, 0));
    } else {
        lemma_sqrt_ceil_exists(x - 1);
        let r = choose|r: int| #[trigger] is_sqrt_ceil(x - 1, r);
        if x <= r * r {
            assert(is_sqrt_ceil(x, r));
        } else {
            assert((r + 1) * (r + 1) == r * r + 2 * r + 1) by (nonlinear_arith);
            assert(is_sqrt_ceil(x, r + 1));
        }
    }
}

pub proof fn lemma_sqrt_ceil_unique(x: int, r1: int, r2: int)
    requires
        is_sqrt_ceil(x, r1),
        is_sqrt_ceil(x, r2),
    ensures
        r1 == r2,
{
    if r1 < r2 {
        assert(r1 * r1 <= (r2 - 1) * (r2 - 1)) by (nonlinear_arith)
            requires
                0 <= r1,
                r1 <= r2 - 1,
        ;
        assert(false);
    }
    if r2 < r1 {
        assert(r2 * r2 <= (r1 - 1) * (r1 - 1)) by (nonlinear_arith)
            requires
                0 <= r2,
                r2 <= r1 - 1,
        ;
        assert(false);
    }
}

/// `sqrt_ceil` deserves its name: it satisfies `is_sqrt_ceil`.
pub proof fn lemma_sqrt_ceil(x: int)
    requires
        0 <= x,
    ensures
        is_sqrt_ceil(x, sqrt_ceil(x)),
{
    lemma_sqrt_ceil_exists(x);
}

/// Ceiling square root by bisection on the answer.
pub fn sqrt_ceil_u128(x: u128) -> (r: u128)
    ensures
        is_sqrt_ceil(x as int, r as int),
        r as int == sqrt_ceil(x as int),
{
    if x == 0 {
        proof {
            lemma_sqrt_ceil(0);
            lemma_sqrt_ceil_unique(0, 0, sqrt_ceil(0));
        }
        return 0;
    }
    let mut lo: u128 = 0;
    let mut hi: u128 = 0x1_0000_0000_0000_0000;
    while hi - lo > 1
        invariant
            lo < hi,
            hi <= 0x1_0000_0000_0000_0000u128,
            (lo as int) * (lo as int) <= x as int,
            (hi as int) * (hi as int) > x as int,
        decreases hi - lo,
    {
        let mid: u128 = lo + (hi - lo) / 2;
        assert(mid * mid <= 0xffff_ffff_ffff_ffffu128 * 0xffff_ffff_ffff_ffffu128)
            by (nonlinear_arith)
            requires
                mid <= 0xffff_ffff_ffff_ffffu128,
        ;
        if mid * mid <= x {
            lo = mid;
        } else {
            hi = mid;
        }
    }
    assert(lo * lo <= 0xffff_ffff_ffff_ffffu128 * 0xffff_ffff_ffff_ffffu128)
        by (nonlinear_arith)
        requires
            lo <= 0xffff_ffff_ffff_ffffu128,
    ;
    let r: u128 = if lo * lo == x {
        lo
    } else {
        hi
    };
    proof {
        if r == lo {
            if lo > 0 {
                assert((lo - 1) * (lo - 1) < lo * lo) by (nonlinear_arith)
                    requires
                        lo >= 1u128,
                ;
            }
        }
        assert(is_sqrt_ceil(x as int, r as int));
        lemma_sqrt_ceil(x as int);
        lemma_sqrt_ceil_unique(x as int, r as int, sqrt_ceil(x as int));
    }
    r
}

/// The magnitude of an `i64`, as a `u64` (total: handles `i64::MIN`).
pub fn abs_i64(x: i64) -> (r: u64)
    ensures
        x >= 0 ==> r as int == x as int,
        x < 0 ==> r as int == -(x as int),
{
    if x >= 0 {
        x as u64
    } else {
        (-(x as i128)) as u64
    }
}

/// `base + mul_scale(a, b)`, the one shape of fixed-point multiply-add the
/// integrator needs: advance a quantity by the rescaled product of two
/// others.
pub fn add_scaled(base: i64, a: i64, b: i64) -> (r: i64)
    requires
        i64::MIN <= base + mul_scale(a as int, b as int) <= i64::MAX,
    ensures
        r as int == base + mul_scale(a as int, b as int),
{
    let p: i128 = (a as i128) * (b as i128);
    let q: i128 = if p >= 0 {
        ((p as u128) / (SCALE as u128)) as i128
    } else {
        -((((-p) as u128) / (SCALE as u128)) as i128)
    };
    assert(q == mul_scale(a as int, b as int));
    let s: i128 = (base as i128) + q;
    s as i64
}

/// A rescaled product grows with the magnitude of its factor: if `a` lies
/// within `[-cap, cap]`, then `mul_scale(a, b)` lies within
/// `[-mul_scale(cap, b), mul_scale(cap, b)]` for nonnegative `b`.
pub proof fn lemma_mul_scale_bound(a: int, b: int, cap: int)
    requires
        -cap <= a <= cap,
        0 <= b,
    ensures
        -mul_scale(cap, b) <= mul_scale(a, b) <= mul_scale(cap, b),
{
    let d = SCALE as int;
    if a >= 0 {
        assert(0 <= a * b <= cap * b) by (nonlinear_arith)
            requires
                0 <= a <= cap,
                0 <= b,
        ;
        lemma_div_is_ordered(0, a * b, d);
        lemma_div_is_ordered(a * b, cap * b, d);
    } else {
        assert(0 <= (-a) * b <= cap * b && (-a) * b == -(a * b)) by (nonlinear_arith)
            requires
                0 <= -a <= cap,
                0 <= b,
        ;
        lemma_div_is_ordered(0, (-a) * b, d);
        lemma_div_is_ordered((-a) * b, cap * b, d);
        lemma_div_is_ordered(0, cap * b, d);
    }
}

/// Squares grow with their argument: `a <= b` once `a * a <= b * b` for
/// nonnegative `a`, `b`.
pub proof fn lemma_sq_le(a: int, b: int)
    by (nonlinear_arith)
    requires
        0 <= a,
        0 <= b,
        a * a <= b * b,
    ensures
        a <= b,
{
}

/// Scaling a component `a` of a vector of magnitude at most `s` onto a
/// radius `m` keeps the component within `[0, m]`.
pub proof fn lemma_div_mul_le(a: int, m: int, s: int)
    requires
        0 <= a <= s,
        0 <= m,
        1 <= s,
    ensures
        0 <= (a * m) / s <= m,
{
    assert(0 <= a * m <= s * m) by (nonlinear_arith)
        requires
            0 <= a <= s,
            0 <= m,
    ;
    lemma_div_is_ordered(0, a * m, s);
    lemma_div_is_ordered(a * m, s * m, s);
    lemma_div_multiples_vanish(m, s);
    assert(s * m == m * s) by (nonlinear_arith);
}

/// Squaring keeps order on nonnegative values.
proof fn lemma_mul_sq_le(u: int, v: int)
    by (nonlinear_arith)
    requires
        0 <= u <= v,
    ensures
        u * u <= v * v,
{
}

/// The heart of the speed clamp: rescaling the components `(ax, ay)` of a
/// vector whose squared magnitude is at most `s * s` by the ratio `m / s`
/// (in floor division) yields a vector of squared magnitude at most
/// `m * m`.
pub proof fn lemma_clamp_norm_bound(ax: int, ay: int, m: int, s: int)
    requires
        0 <= ax,
        0 <= ay,
        0 <= m,
        1 <= s,
        ax * ax + ay * ay <= s * s,
    ensures
        ((ax * m) / s) * ((ax * m) / s) + ((ay * m) / s) * ((ay * m) / s) <= m * m,
{
    let tx = (ax * m) / s;
    let ty = (ay * m) / s;
    assert(0 <= ax * m && 0 <= ay * m) by (nonlinear_arith)
        requires
            0 <= ax,
            0 <= ay,
            0 <= m,
    ;
    lemma_fundamental_div_mod(ax * m, s);
    lemma_mod_bound(ax * m, s);
    lemma_div_is_ordered(0, ax * m, s);
    assert(s * tx <= ax * m && 0 <= tx);
    lemma_fundamental_div_mod(ay * m, s);
    lemma_mod_bound(ay * m, s);
    lemma_div_is_ordered(0, ay * m, s);
    assert(s * ty <= ay * m && 0 <= ty);
    assert(0 <= s * tx && 0 <= s * ty) by (nonlinear_arith)
        requires
            0 <= tx,
            0 <= ty,
            1 <= s,
    ;
    lemma_mul_sq_le(s * tx, ax * m);
    lemma_mul_sq_le(s * ty, ay * m);
    assert(tx * tx * (s * s) == (s * tx) * (s * tx)) by (nonlinear_arith);
    assert(ty * ty * (s * s) == (s * ty) * (s * ty)) by (nonlinear_arith);
    assert((ax * ax) * (m * m) == (ax * m) * (ax * m)) by (nonlinear_arith);
    assert((ay * ay) * (m * m) == (ay * m) * (ay * m)) by (nonlinear_arith);
    assert(tx * tx * (s * s) <= (ax * ax) * (m * m));
    assert(ty * ty * (s * s) <= (ay * ay) * (m * m));
    assert((tx * tx + ty * ty) * (s * s) <= (s * s) * (m * m)) by (nonlinear_arith)
        requires
            tx * tx * (s * s) <= (ax * ax) * (m * m),
            ty * ty * (s * s) <= (ay * ay) * (m * m),
            ax * ax + ay * ay <= s * s,
            0 <= m,
    ;
    assert(tx * tx + ty * ty <= m * m) by (nonlinear_arith)
        requires
            (tx * tx + ty * ty) * (s * s) <= (s * s) * (m * m),
            1 <= s,
    ;
}

} // verus!
