//! Two-component fixed-point vectors, and the magnitude clamp that ties a
//! velocity to a maximum speed.

use vstd::prelude::*;

verus! {

use crate::fixed::abs_i64;
use crate::fixed::div_to_zero;
use crate::fixed::lemma_clamp_norm_bound;
use crate::fixed::lemma_div_mul_le;
use crate::fixed::lemma_sq_le;
use crate::fixed::sqrt_ceil;
use crate::fixed::sqrt_ceil_u128;

/// A fixed-point 2D vector; used for both positions and velocities.
#[derive(Clone, Copy, Debug, PartialEq, Eq, Structural)]
pub struct Vec2 {
    pub x: i64,
    pub y: i64,
}

impl Vec2 {
    /// The zero vector.
    pub fn zero() -> (v: Vec2)
        ensures
            v.x == 0,
            v.y == 0,
    {
        Vec2 { x: 0, y: 0 }
    }
}

/// Squared magnitude of the vector `(x, y)`.
pub open spec fn norm_sq(x: int, y: int) -> int {
    x * x + y * y
}

/// The x component of `(x, y)` clamped to magnitude at most `m`: left
/// alone below the limit, otherwise rescaled by `m` over the (ceiling)
/// square root of the squared magnitude, rounding towards zero.
pub open spec fn clamped_x(x: int, y: int, m: int) -> int {
    if norm_sq(x, y) <= m * m {
        x
    } else {
        div_to_zero(x * m, sqrt_ceil(norm_sq(x, y)))
    }
}

/// The y component of `(x, y)` clamped to magnitude at most `m`.
pub open spec fn clamped_y(x: int, y: int, m: int) -> int {
    if norm_sq(x, y) <= m * m {
        y
    } else {
        div_to_zero(y * m, sqrt_ceil(norm_sq(x, y)))
    }
}

/// A vector of squared magnitude at most `m * m` has both components in
/// `[-m, m]`.
pub proof fn lemma_norm_component_bound(x: int, y: int, m: int)
    requires
        norm_sq(x, y) <= m * m,
        0 <= m,
    ensures
        -m <= x <= m,
        -m <= y <= m,
{
    assert(0 <= x * x && 0 <= y * y) by (nonlinear_arith);
    if x >= 0 {
        lemma_sq_le(x, m);
    } else {
        assert((-x) * (-x) == x * x) by (nonlinear_arith);
        lemma_sq_le(-x, m);
    }
    if y >= 0 {
        lemma_sq_le(y, m);
    } else {
        assert((-y) * (-y) == y * y) by (nonlinear_arith);
        lemma_sq_le(-y, m);
    }
}

/// Clamp `v` to magnitude at most `m`: the result is `v` itself when `v`
/// is already no faster, and otherwise `v` rescaled onto the circle of
/// radius `m`; either way its squared magnitude stays within `m * m`.
pub fn clamp_norm(v: Vec2, m: i64) -> (r: Vec2)
    requires
        0 <= m,
    ensures
        r.x == clamped_x(v.x as int, v.y as int, m as int),
        r.y == clamped_y(v.x as int, v.y as int, m as int),
        norm_sq(r.x as int, r.y as int) <= m * m,
{
    let ax: u64 = abs_i64(v.x);
    let ay: u64 = abs_i64(v.y);
    assert((ax as u128) * (ax as u128) <= 0x8000_0000_0000_0000u128 * 0x8000_0000_0000_0000u128)
        by (nonlinear_arith)
        requires
            ax as u128 <= 0x8000_0000_0000_0000u128,
    ;
    assert((ay as u128) * (ay as u128) <= 0x8000_0000_0000_0000u128 * 0x8000_0000_0000_0000u128)
        by (nonlinear_arith)
        requires
            ay as u128 <= 0x8000_0000_0000_0000u128,
    ;
    let s2: u128 = (ax as u128) * (ax as u128) + (ay as u128) * (ay as u128);
    assert((ax as int) * (ax as int) == (v.x as int) * (v.x as int)) by (nonlinear_arith)
        requires
            ax as int == v.x as int || ax as int == -(v.x as int),
    ;
    assert((ay as int) * (ay as int) == (v.y as int) * (v.y as int)) by (nonlinear_arith)
        requires
            ay as int == v.y as int || ay as int == -(v.y as int),
    ;
    assert(s2 as int == norm_sq(v.x as int, v.y as int));
    assert((m as u128) * (m as u128) <= 0x8000_0000_0000_0000u128 * 0x8000_0000_0000_0000u128)
        by (nonlinear_arith)
        requires
            m as u128 <= 0x8000_0000_0000_0000u128,
    ;
    let msq: u128 = (m as u128) * (m as u128);
    if s2 <= msq {
        return v;
    }
    let s: u128 = sqrt_ceil_u128(s2);
    proof {
        if s == 0 {
            assert(false);
        }
        assert(0 <= (ay as int) * (ay as int) && 0 <= (ax as int) * (ax as int))
            by (nonlinear_arith);
        lemma_sq_le(ax as int, s as int);
        lemma_sq_le(ay as int, s as int);
    }
    assert((ax as u128) * (m as u128) <= 0x8000_0000_0000_0000u128 * 0x8000_0000_0000_0000u128)
        by (nonlinear_arith)
        requires
            ax as u128 <= 0x8000_0000_0000_0000u128,
            m as u128 <= 0x8000_0000_0000_0000u128,
    ;
    assert((ay as u128) * (m as u128) <= 0x8000_0000_0000_0000u128 * 0x8000_0000_0000_0000u128)
        by (nonlinear_arith)
        requires
            ay as u128 <= 0x8000_0000_0000_0000u128,
            m as u128 <= 0x8000_0000_0000_0000u128,
    ;
    proof {
        lemma_div_mul_le(ax as int, m as int, s as int);
        lemma_div_mul_le(ay as int, m as int, s as int);
    }
    let tx: u128 = (ax as u128) * (m as u128) / s;
    let ty: u128 = (ay as u128) * (m as u128) / s;
    let rx: i64 = if v.x < 0 {
        -(tx as i64)
    } else {
        tx as i64
    };
    let ry: i64 = if v.y < 0 {
        -(ty as i64)
    } else {
        ty as i64
    };
    proof {
        let xi = v.x as int;
        let yi = v.y as int;
        let mi = m as int;
        let si = s as int;
        assert(si == sqrt_ceil(norm_sq(xi, yi)));
        if xi >= 0 {
            assert(xi * mi >= 0) by (nonlinear_arith)
                requires
                    xi >= 0,
                    mi >= 0,
            ;
            assert(rx as int == div_to_zero(xi * mi, si));
        } else {
            assert(xi * mi <= 0 && (ax as int) * mi == -(xi * mi)) by (nonlinear_arith)
                requires
                    xi < 0,
                    mi >= 0,
                    ax as int == -xi,
            ;
            assert(rx as int == div_to_zero(xi * mi, si));
        }
        if yi >= 0 {
            assert(yi * mi >= 0) by (nonlinear_arith)
                requires
                    yi >= 0,
                    mi >= 0,
            ;
            assert(ry as int == div_to_zero(yi * mi, si));
        } else {
            assert(yi * mi <= 0 && (ay as int) * mi == -(yi * mi)) by (nonlinear_arith)
                requires
                    yi < 0,
                    mi >= 0,
                    ay as int == -yi,
            ;
            assert(ry as int == div_to_zero(yi * mi, si));
        }
        lemma_clamp_norm_bound(ax as int, ay as int, mi, si);
        assert((rx as int) * (rx as int) == (tx as int) * (tx as int)) by (nonlinear_arith)
            requires
                rx as int == tx as int || rx as int == -(tx as int),
        ;
        assert((ry as int) * (ry as int) == (ty as int) * (ty as int)) by (nonlinear_arith)
            requires
                ry as int == ty as int || ry as int == -(ty as int),
        ;
    }
    Vec2 { x: rx, y: ry }
}

} // verus!
