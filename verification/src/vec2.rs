//! Two-dimensional fixed-point vectors.

use vstd::prelude::*;
use crate::fixed::{
    FX_SCALE, fx_in_range, fx_clip_s, div_trunc, fx_add_s, fx_sub_s, fx_neg_s, fx_mul_s,
    fx_div_s, isqrt_s, fx_clip, fx_add, fx_sub, fx_neg, fx_mul, fx_div, isqrt_u128,
    lemma_isqrt_bounds, lemma_isqrt_unique,
};

verus! {

#[derive(Clone, Copy, Debug, PartialEq, Eq, Structural)]
pub struct Vec2 {
    pub x: i64,
    pub y: i64,
}

pub open spec fn v_in_range(v: Vec2) -> bool {
    fx_in_range(v.x as int) && fx_in_range(v.y as int)
}

pub open spec fn v_zero() -> Vec2 {
    Vec2 { x: 0, y: 0 }
}

pub open spec fn v_add_s(a: Vec2, b: Vec2) -> Vec2 {
    Vec2 { x: fx_add_s(a.x as int, b.x as int) as i64, y: fx_add_s(a.y as int, b.y as int) as i64 }
}

pub open spec fn v_sub_s(a: Vec2, b: Vec2) -> Vec2 {
    Vec2 { x: fx_sub_s(a.x as int, b.x as int) as i64, y: fx_sub_s(a.y as int, b.y as int) as i64 }
}

pub open spec fn v_neg_s(a: Vec2) -> Vec2 {
    Vec2 { x: fx_neg_s(a.x as int) as i64, y: fx_neg_s(a.y as int) as i64 }
}

/// Componentwise scaling by a fixed-point scalar.
pub open spec fn v_scale_s(a: Vec2, k: int) -> Vec2 {
    Vec2 { x: fx_mul_s(a.x as int, k) as i64, y: fx_mul_s(a.y as int, k) as i64 }
}

/// Componentwise division by a fixed-point scalar; zero divisor yields zero.
pub open spec fn v_div_scalar_s(a: Vec2, k: int) -> Vec2 {
    Vec2 { x: fx_div_s(a.x as int, k) as i64, y: fx_div_s(a.y as int, k) as i64 }
}

/// Fixed-point dot product.
pub open spec fn v_dot_s(a: Vec2, b: Vec2) -> int {
    fx_add_s(fx_mul_s(a.x as int, b.x as int), fx_mul_s(a.y as int, b.y as int))
}

/// Squared length in raw units; exact, not rescaled.
pub open spec fn v_norm_sq_raw(a: Vec2) -> int {
    a.x * a.x + a.y * a.y
}

/// Fixed-point length: the floor square root of the raw squared length.
pub open spec fn v_norm_s(a: Vec2) -> int {
    fx_clip_s(isqrt_s(v_norm_sq_raw(a) as nat) as int)
}

/// Unit vector scaled by `FX_SCALE`; the zero vector stays zero.
pub open spec fn v_normalize_s(a: Vec2) -> Vec2 {
    let n = v_norm_s(a);
    if n == 0 {
        v_zero()
    } else {
        Vec2 {
            x: fx_clip_s(div_trunc(a.x * FX_SCALE, n)) as i64,
            y: fx_clip_s(div_trunc(a.y * FX_SCALE, n)) as i64,
        }
    }
}

pub fn v_add(a: Vec2, b: Vec2) -> (r: Vec2)
    ensures
        r == v_add_s(a, b),
        v_in_range(r),
{
    Vec2 { x: fx_add(a.x, b.x), y: fx_add(a.y, b.y) }
}

pub fn v_sub(a: Vec2, b: Vec2) -> (r: Vec2)
    ensures
        r == v_sub_s(a, b),
        v_in_range(r),
{
    Vec2 { x: fx_sub(a.x, b.x), y: fx_sub(a.y, b.y) }
}

pub fn v_neg(a: Vec2) -> (r: Vec2)
    ensures
        r == v_neg_s(a),
        v_in_range(r),
{
    Vec2 { x: fx_neg(a.x), y: fx_neg(a.y) }
}

pub fn v_scale(a: Vec2, k: i64) -> (r: Vec2)
    ensures
        r == v_scale_s(a, k as int),
        v_in_range(r),
{
    Vec2 { x: fx_mul(a.x, k), y: fx_mul(a.y, k) }
}

pub fn v_div_scalar(a: Vec2, k: i64) -> (r: Vec2)
    ensures
        r == v_div_scalar_s(a, k as int),
        v_in_range(r),
{
    Vec2 { x: fx_div(a.x, k), y: fx_div(a.y, k) }
}

pub fn v_dot(a: Vec2, b: Vec2) -> (r: i64)
    ensures
        r == v_dot_s(a, b),
        fx_in_range(r as int),
{
    fx_add(fx_mul(a.x, b.x), fx_mul(a.y, b.y))
}

pub fn v_norm(a: Vec2) -> (r: i64)
    ensures
        r == v_norm_s(a),
        fx_in_range(r as int),
        r >= 0,
{
    proof {
        assert((a.x as int) * (a.x as int) >= 0 && (a.y as int) * (a.y as int) >= 0
            && (a.x as int) * (a.x as int) <= 0x40000000000000000000000000000000
            && (a.y as int) * (a.y as int) <= 0x40000000000000000000000000000000)
            by (nonlinear_arith)
            requires
                -0x8000000000000000 <= a.x as int <= 0x7fffffffffffffff,
                -0x8000000000000000 <= a.y as int <= 0x7fffffffffffffff,
        ;
    }
    let xx: i128 = a.x as i128 * a.x as i128;
    let yy: i128 = a.y as i128 * a.y as i128;
    let s: u128 = (xx as u128) + (yy as u128);
    let n = isqrt_u128(s);
    proof {
        lemma_isqrt_bounds(s as nat);
        assert(n < 18446744073709551616) by (nonlinear_arith)
            requires
                (n as nat) * (n as nat) <= s as nat,
                s <= 0xffffffffffffffffffffffffffffffff,
        ;
        assert(isqrt_s(s as nat) >= 0);
    }
    fx_clip(n as i128)
}

pub fn v_normalize(a: Vec2) -> (r: Vec2)
    ensures
        r == v_normalize_s(a),
        v_in_range(r),
{
    let n = v_norm(a);
    if n == 0 {
        Vec2 { x: 0, y: 0 }
    } else {
        proof {
            assert(-0x2000000000000000000 <= (a.x as int) * (FX_SCALE as int)
                <= 0x2000000000000000000
                && -0x2000000000000000000 <= (a.y as int) * (FX_SCALE as int)
                <= 0x2000000000000000000) by (nonlinear_arith)
                requires
                    -0x8000000000000000 <= a.x as int <= 0x7fffffffffffffff,
                    -0x8000000000000000 <= a.y as int <= 0x7fffffffffffffff,
                    FX_SCALE == 1000,
            ;
        }
        let px: i128 = a.x as i128 * FX_SCALE as i128;
        let py: i128 = a.y as i128 * FX_SCALE as i128;
        let ux = fx_clip(crate::fixed::div_trunc_i128(px, n as i128));
        let uy = fx_clip(crate::fixed::div_trunc_i128(py, n as i128));
        Vec2 { x: ux, y: uy }
    }
}

} // verus!
