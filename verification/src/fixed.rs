//! Saturating fixed-point scalar arithmetic.
//!
//! A scalar is an `i64` counting units of `1 / FX_SCALE`. Every operation
//! clips its result into `[-FX_LIMIT, FX_LIMIT]`, so the arithmetic is total:
//! no operation overflows or panics, and negation is always exact on
//! in-range values. Division by zero yields zero, which downstream code
//! uses to turn degenerate geometry into a no-op.

use vstd::prelude::*;

verus! {

/// Number of raw units in one world unit.
pub const FX_SCALE: i64 = 1000;

/// Largest magnitude a scalar may take (2^40 raw units).
pub const FX_LIMIT: i64 = 1099511627776;

/// A scalar is in range when its magnitude is at most `FX_LIMIT`.
pub open spec fn fx_in_range(x: int) -> bool {
    -FX_LIMIT <= x <= FX_LIMIT
}

/// Clipping into `[-FX_LIMIT, FX_LIMIT]`.
pub open spec fn fx_clip_s(x: int) -> int {
    if x > FX_LIMIT {
        FX_LIMIT as int
    } else if x < -FX_LIMIT {
        -FX_LIMIT
    } else {
        x
    }
}

/// Division truncating toward zero, as the machine divides; `0` when `b == 0`.
pub open spec fn div_trunc(a: int, b: int) -> int {
    if b == 0 {
        0
    } else if (a >= 0) == (b > 0) {
        abs_s(a) / abs_s(b)
    } else {
        -(abs_s(a) / abs_s(b))
    }
}

/// Magnitude of an integer.
pub open spec fn abs_s(a: int) -> int {
    if a >= 0 {
        a
    } else {
        -a
    }
}

/// Saturating sum.
pub open spec fn fx_add_s(a: int, b: int) -> int {
    fx_clip_s(a + b)
}

/// Saturating difference.
pub open spec fn fx_sub_s(a: int, b: int) -> int {
    fx_clip_s(a - b)
}

/// Saturating negation.
pub open spec fn fx_neg_s(a: int) -> int {
    fx_clip_s(-a)
}

/// Saturating fixed-point product: `a * b` rescaled by `FX_SCALE`.
pub open spec fn fx_mul_s(a: int, b: int) -> int {
    fx_clip_s(div_trunc(a * b, FX_SCALE as int))
}

/// Saturating fixed-point quotient: `a / b` rescaled by `FX_SCALE`; `0` when `b == 0`.
pub open spec fn fx_div_s(a: int, b: int) -> int {
    if b == 0 {
        0
    } else {
        fx_clip_s(div_trunc(a * FX_SCALE, b))
    }
}

/// Integer square root, floor of the real square root.
pub open spec fn isqrt_s(n: nat) -> nat
    decreases n,
{
    if n < 2 {
        n
    } else {
        let s = 2 * isqrt_s(n / 4);
        if (s + 1) * (s + 1) <= n {
            s + 1
        } else {
            s
        }
    }
}

/// Fixed-point square root: the root of a value `a / FX_SCALE` is
/// `isqrt(a * FX_SCALE) / FX_SCALE`. Nonpositive inputs yield zero.
pub open spec fn fx_sqrt_s(a: int) -> int {
    if a <= 0 {
        0
    } else {
        fx_clip_s(isqrt_s((a * FX_SCALE) as nat) as int)
    }
}

/// Bounds on a product from bounds on its factors.
pub proof fn lemma_mul_bounds(x: int, y: int, m: int, n: int)
    requires
        abs_s(x) <= m,
        abs_s(y) <= n,
    ensures
        -(m * n) <= x * y <= m * n,
{
    assert(-(m * n) <= x * y <= m * n) by (nonlinear_arith)
        requires
            -m <= x <= m,
            -n <= y <= n,
    ;
}

/// A quotient bounded through its numerator: if `0 <= num <= bound * den`
/// then `num / den <= bound`.
pub proof fn lemma_div_le(num: int, den: int, bound: int)
    requires
        0 <= num,
        0 < den,
        num <= bound * den,
    ensures
        0 <= num / den <= bound,
{
    vstd::arithmetic::div_mod::lemma_fundamental_div_mod(num, den);
    vstd::arithmetic::div_mod::lemma_mod_bound(num, den);
    let q = num / den;
    let r = num % den;
    assert(0 <= q && q <= bound) by (nonlinear_arith)
        requires
            num == den * q + r,
            0 <= r < den,
            num <= bound * den,
            0 <= num,
            0 < den,
    ;
}

/// `isqrt_s(n)` is the floor of the real square root of `n`.
pub proof fn lemma_isqrt_bounds(n: nat)
    ensures
        isqrt_s(n) * isqrt_s(n) <= n,
        n < (isqrt_s(n) + 1) * (isqrt_s(n) + 1),
    decreases n,
{
    if n < 2 {
        assert(isqrt_s(n) == n);
        assert(n * n <= n && n < (n + 1) * (n + 1)) by (nonlinear_arith)
            requires
                0 <= n < 2,
        ;
    } else {
        let q = n / 4;
        lemma_isqrt_bounds(q);
        let r = isqrt_s(q);
        let s = 2 * r;
        assert(n == 4 * q + n % 4) by {
            vstd::arithmetic::div_mod::lemma_fundamental_div_mod(n as int, 4);
        };
        assert(s * s <= n) by (nonlinear_arith)
            requires
                r * r <= q,
                s == 2 * r,
                4 * q <= n,
        ;
        assert(n < (s + 2) * (s + 2)) by (nonlinear_arith)
            requires
                q < (r + 1) * (r + 1),
                s == 2 * r,
                n < 4 * q + 4,
        ;
        if (s + 1) * (s + 1) <= n {
            assert(isqrt_s(n) == s + 1);
            assert(n < (isqrt_s(n) + 1) * (isqrt_s(n) + 1)) by (nonlinear_arith)
                requires
                    isqrt_s(n) == s + 1,
                    n < (s + 2) * (s + 2),
            ;
        } else {
            assert(isqrt_s(n) == s);
        }
    }
}

/// The floor square root is the only value meeting its two bounds.
pub proof fn lemma_isqrt_unique(n: nat, r: nat)
    requires
        r * r <= n,
        n < (r + 1) * (r + 1),
    ensures
        r == isqrt_s(n),
{
    lemma_isqrt_bounds(n);
    let s = isqrt_s(n);
    if r < s {
        assert((r + 1) * (r + 1) <= s * s) by (nonlinear_arith)
            requires
                r + 1 <= s,
        ;
    }
    if s < r {
        assert((s + 1) * (s + 1) <= r * r) by (nonlinear_arith)
            requires
                s + 1 <= r,
        ;
    }
}

/// Integer square root by bisection.
pub fn isqrt_u128(x: u128) -> (r: u128)
    ensures
        r == isqrt_s(x as nat),
{
    let mut lo: u128 = 0;
    let mut hi: u128 = 18446744073709551616;
    proof {
        assert((x as nat) < (hi as nat) * (hi as nat)) by (nonlinear_arith)
            requires
                x <= 0xffffffffffffffffffffffffffffffff,
                hi == 18446744073709551616,
        ;
    }
    while lo + 1 < hi
        invariant
            lo < hi,
            hi <= 18446744073709551616,
            (lo as nat) * (lo as nat) <= x as nat,
            (x as nat) < (hi as nat) * (hi as nat),
        decreases hi - lo,
    {
        let mid = lo + (hi - lo) / 2;
        proof {
            assert((mid as nat) * (mid as nat) < 0xffffffffffffffffffffffffffffffff)
                by (nonlinear_arith)
                requires
                    mid < 18446744073709551616,
            ;
        }
        let sq = mid * mid;
        if sq <= x {
            lo = mid;
        } else {
            hi = mid;
        }
    }
    proof {
        lemma_isqrt_unique(x as nat, lo as nat);
    }
    lo
}

/// Fixed-point square root; zero on nonpositive input.
pub fn fx_sqrt(a: i64) -> (r: i64)
    ensures
        r == fx_sqrt_s(a as int),
{
    if a <= 0 {
        0
    } else {
        proof {
            assert((a as nat) * (FX_SCALE as nat) <= 0x2000000000000000000)
                by (nonlinear_arith)
                requires
                    0 <= a as nat <= 0x7fffffffffffffff,
                    FX_SCALE == 1000,
            ;
        }
        let p: u128 = (a as u128) * (FX_SCALE as u128);
        let s = isqrt_u128(p);
        proof {
            lemma_isqrt_bounds(p as nat);
            assert(s <= p) by (nonlinear_arith)
                requires
                    (s as nat) * (s as nat) <= p as nat,
            ;
        }
        fx_clip(s as i128)
    }
}

/// Clips an intermediate value into the representable range.
pub fn fx_clip(x: i128) -> (r: i64)
    ensures
        r == fx_clip_s(x as int),
        fx_in_range(r as int),
{
    if x > FX_LIMIT as i128 {
        FX_LIMIT
    } else if x < -(FX_LIMIT as i128) {
        -FX_LIMIT
    } else {
        x as i64
    }
}

/// Truncating division of machine-size intermediates; requires a nonzero
/// divisor and excludes the one operand whose negation would overflow.
pub(crate) fn div_trunc_i128(a: i128, b: i128) -> (r: i128)
    requires
        b != 0,
        a != i128::MIN,
        b != i128::MIN,
    ensures
        r == div_trunc(a as int, b as int),
{
    let am: u128 = if a >= 0 {
        a as u128
    } else {
        (-a) as u128
    };
    let bm: u128 = if b >= 0 {
        b as u128
    } else {
        (-b) as u128
    };
    let q: u128 = am / bm;
    assert(am as int == abs_s(a as int) && bm as int == abs_s(b as int));
    assert(q <= am);
    if (a >= 0) == (b > 0) {
        q as i128
    } else {
        -(q as i128)
    }
}

/// Saturating sum.
pub fn fx_add(a: i64, b: i64) -> (r: i64)
    ensures
        r == fx_add_s(a as int, b as int),
{
    fx_clip(a as i128 + b as i128)
}

/// Saturating difference.
pub fn fx_sub(a: i64, b: i64) -> (r: i64)
    ensures
        r == fx_sub_s(a as int, b as int),
{
    fx_clip(a as i128 - b as i128)
}

/// Saturating negation.
pub fn fx_neg(a: i64) -> (r: i64)
    ensures
        r == fx_neg_s(a as int),
{
    fx_clip(-(a as i128))
}

/// Saturating fixed-point product.
pub fn fx_mul(a: i64, b: i64) -> (r: i64)
    ensures
        r == fx_mul_s(a as int, b as int),
{
    proof {
        assert(-0x40000000000000000000000000000000 <= (a as int) * (b as int)
            <= 0x40000000000000000000000000000000) by (nonlinear_arith)
            requires
                -0x8000000000000000 <= a as int <= 0x7fffffffffffffff,
                -0x8000000000000000 <= b as int <= 0x7fffffffffffffff,
        ;
    }
    let p: i128 = a as i128 * b as i128;
    let q = div_trunc_i128(p, FX_SCALE as i128);
    fx_clip(q)
}

/// Saturating fixed-point quotient; zero when the divisor is zero.
pub fn fx_div(a: i64, b: i64) -> (r: i64)
    ensures
        r == fx_div_s(a as int, b as int),
{
    if b == 0 {
        0
    } else {
        proof {
            assert(-0x40000000000000000000000000000000 <= (a as int) * (FX_SCALE as int)
                <= 0x40000000000000000000000000000000) by (nonlinear_arith)
                requires
                    -0x8000000000000000 <= a as int <= 0x7fffffffffffffff,
            ;
        }
        let p: i128 = a as i128 * FX_SCALE as i128;
        let q = div_trunc_i128(p, b as i128);
        fx_clip(q)
    }
}

} // verus!
