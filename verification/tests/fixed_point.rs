use spring::fixed::{
    fx_add, fx_div, fx_mul, fx_neg, fx_sqrt, fx_sub, isqrt_u128, FX_LIMIT, FX_SCALE,
};
use spring::vec2::{v_add, v_dot, v_norm, v_normalize, v_scale, v_sub, Vec2};

#[test]
fn scale_is_a_thousand() {
    assert_eq!(FX_SCALE, 1000);
}

#[test]
fn addition_and_subtraction_are_exact_in_range() {
    assert_eq!(fx_add(1500, 250), 1750);
    assert_eq!(fx_sub(1500, 250), 1250);
    assert_eq!(fx_add(-1500, 250), -1250);
}

#[test]
fn addition_saturates_at_the_limit() {
    assert_eq!(fx_add(FX_LIMIT, FX_LIMIT), FX_LIMIT);
    assert_eq!(fx_sub(-FX_LIMIT, FX_LIMIT), -FX_LIMIT);
    assert_eq!(fx_neg(-FX_LIMIT), FX_LIMIT);
}

#[test]
fn multiplication_rescales() {
    // 1.5 * 2 = 3
    assert_eq!(fx_mul(1500, 2000), 3000);
    // -1.5 * 2 = -3
    assert_eq!(fx_mul(-1500, 2000), -3000);
}

#[test]
fn multiplication_truncates_toward_zero() {
    // -0.001 * 0.01 = -0.00001, which truncates to zero, not down to -0.001
    assert_eq!(fx_mul(-1, 10), 0);
    assert_eq!(fx_mul(1, 10), 0);
}

#[test]
fn division_rescales_and_guards_zero() {
    // 7 / 2 = 3.5
    assert_eq!(fx_div(7000, 2000), 3500);
    assert_eq!(fx_div(-7000, 2000), -3500);
    // a zero divisor yields zero rather than failing
    assert_eq!(fx_div(7000, 0), 0);
}

#[test]
fn square_roots_are_floors() {
    assert_eq!(isqrt_u128(0), 0);
    assert_eq!(isqrt_u128(1), 1);
    assert_eq!(isqrt_u128(24), 4);
    assert_eq!(isqrt_u128(25), 5);
    assert_eq!(isqrt_u128(26), 5);
    assert_eq!(isqrt_u128(u128::MAX), (1u128 << 64) - 1);
}

#[test]
fn fixed_sqrt_matches_known_squares() {
    // sqrt(4) = 2
    assert_eq!(fx_sqrt(4000), 2000);
    // sqrt(2.25) = 1.5
    assert_eq!(fx_sqrt(2250), 1500);
    // nonpositive input is a guarded zero
    assert_eq!(fx_sqrt(0), 0);
    assert_eq!(fx_sqrt(-4000), 0);
}

#[test]
fn vector_algebra_matches_components() {
    let a = Vec2 { x: 3000, y: -2000 };
    let b = Vec2 { x: 1000, y: 500 };
    assert_eq!(v_add(a, b), Vec2 { x: 4000, y: -1500 });
    assert_eq!(v_sub(a, b), Vec2 { x: 2000, y: -2500 });
    assert_eq!(v_scale(a, 2000), Vec2 { x: 6000, y: -4000 });
    // (3)(1) + (-2)(0.5) = 2
    assert_eq!(v_dot(a, b), 2000);
}

#[test]
fn norm_of_a_pythagorean_triple() {
    assert_eq!(v_norm(Vec2 { x: 3000, y: 4000 }), 5000);
    assert_eq!(v_norm(Vec2 { x: 0, y: 0 }), 0);
}

#[test]
fn normalize_yields_a_scaled_unit_vector() {
    let u = v_normalize(Vec2 { x: 3000, y: 4000 });
    assert_eq!(u, Vec2 { x: 600, y: 800 });
    // the zero vector stays zero instead of dividing by zero
    assert_eq!(v_normalize(Vec2 { x: 0, y: 0 }), Vec2 { x: 0, y: 0 });
}
