use raymarch::fixed::{floor_div, isqrt_u128, saturate_i128, Fixed, LIMIT, SCALE};
use raymarch::helpers::{
    dot_product, hypot, mat_dir_mul, mat_dir_mul3, mat_identity, mat_scale, mat_vec_mul, max_f64,
    min_f64, mix, reflect, round, vec3_dot, vec3_len, vec3_normalized, vec3_square_len, vec4_dot,
    vec_add, vec_clamp, vec_f_max, vec_interpolate, vec_max, vec_scale,
};

fn fx(v: f64) -> Fixed {
    Fixed::from_raw((v * SCALE as f64).round() as i64)
}

fn v3(x: f64, y: f64, z: f64) -> [Fixed; 3] {
    [fx(x), fx(y), fx(z)]
}

fn raws(v: [Fixed; 3]) -> [i64; 3] {
    [v[0].raw(), v[1].raw(), v[2].raw()]
}

#[test]
fn construction_pins_to_the_range() {
    assert_eq!(Fixed::from_raw(5).raw(), 5);
    assert_eq!(Fixed::from_raw(i64::MAX).raw(), LIMIT);
    assert_eq!(Fixed::from_raw(i64::MIN).raw(), -LIMIT);
    assert_eq!(Fixed::from_int(3).raw(), 3 * SCALE);
    assert_eq!(Fixed::from_int(-7).raw(), -7 * SCALE);
    assert_eq!(Fixed::from_int(i64::MAX).raw(), LIMIT);
    assert_eq!(Fixed::zero().raw(), 0);
    assert_eq!(Fixed::one().raw(), SCALE);
    assert_eq!(Fixed::infinity().raw(), LIMIT);
}

#[test]
fn sums_saturate() {
    assert_eq!(fx(1.5).add(fx(2.25)).raw(), 3_750_000_000);
    assert_eq!(fx(1.5).sub(fx(2.25)).raw(), -750_000_000);
    assert_eq!(Fixed::infinity().add(fx(1.0)).raw(), LIMIT);
    assert_eq!(Fixed::infinity().neg().sub(fx(1.0)).raw(), -LIMIT);
    assert_eq!(fx(2.0).neg().raw(), -2 * SCALE);
    assert_eq!(fx(-2.0).abs().raw(), 2 * SCALE);
    assert_eq!(fx(2.0).abs().raw(), 2 * SCALE);
}

#[test]
fn products_round_down() {
    assert_eq!(fx(1.5).mul(fx(2.0)).raw(), 3 * SCALE);
    assert_eq!(fx(-1.5).mul(fx(2.0)).raw(), -3 * SCALE);
    // one billionth squared is below a billionth: zero from above, minus one unit from below
    assert_eq!(Fixed::from_raw(1).mul(Fixed::from_raw(1)).raw(), 0);
    assert_eq!(Fixed::from_raw(-1).mul(Fixed::from_raw(1)).raw(), -1);
    assert_eq!(Fixed::from_raw(3).mul(fx(0.5)).raw(), 1);
    assert_eq!(Fixed::from_raw(-3).mul(fx(0.5)).raw(), -2);
    assert_eq!(Fixed::infinity().mul(fx(2.0)).raw(), LIMIT);
    assert_eq!(Fixed::infinity().mul(fx(-2.0)).raw(), -LIMIT);
}

#[test]
fn quotients_round_down_and_never_fail() {
    assert_eq!(fx(3.0).div(fx(2.0)).raw(), 1_500_000_000);
    assert_eq!(fx(1.0).div(fx(3.0)).raw(), 333_333_333);
    assert_eq!(fx(-1.0).div(fx(3.0)).raw(), -333_333_334);
    assert_eq!(fx(1.0).div(fx(-3.0)).raw(), -333_333_334);
    assert_eq!(fx(-1.0).div(fx(-3.0)).raw(), 333_333_333);
    assert_eq!(fx(1.0).div(fx(0.0)).raw(), LIMIT);
    assert_eq!(fx(-1.0).div(fx(0.0)).raw(), -LIMIT);
    assert_eq!(fx(0.0).div(fx(0.0)).raw(), 0);
    assert_eq!(Fixed::infinity().div(Fixed::from_raw(1)).raw(), LIMIT);
}

#[test]
fn remainder_has_the_sign_of_the_dividend() {
    assert_eq!(fx(5.5).rem(fx(2.0)).raw(), 1_500_000_000);
    assert_eq!(fx(-5.5).rem(fx(2.0)).raw(), -1_500_000_000);
    assert_eq!(fx(5.5).rem(fx(-2.0)).raw(), 1_500_000_000);
    assert_eq!(fx(4.0).rem(fx(2.0)).raw(), 0);
    assert_eq!(fx(4.0).rem(fx(0.0)).raw(), 0);
    assert_eq!(fx(2.75).trunc().raw(), 2 * SCALE);
    assert_eq!(fx(-2.75).trunc().raw(), -2 * SCALE);
    assert_eq!(round(fx(-2.75)).raw(), -2 * SCALE);
    assert_eq!(round(fx(0.99)).raw(), 0);
}

#[test]
fn square_root_rounds_down() {
    assert_eq!(fx(4.0).sqrt().raw(), 2 * SCALE);
    assert_eq!(fx(2.0).sqrt().raw(), 1_414_213_562);
    assert_eq!(fx(0.25).sqrt().raw(), SCALE / 2);
    assert_eq!(fx(0.0).sqrt().raw(), 0);
    assert_eq!(fx(-4.0).sqrt().raw(), 0);
    assert_eq!(isqrt_u128(0), 0);
    assert_eq!(isqrt_u128(15), 3);
    assert_eq!(isqrt_u128(16), 4);
    assert_eq!(isqrt_u128(u128::MAX), u64::MAX as u128);
    let r = Fixed::infinity().sqrt().raw() as i128;
    assert!(r * r <= LIMIT as i128 * SCALE as i128);
    assert!((r + 1) * (r + 1) > LIMIT as i128 * SCALE as i128);
}

#[test]
fn order_and_bounds() {
    assert!(fx(1.0).lt(fx(2.0)));
    assert!(!fx(2.0).lt(fx(2.0)));
    assert!(fx(2.0).le(fx(2.0)));
    assert!(fx(3.0).gt(fx(2.0)));
    assert!(fx(2.0).ge(fx(2.0)));
    assert!(fx(2.0).same(fx(2.0)));
    assert!(!fx(2.0).same(fx(2.5)));
    assert_eq!(fx(1.0).min(fx(2.0)).raw(), SCALE);
    assert_eq!(fx(1.0).max(fx(2.0)).raw(), 2 * SCALE);
    assert_eq!(min_f64(fx(-1.0), fx(2.0)).raw(), -SCALE);
    assert_eq!(max_f64(fx(-1.0), fx(2.0)).raw(), 2 * SCALE);
    assert_eq!(fx(5.0).clamp(fx(0.0), fx(1.0)).raw(), SCALE);
    assert_eq!(fx(-5.0).clamp(fx(0.0), fx(1.0)).raw(), 0);
    assert_eq!(fx(0.5).clamp(fx(0.0), fx(1.0)).raw(), SCALE / 2);
    // bounds the wrong way round: the lower bound decides
    assert_eq!(fx(0.5).clamp(fx(1.0), fx(0.0)).raw(), SCALE);
}

#[test]
fn wide_helpers() {
    assert_eq!(floor_div(7, 2), 3);
    assert_eq!(floor_div(-7, 2), -4);
    assert_eq!(floor_div(-8, 2), -4);
    assert_eq!(floor_div(0, 5), 0);
    assert_eq!(saturate_i128(i128::MAX), LIMIT);
    assert_eq!(saturate_i128(i128::MIN), -LIMIT);
    assert_eq!(saturate_i128(-12), -12);
}

#[test]
fn blends() {
    assert_eq!(mix(fx(2.0), fx(4.0), fx(0.0)).raw(), 2 * SCALE);
    assert_eq!(mix(fx(2.0), fx(4.0), fx(1.0)).raw(), 4 * SCALE);
    assert_eq!(mix(fx(2.0), fx(4.0), fx(0.25)).raw(), 2_500_000_000);
    assert_eq!(raws(vec_interpolate(v3(0.0, 1.0, 2.0), v3(4.0, 1.0, 0.0), fx(0.5))), [2 * SCALE, SCALE, SCALE]);
}

#[test]
fn vectors_component_by_component() {
    assert_eq!(raws(vec_f_max(v3(-1.0, 0.5, 2.0), fx(0.0))), [0, SCALE / 2, 2 * SCALE]);
    assert_eq!(raws(vec_max(v3(-1.0, 0.5, 2.0), v3(0.0, 0.0, 3.0))), [0, SCALE / 2, 3 * SCALE]);
    assert_eq!(raws(vec_clamp(v3(-1.0, 0.5, 2.0), fx(0.0), fx(1.0))), [0, SCALE / 2, SCALE]);
    assert_eq!(raws(vec_add(v3(1.0, 2.0, 3.0), v3(0.5, -2.0, 1.0))), [1_500_000_000, 0, 4 * SCALE]);
    assert_eq!(raws(vec_scale(v3(1.0, -2.0, 3.0), fx(0.5))), [SCALE / 2, -SCALE, 1_500_000_000]);
}

#[test]
fn lengths_and_products() {
    assert_eq!(vec3_len(v3(3.0, 4.0, 0.0)).raw(), 5 * SCALE);
    assert_eq!(vec3_len(v3(0.0, 0.0, 0.0)).raw(), 0);
    assert_eq!(vec3_len(v3(0.0, -2.5, 0.0)).raw(), 2_500_000_000);
    assert_eq!(vec3_len([Fixed::infinity(), Fixed::infinity(), Fixed::infinity()]).raw(), LIMIT);
    assert_eq!(vec3_square_len(v3(3.0, 4.0, 1.0)).raw(), 26 * SCALE);
    assert_eq!(hypot(fx(-3.0), fx(4.0)).raw(), 5 * SCALE);
    assert_eq!(hypot(fx(0.0), fx(0.0)).raw(), 0);
    assert_eq!(hypot(fx(1.0), fx(1.0)).raw(), 1_414_213_562);
    assert_eq!(vec3_dot(v3(1.0, 2.0, 3.0), v3(4.0, -5.0, 0.5)).raw(), -4_500_000_000);
    assert_eq!(dot_product(v3(1.0, 2.0, 3.0), v3(4.0, -5.0, 0.5)).raw(), -4_500_000_000);
    assert_eq!(vec4_dot([fx(1.0), fx(2.0), fx(3.0), fx(4.0)], [fx(1.0), fx(1.0), fx(1.0), fx(0.5)]).raw(), 8 * SCALE);
    assert_eq!(raws(vec3_normalized(v3(0.0, 3.0, 4.0))), [0, 600_000_000, 800_000_000]);
    assert_eq!(raws(vec3_normalized(v3(0.0, 0.0, 0.0))), [0, 0, 0]);
}

#[test]
fn reflection_mirrors_at_the_normal() {
    assert_eq!(raws(reflect(v3(1.0, -1.0, 0.0), v3(0.0, 1.0, 0.0))), [SCALE, SCALE, 0]);
    assert_eq!(raws(reflect(v3(0.0, 0.0, -1.0), v3(0.0, 0.0, 1.0))), [0, 0, SCALE]);
}

#[test]
fn matrices_carry_points_and_directions() {
    let id = mat_identity();
    assert_eq!(raws(mat_vec_mul(id, v3(1.5, -2.0, 3.0))), [1_500_000_000, -2 * SCALE, 3 * SCALE]);
    let mut m = mat_scale(v3(2.0, 3.0, 4.0));
    m[3][0] = fx(10.0);
    m[3][1] = fx(20.0);
    m[3][2] = fx(30.0);
    assert_eq!(raws(mat_vec_mul(m, v3(1.0, 1.0, 1.0))), [12 * SCALE, 23 * SCALE, 34 * SCALE]);
    // a direction is not moved
    assert_eq!(raws(mat_dir_mul(m, v3(1.0, 1.0, 1.0))), [2 * SCALE, 3 * SCALE, 4 * SCALE]);
    // the last column divides
    m[3][3] = fx(2.0);
    assert_eq!(raws(mat_vec_mul(m, v3(1.0, 1.0, 1.0))), [6 * SCALE, 11_500_000_000, 17 * SCALE]);
    m[3][3] = fx(0.0);
    assert_eq!(raws(mat_vec_mul(m, v3(1.0, 1.0, 1.0))), [LIMIT, LIMIT, LIMIT]);
    let turn = [v3(0.0, 1.0, 0.0), v3(-1.0, 0.0, 0.0), v3(0.0, 0.0, 1.0)];
    assert_eq!(raws(mat_dir_mul3(turn, v3(1.0, 0.0, 0.0))), [0, SCALE, 0]);
    assert_eq!(raws(mat_dir_mul3(turn, v3(0.0, 1.0, 2.0))), [-SCALE, 0, 2 * SCALE]);
}
