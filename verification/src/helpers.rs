//! Scalar, vector and matrix helpers over fixed-point numbers.
//!
//! Points and directions are arrays of three [`Fixed`] components; a matrix
//! is an array of rows and acts on row vectors, so that the translation of a
//! homogeneous matrix sits in its last row.

use crate::fixed::{
    floor_div, isqrt, isqrt_u128, lemma_mul_bounds, saturate, saturate_i128, spec_clamp, spec_div,
    spec_max, spec_min, spec_mix, spec_mul, spec_trunc, Fixed, LIMIT, SCALE,
};
use vstd::prelude::*;

verus! {

/// A point or direction as raw coordinates.
pub struct Point {
    pub x: int,
    pub y: int,
    pub z: int,
}

/// The raw coordinates of an array of three components.
pub open spec fn point_of(v: [Fixed; 3]) -> Point {
    Point { x: v[0]@, y: v[1]@, z: v[2]@ }
}

/// Exact sum of three products of raw values, in units of `1 / SCALE^2`.
pub open spec fn spec_dot3(a0: int, a1: int, a2: int, b0: int, b1: int, b2: int) -> int {
    a0 * b0 + a1 * b1 + a2 * b2
}

/// Raw dot product of two vectors, rounded down once.
pub open spec fn spec_dot(a: Point, b: Point) -> int {
    saturate(spec_dot3(a.x, a.y, a.z, b.x, b.y, b.z) / (SCALE as int))
}

/// Raw dot product of two vectors of four components, rounded down once.
pub open spec fn spec_dot4(a: (int, int, int, int), b: (int, int, int, int)) -> int {
    saturate((a.0 * b.0 + a.1 * b.1 + a.2 * b.2 + a.3 * b.3) / (SCALE as int))
}

/// The raw components of an array of four.
pub open spec fn quad_of(v: [Fixed; 4]) -> (int, int, int, int) {
    (v[0]@, v[1]@, v[2]@, v[3]@)
}

/// Raw Euclidean length of the vector with the given raw components.
pub open spec fn spec_len3(x: int, y: int, z: int) -> int {
    saturate(isqrt(x * x + y * y + z * z))
}

/// Raw Euclidean length of a vector.
pub open spec fn spec_len(a: Point) -> int {
    spec_len3(a.x, a.y, a.z)
}

/// One raw component of a row vector times a homogeneous matrix: the exact
/// sum `d . (c0, c1, c2) + c3`, rounded down once.
pub open spec fn spec_affine(d: Point, c0: int, c1: int, c2: int, c3: int) -> int {
    saturate((spec_dot3(d.x, d.y, d.z, c0, c1, c2) + c3 * SCALE) / (SCALE as int))
}

/// One raw component of a row vector times the linear part of a matrix.
pub open spec fn spec_linear(d: Point, c0: int, c1: int, c2: int) -> int {
    saturate(spec_dot3(d.x, d.y, d.z, c0, c1, c2) / (SCALE as int))
}

/// The homogeneous coordinate that `mat_vec_mul` divides by.
pub open spec fn spec_mat_w(m: [[Fixed; 4]; 4], d: Point) -> int {
    spec_affine(d, m[0][3]@, m[1][3]@, m[2][3]@, m[3][3]@)
}

/// The point `d` carried through the homogeneous matrix `m`.
pub open spec fn spec_mat_vec_mul(m: [[Fixed; 4]; 4], d: Point) -> Point {
    let w = spec_mat_w(m, d);
    Point {
        x: spec_div(spec_affine(d, m[0][0]@, m[1][0]@, m[2][0]@, m[3][0]@), w),
        y: spec_div(spec_affine(d, m[0][1]@, m[1][1]@, m[2][1]@, m[3][1]@), w),
        z: spec_div(spec_affine(d, m[0][2]@, m[1][2]@, m[2][2]@, m[3][2]@), w),
    }
}

/// The direction `d` carried through the linear part of the matrix `m`.
pub open spec fn spec_mat_dir_mul(m: [[Fixed; 4]; 4], d: Point) -> Point {
    Point {
        x: spec_linear(d, m[0][0]@, m[1][0]@, m[2][0]@),
        y: spec_linear(d, m[0][1]@, m[1][1]@, m[2][1]@),
        z: spec_linear(d, m[0][2]@, m[1][2]@, m[2][2]@),
    }
}

/// The direction `d` carried through the 3x3 matrix `m`.
pub open spec fn spec_mat_dir_mul3(m: [[Fixed; 3]; 3], d: Point) -> Point {
    Point {
        x: spec_linear(d, m[0][0]@, m[1][0]@, m[2][0]@),
        y: spec_linear(d, m[0][1]@, m[1][1]@, m[2][1]@),
        z: spec_linear(d, m[0][2]@, m[1][2]@, m[2][2]@),
    }
}

/// The unit vector along `a`; the zero vector stays zero.
pub open spec fn spec_normalized(a: Point) -> Point {
    let l = spec_len(a);
    Point { x: spec_div(a.x, l), y: spec_div(a.y, l), z: spec_div(a.z, l) }
}

/// Sum of two vectors.
pub open spec fn spec_vec_add(a: Point, b: Point) -> Point {
    Point { x: saturate(a.x + b.x), y: saturate(a.y + b.y), z: saturate(a.z + b.z) }
}

/// The vector `a` stretched by the raw factor `s`.
pub open spec fn spec_vec_scale(a: Point, s: int) -> Point {
    Point { x: spec_mul(a.x, s), y: spec_mul(a.y, s), z: spec_mul(a.z, s) }
}

/// `incident - 2 (incident . normal) normal`.
pub open spec fn spec_reflect(incident: Point, normal: Point) -> Point {
    let f = saturate(2 * spec_dot(incident, normal));
    Point {
        x: saturate(incident.x - spec_mul(f, normal.x)),
        y: saturate(incident.y - spec_mul(f, normal.y)),
        z: saturate(incident.z - spec_mul(f, normal.z)),
    }
}

/// The squared length is never negative.
pub proof fn lemma_square_sum_nonneg(x: int, y: int, z: int)
    ensures
        x * x + y * y + z * z >= 0,
        x * x >= 0,
        y * y >= 0,
        z * z >= 0,
{
    assert(x * x >= 0 && y * y >= 0 && z * z >= 0) by (nonlinear_arith);
}

/// The identity matrix leaves every point where it is.
pub proof fn lemma_identity_transform(m: [[Fixed; 4]; 4], d: Point)
    requires
        forall|i: int, j: int|
            0 <= i < 4 && 0 <= j < 4 ==> (#[trigger] m[i][j])@ == (if i == j {
                SCALE as int
            } else {
                0
            }),
        -LIMIT <= d.x <= LIMIT,
        -LIMIT <= d.y <= LIMIT,
        -LIMIT <= d.z <= LIMIT,
    ensures
        spec_mat_vec_mul(m, d) == d,
{
    assert(m[0][0]@ == SCALE && m[1][0]@ == 0 && m[2][0]@ == 0 && m[3][0]@ == 0);
    assert(m[0][1]@ == 0 && m[1][1]@ == SCALE && m[2][1]@ == 0 && m[3][1]@ == 0);
    assert(m[0][2]@ == 0 && m[1][2]@ == 0 && m[2][2]@ == SCALE && m[3][2]@ == 0);
    assert(m[0][3]@ == 0 && m[1][3]@ == 0 && m[2][3]@ == 0 && m[3][3]@ == SCALE);
    assert(spec_mat_w(m, d) == SCALE) by {
        assert(spec_dot3(d.x, d.y, d.z, 0, 0, 0) == 0) by (nonlinear_arith);
    }
    assert(spec_dot3(d.x, d.y, d.z, SCALE as int, 0, 0) == d.x * SCALE) by (nonlinear_arith);
    assert(spec_dot3(d.x, d.y, d.z, 0, SCALE as int, 0) == d.y * SCALE) by (nonlinear_arith);
    assert(spec_dot3(d.x, d.y, d.z, 0, 0, SCALE as int) == d.z * SCALE) by (nonlinear_arith);
    assert((d.x * SCALE) / (SCALE as int) == d.x) by (nonlinear_arith);
    assert((d.y * SCALE) / (SCALE as int) == d.y) by (nonlinear_arith);
    assert((d.z * SCALE) / (SCALE as int) == d.z) by (nonlinear_arith);
}

/// `vecmath::vec3_square_len` on wide integers: the sum of the squares of
/// the three components. The bound on the components keeps every product and
/// the sum inside the integer type.
#[verifier::external_body]
fn square_len_wide(a: [i128; 3]) -> (r: i128)
    requires
        -LIMIT <= a[0] <= LIMIT,
        -LIMIT <= a[1] <= LIMIT,
        -LIMIT <= a[2] <= LIMIT,
    ensures
        r == a[0] * a[0] + a[1] * a[1] + a[2] * a[2],
{
    vecmath::vec3_square_len(a)
}

/// `vecmath::vec3_dot` on wide integers: the sum of the products of the
/// components, index by index. The bound on the components keeps every
/// product and the sum inside the integer type.
#[verifier::external_body]
fn dot_wide(a: [i128; 3], b: [i128; 3]) -> (r: i128)
    requires
        -LIMIT <= a[0] <= LIMIT,
        -LIMIT <= a[1] <= LIMIT,
        -LIMIT <= a[2] <= LIMIT,
        -LIMIT <= b[0] <= LIMIT,
        -LIMIT <= b[1] <= LIMIT,
        -LIMIT <= b[2] <= LIMIT,
    ensures
        r == a[0] * b[0] + a[1] * b[1] + a[2] * b[2],
{
    vecmath::vec3_dot(a, b)
}

/// `vecmath::vec4_dot` on wide integers: the sum of the products of the
/// components, index by index. The bound on the components keeps every
/// product and the sum inside the integer type.
#[verifier::external_body]
fn dot4_wide(a: [i128; 4], b: [i128; 4]) -> (r: i128)
    requires
        forall|i: int| 0 <= i < 4 ==> -LIMIT <= #[trigger] a[i] <= LIMIT,
        forall|i: int| 0 <= i < 4 ==> -LIMIT <= #[trigger] b[i] <= LIMIT,
    ensures
        r == a[0] * b[0] + a[1] * b[1] + a[2] * b[2] + a[3] * b[3],
{
    vecmath::vec4_dot(a, b)
}

/// The exact sum of three products, with its bound.
fn dot3(a: [Fixed; 3], b0: Fixed, b1: Fixed, b2: Fixed) -> (r: i128)
    ensures
        r == spec_dot3(a[0]@, a[1]@, a[2]@, b0@, b1@, b2@),
        -3 * (LIMIT * LIMIT) <= r <= 3 * (LIMIT * LIMIT),
{
    let x0: i128 = a[0].raw() as i128;
    let x1: i128 = a[1].raw() as i128;
    let x2: i128 = a[2].raw() as i128;
    let y0: i128 = b0.raw() as i128;
    let y1: i128 = b1.raw() as i128;
    let y2: i128 = b2.raw() as i128;
    proof {
        lemma_mul_bounds(x0 as int, y0 as int, LIMIT as int, LIMIT as int);
        lemma_mul_bounds(x1 as int, y1 as int, LIMIT as int, LIMIT as int);
        lemma_mul_bounds(x2 as int, y2 as int, LIMIT as int, LIMIT as int);
    }
    x0 * y0 + x1 * y1 + x2 * y2
}

/// One component of a point carried through a homogeneous matrix.
fn affine(d: [Fixed; 3], c0: Fixed, c1: Fixed, c2: Fixed, c3: Fixed) -> (r: Fixed)
    ensures
        r@ == spec_affine(point_of(d), c0@, c1@, c2@, c3@),
{
    let s: i128 = dot3(d, c0, c1, c2);
    let c: i128 = c3.raw() as i128;
    proof {
        lemma_mul_bounds(c as int, SCALE as int, LIMIT as int, SCALE as int);
    }
    let t: i128 = c * (SCALE as i128);
    Fixed::from_raw(saturate_i128(floor_div(s + t, SCALE as i128)))
}

/// One component of a direction carried through the linear part of a matrix.
fn linear(d: [Fixed; 3], c0: Fixed, c1: Fixed, c2: Fixed) -> (r: Fixed)
    ensures
        r@ == spec_linear(point_of(d), c0@, c1@, c2@),
{
    let s: i128 = dot3(d, c0, c1, c2);
    Fixed::from_raw(saturate_i128(floor_div(s, SCALE as i128)))
}

/// The smaller of two numbers; the second where they are equal.
pub fn min_f64(a: Fixed, b: Fixed) -> (r: Fixed)
    ensures
        r@ == spec_min(a@, b@),
        r == (if a@ < b@ { a } else { b }),
{
    a.min(b)
}

/// The larger of two numbers; the second where they are equal.
pub fn max_f64(a: Fixed, b: Fixed) -> (r: Fixed)
    ensures
        r@ == spec_max(a@, b@),
        r == (if a@ > b@ { a } else { b }),
{
    a.max(b)
}

/// Linear blend: `a` at `f = 0`, `b` at `f = 1`.
pub fn mix(a: Fixed, b: Fixed, f: Fixed) -> (r: Fixed)
    ensures
        r@ == spec_mix(a@, b@, f@),
{
    a.mul(Fixed::one().sub(f)).add(b.mul(f))
}

/// The whole part of `v`, cut off towards zero.
pub fn round(v: Fixed) -> (r: Fixed)
    ensures
        r@ == spec_trunc(v@),
{
    v.trunc()
}

/// Blends two vectors component by component.
pub fn vec_interpolate(a: [Fixed; 3], b: [Fixed; 3], fac: Fixed) -> (r: [Fixed; 3])
    ensures
        forall|i: int| 0 <= i < 3 ==> (#[trigger] r[i])@ == spec_mix(a[i]@, b[i]@, fac@),
{
    [mix(a[0], b[0], fac), mix(a[1], b[1], fac), mix(a[2], b[2], fac)]
}

/// Raises every component to at least `val`.
pub fn vec_f_max(a: [Fixed; 3], val: Fixed) -> (r: [Fixed; 3])
    ensures
        forall|i: int| 0 <= i < 3 ==> (#[trigger] r[i])@ == spec_max(a[i]@, val@),
{
    [max_f64(a[0], val), max_f64(a[1], val), max_f64(a[2], val)]
}

/// The larger of the two components at every index.
pub fn vec_max(a: [Fixed; 3], b: [Fixed; 3]) -> (r: [Fixed; 3])
    ensures
        forall|i: int| 0 <= i < 3 ==> (#[trigger] r[i])@ == spec_max(a[i]@, b[i]@),
{
    [max_f64(a[0], b[0]), max_f64(a[1], b[1]), max_f64(a[2], b[2])]
}

/// Clamps every component to `min ..= max`.
pub fn vec_clamp(v: [Fixed; 3], min: Fixed, max: Fixed) -> (r: [Fixed; 3])
    ensures
        forall|i: int| 0 <= i < 3 ==> (#[trigger] r[i])@ == spec_clamp(v[i]@, min@, max@),
{
    [v[0].clamp(min, max), v[1].clamp(min, max), v[2].clamp(min, max)]
}

/// Sum of two vectors.
pub fn vec_add(a: [Fixed; 3], b: [Fixed; 3]) -> (r: [Fixed; 3])
    ensures
        point_of(r) == spec_vec_add(point_of(a), point_of(b)),
{
    [a[0].add(b[0]), a[1].add(b[1]), a[2].add(b[2])]
}

/// The vector `a` stretched by the factor `s`.
pub fn vec_scale(a: [Fixed; 3], s: Fixed) -> (r: [Fixed; 3])
    ensures
        point_of(r) == spec_vec_scale(point_of(a), s@),
{
    [a[0].mul(s), a[1].mul(s), a[2].mul(s)]
}

/// Euclidean length of a vector, rounded down.
pub fn vec3_len(a: [Fixed; 3]) -> (r: Fixed)
    ensures
        r@ == spec_len(point_of(a)),
        r@ >= 0,
{
    let w: [i128; 3] = [a[0].raw() as i128, a[1].raw() as i128, a[2].raw() as i128];
    proof {
        lemma_mul_bounds(w[0] as int, w[0] as int, LIMIT as int, LIMIT as int);
        lemma_mul_bounds(w[1] as int, w[1] as int, LIMIT as int, LIMIT as int);
        lemma_mul_bounds(w[2] as int, w[2] as int, LIMIT as int, LIMIT as int);
        lemma_square_sum_nonneg(w[0] as int, w[1] as int, w[2] as int);
    }
    let n: i128 = square_len_wide(w);
    let s: u128 = isqrt_u128(n as u128);
    Fixed::from_raw(saturate_i128(s as i128))
}

/// The length of the vector `(a, b)` in the plane, rounded down.
pub fn hypot(a: Fixed, b: Fixed) -> (r: Fixed)
    ensures
        r@ == spec_len3(a@, b@, 0),
        r@ >= 0,
{
    let x: i128 = a.raw() as i128;
    let y: i128 = b.raw() as i128;
    proof {
        lemma_mul_bounds(x as int, x as int, LIMIT as int, LIMIT as int);
        lemma_mul_bounds(y as int, y as int, LIMIT as int, LIMIT as int);
        lemma_square_sum_nonneg(x as int, y as int, 0);
    }
    let n: i128 = x * x + y * y;
    let s: u128 = isqrt_u128(n as u128);
    Fixed::from_raw(saturate_i128(s as i128))
}

/// The square of the Euclidean length of a vector, rounded down once.
pub fn vec3_square_len(a: [Fixed; 3]) -> (r: Fixed)
    ensures
        r@ == spec_dot(point_of(a), point_of(a)),
{
    let w: [i128; 3] = [a[0].raw() as i128, a[1].raw() as i128, a[2].raw() as i128];
    proof {
        lemma_mul_bounds(w[0] as int, w[0] as int, LIMIT as int, LIMIT as int);
        lemma_mul_bounds(w[1] as int, w[1] as int, LIMIT as int, LIMIT as int);
        lemma_mul_bounds(w[2] as int, w[2] as int, LIMIT as int, LIMIT as int);
    }
    let n: i128 = square_len_wide(w);
    Fixed::from_raw(saturate_i128(floor_div(n, SCALE as i128)))
}

/// Dot product of two vectors, rounded down once.
pub fn vec3_dot(a: [Fixed; 3], b: [Fixed; 3]) -> (r: Fixed)
    ensures
        r@ == spec_dot(point_of(a), point_of(b)),
{
    let x: [i128; 3] = [a[0].raw() as i128, a[1].raw() as i128, a[2].raw() as i128];
    let y: [i128; 3] = [b[0].raw() as i128, b[1].raw() as i128, b[2].raw() as i128];
    proof {
        lemma_mul_bounds(x[0] as int, y[0] as int, LIMIT as int, LIMIT as int);
        lemma_mul_bounds(x[1] as int, y[1] as int, LIMIT as int, LIMIT as int);
        lemma_mul_bounds(x[2] as int, y[2] as int, LIMIT as int, LIMIT as int);
    }
    let s: i128 = dot_wide(x, y);
    Fixed::from_raw(saturate_i128(floor_div(s, SCALE as i128)))
}

/// The unit vector along `a`; the zero vector stays zero.
pub fn vec3_normalized(a: [Fixed; 3]) -> (r: [Fixed; 3])
    ensures
        point_of(r) == spec_normalized(point_of(a)),
{
    let l: Fixed = vec3_len(a);
    [a[0].div(l), a[1].div(l), a[2].div(l)]
}

/// Carries the point `d` through the homogeneous matrix `matrix`, dividing
/// by the resulting homogeneous coordinate.
pub fn mat_vec_mul(matrix: [[Fixed; 4]; 4], d: [Fixed; 3]) -> (r: [Fixed; 3])
    ensures
        point_of(r) == spec_mat_vec_mul(matrix, point_of(d)),
{
    let x: Fixed = affine(d, matrix[0][0], matrix[1][0], matrix[2][0], matrix[3][0]);
    let y: Fixed = affine(d, matrix[0][1], matrix[1][1], matrix[2][1], matrix[3][1]);
    let z: Fixed = affine(d, matrix[0][2], matrix[1][2], matrix[2][2], matrix[3][2]);
    let w: Fixed = affine(d, matrix[0][3], matrix[1][3], matrix[2][3], matrix[3][3]);
    [x.div(w), y.div(w), z.div(w)]
}

/// Carries the direction `d` through the linear part of `matrix`.
pub fn mat_dir_mul(matrix: [[Fixed; 4]; 4], d: [Fixed; 3]) -> (r: [Fixed; 3])
    ensures
        point_of(r) == spec_mat_dir_mul(matrix, point_of(d)),
{
    let x: Fixed = linear(d, matrix[0][0], matrix[1][0], matrix[2][0]);
    let y: Fixed = linear(d, matrix[0][1], matrix[1][1], matrix[2][1]);
    let z: Fixed = linear(d, matrix[0][2], matrix[1][2], matrix[2][2]);
    [x, y, z]
}

/// Carries the direction `d` through the 3x3 matrix `matrix`.
pub fn mat_dir_mul3(matrix: [[Fixed; 3]; 3], d: [Fixed; 3]) -> (r: [Fixed; 3])
    ensures
        point_of(r) == spec_mat_dir_mul3(matrix, point_of(d)),
{
    let x: Fixed = linear(d, matrix[0][0], matrix[1][0], matrix[2][0]);
    let y: Fixed = linear(d, matrix[0][1], matrix[1][1], matrix[2][1]);
    let z: Fixed = linear(d, matrix[0][2], matrix[1][2], matrix[2][2]);
    [x, y, z]
}

/// The identity matrix.
pub fn mat_identity() -> (r: [[Fixed; 4]; 4])
    ensures
        forall|i: int, j: int|
            0 <= i < 4 && 0 <= j < 4 ==> (#[trigger] r[i][j])@ == (if i == j {
                SCALE as int
            } else {
                0
            }),
{
    let o: Fixed = Fixed::one();
    let z: Fixed = Fixed::zero();
    [[o, z, z, z], [z, o, z, z], [z, z, o, z], [z, z, z, o]]
}

/// The matrix that stretches each axis by the matching component of `scale`.
pub fn mat_scale(scale: [Fixed; 3]) -> (r: [[Fixed; 4]; 4])
    ensures
        forall|i: int, j: int|
            0 <= i < 4 && 0 <= j < 4 ==> (#[trigger] r[i][j])@ == (if i != j {
                0
            } else if i < 3 {
                scale[i]@
            } else {
                SCALE as int
            }),
{
    let o: Fixed = Fixed::one();
    let z: Fixed = Fixed::zero();
    [[scale[0], z, z, z], [z, scale[1], z, z], [z, z, scale[2], z], [z, z, z, o]]
}

/// Dot product of two vectors, rounded down once.
pub fn dot_product(a: [Fixed; 3], b: [Fixed; 3]) -> (r: Fixed)
    ensures
        r@ == spec_dot(point_of(a), point_of(b)),
{
    let s: i128 = dot3(a, b[0], b[1], b[2]);
    Fixed::from_raw(saturate_i128(floor_div(s, SCALE as i128)))
}

/// Dot product of two vectors of four components, rounded down once.
pub fn vec4_dot(a: [Fixed; 4], b: [Fixed; 4]) -> (r: Fixed)
    ensures
        r@ == spec_dot4(quad_of(a), quad_of(b)),
{
    let x: [i128; 4] = [
        a[0].raw() as i128,
        a[1].raw() as i128,
        a[2].raw() as i128,
        a[3].raw() as i128,
    ];
    let y: [i128; 4] = [
        b[0].raw() as i128,
        b[1].raw() as i128,
        b[2].raw() as i128,
        b[3].raw() as i128,
    ];
    proof {
        lemma_mul_bounds(x[0] as int, y[0] as int, LIMIT as int, LIMIT as int);
        lemma_mul_bounds(x[1] as int, y[1] as int, LIMIT as int, LIMIT as int);
        lemma_mul_bounds(x[2] as int, y[2] as int, LIMIT as int, LIMIT as int);
        lemma_mul_bounds(x[3] as int, y[3] as int, LIMIT as int, LIMIT as int);
    }
    let s: i128 = dot4_wide(x, y);
    Fixed::from_raw(saturate_i128(floor_div(s, SCALE as i128)))
}

/// Mirrors `indicent` at the plane with the given normal.
pub fn reflect(indicent: [Fixed; 3], normal: [Fixed; 3]) -> (r: [Fixed; 3])
    ensures
        point_of(r) == spec_reflect(point_of(indicent), point_of(normal)),
{
    let d: Fixed = dot_product(indicent, normal);
    let f: Fixed = d.add(d);
    [
        indicent[0].sub(f.mul(normal[0])),
        indicent[1].sub(f.mul(normal[1])),
        indicent[2].sub(f.mul(normal[2])),
    ]
}

} // verus!
