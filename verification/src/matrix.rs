//! Transform matrices from positions, Euler angles in degrees and scales.
//!
//! A matrix acts on row vectors: the point `p` goes to `p * M`, and the
//! translation of a homogeneous matrix sits in its last row.

use crate::fixed::{
    floor_div, lemma_mul_bounds, saturate, saturate_i128, spec_div, spec_mul, Fixed, LIMIT, SCALE,
};
use crate::helpers::{mat_scale, point_of, Point};
use crate::math::{cos, sin, spec_cos, spec_sin, PI};
use vstd::prelude::*;

verus! {

/// A matrix as its raw entries: row, then column.
pub type Entries = spec_fn(int, int) -> int;

/// The raw entries of a 4x4 matrix.
pub open spec fn entries4(m: [[Fixed; 4]; 4]) -> Entries {
    |i: int, j: int| m[i][j]@
}

/// The raw entries of a 3x3 matrix.
pub open spec fn entries3(m: [[Fixed; 3]; 3]) -> Entries {
    |i: int, j: int| m[i][j]@
}

/// Row `i` of `a` times column `j` of `b` over the first `n` indices,
/// exactly, in units of `1 / SCALE^2`.
pub open spec fn spec_row_col(a: Entries, b: Entries, i: int, j: int, n: int) -> int
    decreases n,
{
    if n <= 0 {
        0
    } else {
        spec_row_col(a, b, i, j, n - 1) + a(i, n - 1) * b(n - 1, j)
    }
}

/// The product of two `n x n` matrices, every entry rounded down once.
pub open spec fn spec_mat_mul(a: Entries, b: Entries, n: int) -> Entries {
    |i: int, j: int| saturate(spec_row_col(a, b, i, j, n) / (SCALE as int))
}

/// An angle in degrees as radians: `deg * pi / 180`.
pub open spec fn spec_to_radians(deg: int) -> int {
    spec_div(spec_mul(deg, PI as int), 180 * SCALE)
}

/// The identity with the entries of a turn by `deg` degrees put into the
/// rows and columns `u` and `v`: the cosine on the diagonal, the sine at
/// `(v, u)` and its negative at `(u, v)`.
pub open spec fn spec_turn_matrix(deg: int, u: int, v: int) -> Entries {
    let c = spec_cos(spec_to_radians(deg));
    let s = spec_sin(spec_to_radians(deg));
    |i: int, j: int|
        if (i == u && j == u) || (i == v && j == v) {
            c
        } else if i == u && j == v {
            -s
        } else if i == v && j == u {
            s
        } else if i == j {
            SCALE as int
        } else {
            0
        }
}

/// The turn about the x axis.
pub open spec fn spec_rot_x(deg: int) -> Entries {
    spec_turn_matrix(deg, 1, 2)
}

/// The turn about the y axis.
pub open spec fn spec_rot_y(deg: int) -> Entries {
    spec_turn_matrix(deg, 2, 0)
}

/// The turn about the z axis.
pub open spec fn spec_rot_z(deg: int) -> Entries {
    spec_turn_matrix(deg, 0, 1)
}

/// The 4x4 rotation by the Euler angles `rot`, in degrees: about x, then
/// about y, then about z.
pub open spec fn spec_mat_rotation(rot: Point) -> Entries {
    spec_mat_mul(spec_mat_mul(spec_rot_x(rot.x), spec_rot_y(rot.y), 4), spec_rot_z(rot.z), 4)
}

/// The 3x3 rotation by the Euler angles `rot`, in degrees: about z, then
/// about y, then about x.
pub open spec fn spec_mat_rotation3(rot: Point) -> Entries {
    spec_mat_mul(spec_mat_mul(spec_rot_z(rot.z), spec_rot_y(rot.y), 3), spec_rot_x(rot.x), 3)
}

/// The matrix that scales each axis.
pub open spec fn spec_mat_scale(scale: Point) -> Entries {
    |i: int, j: int|
        if i != j {
            0
        } else if i == 0 {
            scale.x
        } else if i == 1 {
            scale.y
        } else if i == 2 {
            scale.z
        } else {
            SCALE as int
        }
}

/// The matrix `m` with the translation `pos` put into its last row.
pub open spec fn spec_with_translation(m: Entries, pos: Point) -> Entries {
    |i: int, j: int|
        if i == 3 && j == 0 {
            pos.x
        } else if i == 3 && j == 1 {
            pos.y
        } else if i == 3 && j == 2 {
            pos.z
        } else {
            m(i, j)
        }
}

/// Rotation, then scale, then translation.
pub open spec fn spec_mat_transformation(pos: Point, rot: Point, scale: Point) -> Entries {
    spec_with_translation(spec_mat_mul(spec_mat_rotation(rot), spec_mat_scale(scale), 4), pos)
}

/// Rotation, then translation.
pub open spec fn spec_mat_pos_rot(pos: Point, rot: Point) -> Entries {
    spec_with_translation(spec_mat_rotation(rot), pos)
}

/// The 3x3 rotation with its diagonal stretched by the scale.
pub open spec fn spec_mat_rot_scale(rot: Point, scale: Point) -> Entries {
    let r = spec_mat_rotation3(rot);
    |i: int, j: int|
        if i == 0 && j == 0 {
            spec_mul(r(0, 0), scale.x)
        } else if i == 1 && j == 1 {
            spec_mul(r(1, 1), scale.y)
        } else if i == 2 && j == 2 {
            spec_mul(r(2, 2), scale.z)
        } else {
            r(i, j)
        }
}

/// A sum of four products of bounded factors is bounded.
proof fn lemma_row_col_bounds(a: Entries, b: Entries, i: int, j: int, n: int)
    requires
        0 <= n <= 4,
        forall|k: int| 0 <= k < n ==> -LIMIT <= #[trigger] a(i, k) <= LIMIT,
        forall|k: int| 0 <= k < n ==> -LIMIT <= #[trigger] b(k, j) <= LIMIT,
    ensures
        -n * (LIMIT * LIMIT) <= spec_row_col(a, b, i, j, n) <= n * (LIMIT * LIMIT),
    decreases n,
{
    if n > 0 {
        lemma_row_col_bounds(a, b, i, j, n - 1);
        lemma_mul_bounds(a(i, n - 1), b(n - 1, j), LIMIT as int, LIMIT as int);
        assert(n * (LIMIT * LIMIT) == (n - 1) * (LIMIT * LIMIT) + LIMIT * LIMIT)
            by (nonlinear_arith);
    }
}

/// `vecmath::row_mat4_mul` on wide integers: entry `(i, j)` of the result
/// is row `i` of `a` times column `j` of `b`. The bound on the entries keeps
/// every product and sum inside the integer type.
#[verifier::external_body]
fn mat4_mul_wide(a: [[i128; 4]; 4], b: [[i128; 4]; 4]) -> (r: [[i128; 4]; 4])
    requires
        forall|i: int, j: int| 0 <= i < 4 && 0 <= j < 4 ==> -LIMIT <= #[trigger] a[i][j] <= LIMIT,
        forall|i: int, j: int| 0 <= i < 4 && 0 <= j < 4 ==> -LIMIT <= #[trigger] b[i][j] <= LIMIT,
    ensures
        forall|i: int, j: int|
            0 <= i < 4 && 0 <= j < 4 ==> #[trigger] r[i][j] == a[i][0] * b[0][j] + a[i][1] * b[1][j]
                + a[i][2] * b[2][j] + a[i][3] * b[3][j],
{
    vecmath::row_mat4_mul(a, b)
}

/// `vecmath::row_mat3_mul` on wide integers: entry `(i, j)` of the result
/// is row `i` of `a` times column `j` of `b`. The bound on the entries keeps
/// every product and sum inside the integer type.
#[verifier::external_body]
fn mat3_mul_wide(a: [[i128; 3]; 3], b: [[i128; 3]; 3]) -> (r: [[i128; 3]; 3])
    requires
        forall|i: int, j: int| 0 <= i < 3 && 0 <= j < 3 ==> -LIMIT <= #[trigger] a[i][j] <= LIMIT,
        forall|i: int, j: int| 0 <= i < 3 && 0 <= j < 3 ==> -LIMIT <= #[trigger] b[i][j] <= LIMIT,
    ensures
        forall|i: int, j: int|
            0 <= i < 3 && 0 <= j < 3 ==> #[trigger] r[i][j] == a[i][0] * b[0][j] + a[i][1] * b[1][j]
                + a[i][2] * b[2][j],
{
    vecmath::row_mat3_mul(a, b)
}

/// One raw entry as a wide integer.
fn wide(v: Fixed) -> (r: i128)
    ensures
        r == v@,
        -LIMIT <= r <= LIMIT,
{
    v.raw() as i128
}

/// A wide sum of products brought back to a raw entry.
fn narrow(w: i128) -> (r: Fixed)
    requires
        w > i128::MIN,
    ensures
        r@ == saturate((w as int) / (SCALE as int)),
{
    Fixed::from_raw(saturate_i128(floor_div(w, SCALE as i128)))
}

/// The product of two 4x4 matrices.
pub fn mat4_mul(a: [[Fixed; 4]; 4], b: [[Fixed; 4]; 4]) -> (r: [[Fixed; 4]; 4])
    ensures
        forall|i: int, j: int|
            0 <= i < 4 && 0 <= j < 4 ==> (#[trigger] r[i][j])@ == spec_mat_mul(
                entries4(a),
                entries4(b),
                4,
            )(i, j),
{
    let x: [[i128; 4]; 4] = [
        [wide(a[0][0]), wide(a[0][1]), wide(a[0][2]), wide(a[0][3])],
        [wide(a[1][0]), wide(a[1][1]), wide(a[1][2]), wide(a[1][3])],
        [wide(a[2][0]), wide(a[2][1]), wide(a[2][2]), wide(a[2][3])],
        [wide(a[3][0]), wide(a[3][1]), wide(a[3][2]), wide(a[3][3])],
    ];
    let y: [[i128; 4]; 4] = [
        [wide(b[0][0]), wide(b[0][1]), wide(b[0][2]), wide(b[0][3])],
        [wide(b[1][0]), wide(b[1][1]), wide(b[1][2]), wide(b[1][3])],
        [wide(b[2][0]), wide(b[2][1]), wide(b[2][2]), wide(b[2][3])],
        [wide(b[3][0]), wide(b[3][1]), wide(b[3][2]), wide(b[3][3])],
    ];
    assert(forall|i: int, j: int| 0 <= i < 4 && 0 <= j < 4 ==> #[trigger] x[i][j] == a[i][j]@);
    assert(forall|i: int, j: int| 0 <= i < 4 && 0 <= j < 4 ==> #[trigger] y[i][j] == b[i][j]@);
    let w: [[i128; 4]; 4] = mat4_mul_wide(x, y);
    let ghost ea = entries4(a);
    let ghost eb = entries4(b);
    assert forall|i: int, j: int| 0 <= i < 4 && 0 <= j < 4 implies #[trigger] w[i][j]
        == spec_row_col(ea, eb, i, j, 4) && w[i][j] > i128::MIN by {
        assert(x[i][0] == ea(i, 0) && x[i][1] == ea(i, 1) && x[i][2] == ea(i, 2) && x[i][3] == ea(
            i,
            3,
        ));
        assert(y[0][j] == eb(0, j) && y[1][j] == eb(1, j) && y[2][j] == eb(2, j) && y[3][j] == eb(
            3,
            j,
        ));
        reveal_with_fuel(spec_row_col, 5);
        assert forall|k: int| 0 <= k < 4 implies -LIMIT <= #[trigger] ea(i, k) <= LIMIT by {
            assert(x[i][k] == ea(i, k));
        }
        assert forall|k: int| 0 <= k < 4 implies -LIMIT <= #[trigger] eb(k, j) <= LIMIT by {
            assert(y[k][j] == eb(k, j));
        }
        lemma_row_col_bounds(ea, eb, i, j, 4);
    }
    [
        [narrow(w[0][0]), narrow(w[0][1]), narrow(w[0][2]), narrow(w[0][3])],
        [narrow(w[1][0]), narrow(w[1][1]), narrow(w[1][2]), narrow(w[1][3])],
        [narrow(w[2][0]), narrow(w[2][1]), narrow(w[2][2]), narrow(w[2][3])],
        [narrow(w[3][0]), narrow(w[3][1]), narrow(w[3][2]), narrow(w[3][3])],
    ]
}

/// The product of two 3x3 matrices.
pub fn mat3_mul(a: [[Fixed; 3]; 3], b: [[Fixed; 3]; 3]) -> (r: [[Fixed; 3]; 3])
    ensures
        forall|i: int, j: int|
            0 <= i < 3 && 0 <= j < 3 ==> (#[trigger] r[i][j])@ == spec_mat_mul(
                entries3(a),
                entries3(b),
                3,
            )(i, j),
{
    let x: [[i128; 3]; 3] = [
        [wide(a[0][0]), wide(a[0][1]), wide(a[0][2])],
        [wide(a[1][0]), wide(a[1][1]), wide(a[1][2])],
        [wide(a[2][0]), wide(a[2][1]), wide(a[2][2])],
    ];
    let y: [[i128; 3]; 3] = [
        [wide(b[0][0]), wide(b[0][1]), wide(b[0][2])],
        [wide(b[1][0]), wide(b[1][1]), wide(b[1][2])],
        [wide(b[2][0]), wide(b[2][1]), wide(b[2][2])],
    ];
    assert(forall|i: int, j: int| 0 <= i < 3 && 0 <= j < 3 ==> #[trigger] x[i][j] == a[i][j]@);
    assert(forall|i: int, j: int| 0 <= i < 3 && 0 <= j < 3 ==> #[trigger] y[i][j] == b[i][j]@);
    let w: [[i128; 3]; 3] = mat3_mul_wide(x, y);
    let ghost ea = entries3(a);
    let ghost eb = entries3(b);
    assert forall|i: int, j: int| 0 <= i < 3 && 0 <= j < 3 implies #[trigger] w[i][j]
        == spec_row_col(ea, eb, i, j, 3) && w[i][j] > i128::MIN by {
        assert(x[i][0] == ea(i, 0) && x[i][1] == ea(i, 1) && x[i][2] == ea(i, 2));
        assert(y[0][j] == eb(0, j) && y[1][j] == eb(1, j) && y[2][j] == eb(2, j));
        reveal_with_fuel(spec_row_col, 4);
        assert forall|k: int| 0 <= k < 3 implies -LIMIT <= #[trigger] ea(i, k) <= LIMIT by {
            assert(x[i][k] == ea(i, k));
        }
        assert forall|k: int| 0 <= k < 3 implies -LIMIT <= #[trigger] eb(k, j) <= LIMIT by {
            assert(y[k][j] == eb(k, j));
        }
        lemma_row_col_bounds(ea, eb, i, j, 3);
    }
    [
        [narrow(w[0][0]), narrow(w[0][1]), narrow(w[0][2])],
        [narrow(w[1][0]), narrow(w[1][1]), narrow(w[1][2])],
        [narrow(w[2][0]), narrow(w[2][1]), narrow(w[2][2])],
    ]
}

/// An angle in degrees as radians.
pub fn to_radians(deg: Fixed) -> (r: Fixed)
    ensures
        r@ == spec_to_radians(deg@),
{
    deg.mul(Fixed::from_raw(PI)).div(Fixed::from_int(180))
}

/// The 4x4 rotation by the Euler angles `rot`, in degrees.
pub fn mat_rotation(rot: [Fixed; 3]) -> (r: [[Fixed; 4]; 4])
    ensures
        forall|i: int, j: int|
            0 <= i < 4 && 0 <= j < 4 ==> (#[trigger] r[i][j])@ == spec_mat_rotation(point_of(rot))(
                i,
                j,
            ),
{
    let x: Fixed = to_radians(rot[0]);
    let y: Fixed = to_radians(rot[1]);
    let z: Fixed = to_radians(rot[2]);
    let o: Fixed = Fixed::one();
    let n: Fixed = Fixed::zero();
    let x_cos: Fixed = cos(x);
    let x_sin: Fixed = sin(x);
    let x_mat: [[Fixed; 4]; 4] = [
        [o, n, n, n],
        [n, x_cos, x_sin.neg(), n],
        [n, x_sin, x_cos, n],
        [n, n, n, o],
    ];
    let y_cos: Fixed = cos(y);
    let y_sin: Fixed = sin(y);
    let y_mat: [[Fixed; 4]; 4] = [
        [y_cos, n, y_sin, n],
        [n, o, n, n],
        [y_sin.neg(), n, y_cos, n],
        [n, n, n, o],
    ];
    let z_cos: Fixed = cos(z);
    let z_sin: Fixed = sin(z);
    let z_mat: [[Fixed; 4]; 4] = [
        [z_cos, z_sin.neg(), n, n],
        [z_sin, z_cos, n, n],
        [n, n, o, n],
        [n, n, n, o],
    ];
    let xy: [[Fixed; 4]; 4] = mat4_mul(x_mat, y_mat);
    let r: [[Fixed; 4]; 4] = mat4_mul(xy, z_mat);
    proof {
        let p = point_of(rot);
        lemma_same_product(entries4(x_mat), spec_rot_x(p.x), entries4(y_mat), spec_rot_y(p.y), 4);
        lemma_same_product(
            entries4(xy),
            spec_mat_mul(spec_rot_x(p.x), spec_rot_y(p.y), 4),
            entries4(z_mat),
            spec_rot_z(p.z),
            4,
        );
    }
    r
}

/// The 3x3 rotation by the Euler angles `rot`, in degrees.
pub fn mat_rotation3(rot: [Fixed; 3]) -> (r: [[Fixed; 3]; 3])
    ensures
        forall|i: int, j: int|
            0 <= i < 3 && 0 <= j < 3 ==> (#[trigger] r[i][j])@ == spec_mat_rotation3(point_of(rot))(
                i,
                j,
            ),
{
    let x: Fixed = to_radians(rot[0]);
    let y: Fixed = to_radians(rot[1]);
    let z: Fixed = to_radians(rot[2]);
    let o: Fixed = Fixed::one();
    let n: Fixed = Fixed::zero();
    let x_cos: Fixed = cos(x);
    let x_sin: Fixed = sin(x);
    let x_mat: [[Fixed; 3]; 3] = [[o, n, n], [n, x_cos, x_sin.neg()], [n, x_sin, x_cos]];
    let y_cos: Fixed = cos(y);
    let y_sin: Fixed = sin(y);
    let y_mat: [[Fixed; 3]; 3] = [[y_cos, n, y_sin], [n, o, n], [y_sin.neg(), n, y_cos]];
    let z_cos: Fixed = cos(z);
    let z_sin: Fixed = sin(z);
    let z_mat: [[Fixed; 3]; 3] = [[z_cos, z_sin.neg(), n], [z_sin, z_cos, n], [n, n, o]];
    let zy: [[Fixed; 3]; 3] = mat3_mul(z_mat, y_mat);
    let r: [[Fixed; 3]; 3] = mat3_mul(zy, x_mat);
    proof {
        let p = point_of(rot);
        lemma_same_product(entries3(z_mat), spec_rot_z(p.z), entries3(y_mat), spec_rot_y(p.y), 3);
        lemma_same_product(
            entries3(zy),
            spec_mat_mul(spec_rot_z(p.z), spec_rot_y(p.y), 3),
            entries3(x_mat),
            spec_rot_x(p.x),
            3,
        );
    }
    r
}

/// Matrices that agree on their first `n` rows and columns have products
/// that agree there.
proof fn lemma_same_product(a: Entries, a2: Entries, b: Entries, b2: Entries, n: int)
    requires
        0 <= n <= 4,
        forall|i: int, j: int| 0 <= i < n && 0 <= j < n ==> #[trigger] a(i, j) == a2(i, j),
        forall|i: int, j: int| 0 <= i < n && 0 <= j < n ==> #[trigger] b(i, j) == b2(i, j),
    ensures
        forall|i: int, j: int|
            0 <= i < n && 0 <= j < n ==> #[trigger] spec_mat_mul(a, b, n)(i, j) == spec_mat_mul(
                a2,
                b2,
                n,
            )(i, j),
{
    assert forall|i: int, j: int| 0 <= i < n && 0 <= j < n implies spec_row_col(a, b, i, j, n)
        == spec_row_col(a2, b2, i, j, n) by {
        lemma_same_row_col(a, a2, b, b2, i, j, n, n);
    }
}

/// Sums of products over equal entries are equal.
proof fn lemma_same_row_col(
    a: Entries,
    a2: Entries,
    b: Entries,
    b2: Entries,
    i: int,
    j: int,
    n: int,
    m: int,
)
    requires
        0 <= m <= n,
        0 <= i < n,
        0 <= j < n,
        forall|i: int, j: int| 0 <= i < n && 0 <= j < n ==> #[trigger] a(i, j) == a2(i, j),
        forall|i: int, j: int| 0 <= i < n && 0 <= j < n ==> #[trigger] b(i, j) == b2(i, j),
    ensures
        spec_row_col(a, b, i, j, m) == spec_row_col(a2, b2, i, j, m),
    decreases m,
{
    if m > 0 {
        lemma_same_row_col(a, a2, b, b2, i, j, n, m - 1);
        assert(a(i, m - 1) == a2(i, m - 1));
        assert(b(m - 1, j) == b2(m - 1, j));
    }
}

/// The matrix of a transform: rotation, then scale, then translation.
pub fn mat_transformation(pos: [Fixed; 3], rot: [Fixed; 3], scale: [Fixed; 3]) -> (r: [[Fixed; 4]; 4])
    ensures
        forall|i: int, j: int|
            0 <= i < 4 && 0 <= j < 4 ==> (#[trigger] r[i][j])@ == spec_mat_transformation(
                point_of(pos),
                point_of(rot),
                point_of(scale),
            )(i, j),
{
    let rotation_matrix: [[Fixed; 4]; 4] = mat_rotation(rot);
    let scale_matrix: [[Fixed; 4]; 4] = mat_scale(scale);
    let t: [[Fixed; 4]; 4] = mat4_mul(rotation_matrix, scale_matrix);
    proof {
        lemma_same_product(
            entries4(rotation_matrix),
            spec_mat_rotation(point_of(rot)),
            entries4(scale_matrix),
            spec_mat_scale(point_of(scale)),
            4,
        );
    }
    [t[0], t[1], t[2], [pos[0], pos[1], pos[2], t[3][3]]]
}

/// The matrix of a transform without scale: rotation, then translation.
pub fn mat_pos_rot(pos: [Fixed; 3], rot: [Fixed; 3]) -> (r: [[Fixed; 4]; 4])
    ensures
        forall|i: int, j: int|
            0 <= i < 4 && 0 <= j < 4 ==> (#[trigger] r[i][j])@ == spec_mat_pos_rot(
                point_of(pos),
                point_of(rot),
            )(i, j),
{
    let t: [[Fixed; 4]; 4] = mat_rotation(rot);
    [t[0], t[1], t[2], [pos[0], pos[1], pos[2], t[3][3]]]
}

/// The 3x3 rotation with its diagonal stretched by the scale.
pub fn mat_rot_scale(rot: [Fixed; 3], scale: [Fixed; 3]) -> (r: [[Fixed; 3]; 3])
    ensures
        forall|i: int, j: int|
            0 <= i < 3 && 0 <= j < 3 ==> (#[trigger] r[i][j])@ == spec_mat_rot_scale(
                point_of(rot),
                point_of(scale),
            )(i, j),
{
    let t: [[Fixed; 3]; 3] = mat_rotation3(rot);
    [
        [t[0][0].mul(scale[0]), t[0][1], t[0][2]],
        [t[1][0], t[1][1].mul(scale[1]), t[1][2]],
        [t[2][0], t[2][1], t[2][2].mul(scale[2])],
    ]
}

} // verus!
