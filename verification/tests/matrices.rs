use raymarch::fixed::{Fixed, SCALE};
use raymarch::helpers::{mat_identity, mat_vec_mul};
use raymarch::matrix::{
    mat3_mul, mat4_mul, mat_pos_rot, mat_rot_scale, mat_rotation, mat_rotation3,
    mat_transformation, to_radians,
};

fn fx(v: f64) -> Fixed {
    Fixed::from_raw((v * SCALE as f64).round() as i64)
}

fn fl(v: Fixed) -> f64 {
    v.raw() as f64 / SCALE as f64
}

fn v3(x: f64, y: f64, z: f64) -> [Fixed; 3] {
    [fx(x), fx(y), fx(z)]
}

fn turn(deg: f64, u: usize, v: usize) -> [[f64; 4]; 4] {
    let (s, c) = deg.to_radians().sin_cos();
    let mut m = vecmath::mat4_id();
    m[u][u] = c;
    m[u][v] = -s;
    m[v][u] = s;
    m[v][v] = c;
    m
}

fn rotation_by_floats(rot: [f64; 3]) -> [[f64; 4]; 4] {
    vecmath::row_mat4_mul(
        vecmath::row_mat4_mul(turn(rot[0], 1, 2), turn(rot[1], 2, 0)),
        turn(rot[2], 0, 1),
    )
}

fn close4(got: [[Fixed; 4]; 4], want: [[f64; 4]; 4], tolerance: f64) {
    for i in 0..4 {
        for j in 0..4 {
            assert!((fl(got[i][j]) - want[i][j]).abs() <= tolerance, "entry {} {}: {} {}", i, j, fl(got[i][j]), want[i][j]);
        }
    }
}

#[test]
fn degrees_become_radians() {
    assert!((fl(to_radians(fx(180.0))) - std::f64::consts::PI).abs() < 2e-9);
    assert!((fl(to_radians(fx(-90.0))) + std::f64::consts::FRAC_PI_2).abs() < 2e-9);
    assert_eq!(to_radians(fx(0.0)).raw(), 0);
}

#[test]
fn product_with_the_identity_changes_nothing() {
    let id = mat_identity();
    let mut m = mat_identity();
    for i in 0..4 {
        for j in 0..4 {
            m[i][j] = fx(i as f64 * 1.5 - j as f64 * 0.25);
        }
    }
    let p = mat4_mul(m, id);
    let q = mat4_mul(id, m);
    for i in 0..4 {
        for j in 0..4 {
            assert_eq!(p[i][j].raw(), m[i][j].raw());
            assert_eq!(q[i][j].raw(), m[i][j].raw());
        }
    }
}

#[test]
fn products_multiply_rows_by_columns() {
    let a = [v3(1.0, 2.0, 0.0), v3(0.0, 1.0, 0.0), v3(0.5, 0.0, 1.0)];
    let b = [v3(2.0, 0.0, 1.0), v3(1.0, 1.0, 0.0), v3(0.0, 3.0, 1.0)];
    let p = mat3_mul(a, b);
    // row 0: (1, 2, 0) by the columns (2, 1, 0), (0, 1, 3), (1, 0, 1)
    assert_eq!([p[0][0].raw(), p[0][1].raw(), p[0][2].raw()], [4 * SCALE, 2 * SCALE, SCALE]);
    assert_eq!([p[2][0].raw(), p[2][1].raw(), p[2][2].raw()], [SCALE, 3 * SCALE, 1_500_000_000]);
    // not the other way round
    let q = mat3_mul(b, a);
    assert_eq!(q[0][0].raw(), 2_500_000_000);
}

#[test]
fn rotation_follows_the_three_angles() {
    for rot in [[0.0, 0.0, 0.0], [90.0, 0.0, 0.0], [0.0, 90.0, 0.0], [0.0, 0.0, 90.0], [30.0, 45.0, 60.0], [-160.0, 10.0, 275.0]] {
        close4(mat_rotation(v3(rot[0], rot[1], rot[2])), rotation_by_floats(rot), 1e-8);
    }
    let quarter = mat_rotation(v3(0.0, 0.0, 90.0));
    assert!((fl(quarter[0][1]) + 1.0).abs() < 1e-8);
    assert!((fl(quarter[1][0]) - 1.0).abs() < 1e-8);
}

#[test]
fn rotation_of_three_rows_turns_the_other_way_round() {
    let rot = [30.0f64, 45.0, 60.0];
    let small = |m: [[f64; 4]; 4]| [[m[0][0], m[0][1], m[0][2]], [m[1][0], m[1][1], m[1][2]], [m[2][0], m[2][1], m[2][2]]];
    let want = vecmath::row_mat3_mul(
        vecmath::row_mat3_mul(small(turn(rot[2], 0, 1)), small(turn(rot[1], 2, 0))),
        small(turn(rot[0], 1, 2)),
    );
    let got = mat_rotation3(v3(rot[0], rot[1], rot[2]));
    for i in 0..3 {
        for j in 0..3 {
            assert!((fl(got[i][j]) - want[i][j]).abs() < 1e-8);
        }
    }
    let scaled = mat_rot_scale(v3(rot[0], rot[1], rot[2]), v3(2.0, 3.0, 4.0));
    assert!((fl(scaled[0][0]) - want[0][0] * 2.0).abs() < 1e-8);
    assert!((fl(scaled[1][1]) - want[1][1] * 3.0).abs() < 1e-8);
    assert!((fl(scaled[2][2]) - want[2][2] * 4.0).abs() < 1e-8);
    assert!((fl(scaled[0][1]) - want[0][1]).abs() < 1e-8);
}

#[test]
fn transformation_rotates_scales_and_moves() {
    let m = mat_transformation(v3(1.0, 2.0, 3.0), v3(0.0, 0.0, 0.0), v3(2.0, 2.0, 2.0));
    let p = mat_vec_mul(m, v3(1.0, 1.0, 1.0));
    assert_eq!([p[0].raw(), p[1].raw(), p[2].raw()], [3 * SCALE, 4 * SCALE, 5 * SCALE]);
    let mut want = vecmath::row_mat4_mul(rotation_by_floats([10.0, 20.0, 30.0]), {
        let mut s = vecmath::mat4_id();
        s[0][0] = 2.0;
        s[1][1] = 0.5;
        s[2][2] = 3.0;
        s
    });
    want[3][0] = -1.0;
    want[3][1] = 4.0;
    want[3][2] = 0.25;
    close4(mat_transformation(v3(-1.0, 4.0, 0.25), v3(10.0, 20.0, 30.0), v3(2.0, 0.5, 3.0)), want, 1e-8);
    let mut moved = rotation_by_floats([10.0, 20.0, 30.0]);
    moved[3][0] = -1.0;
    moved[3][1] = 4.0;
    moved[3][2] = 0.25;
    close4(mat_pos_rot(v3(-1.0, 4.0, 0.25), v3(10.0, 20.0, 30.0)), moved, 1e-8);
}

#[test]
fn inverse_of_a_transformation_brings_points_back() {
    let m = mat_transformation(v3(1.0, -2.0, 0.5), v3(25.0, -40.0, 110.0), v3(1.5, 0.75, 2.0));
    let as_floats = [
        [fl(m[0][0]), fl(m[0][1]), fl(m[0][2]), fl(m[0][3])],
        [fl(m[1][0]), fl(m[1][1]), fl(m[1][2]), fl(m[1][3])],
        [fl(m[2][0]), fl(m[2][1]), fl(m[2][2]), fl(m[2][3])],
        [fl(m[3][0]), fl(m[3][1]), fl(m[3][2]), fl(m[3][3])],
    ];
    let inv = vecmath::mat4_inv(as_floats);
    let mut back = mat_identity();
    for i in 0..4 {
        for j in 0..4 {
            back[i][j] = fx(inv[i][j]);
        }
    }
    let p = v3(0.3, -0.7, 1.1);
    let q = mat_vec_mul(back, mat_vec_mul(m, p));
    for c in 0..3 {
        assert!((q[c].raw() - p[c].raw()).abs() < 20, "channel {}", c);
    }
}
