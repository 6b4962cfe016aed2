use raymarch::fixed::{Fixed, LIMIT, SCALE};
use raymarch::fractal::{Julia, Mandelbulb};
use raymarch::helpers::mat_identity;
use raymarch::modifier::{
    Bend, Distort, PosModifier, Repetition, RepetitionLimited, Round, Twist,
};
use raymarch::parameter::{Param, Snapshot};
use raymarch::primitive::{
    combine, seed, smooth_intersection, smooth_subtraction, smooth_union, Cube, GroupModifierType,
    GroupPrimitive, Material, MaterialRaw, Primitive, PrimitiveResult, Sphere, Torus,
};

fn fx(v: f64) -> Fixed {
    Fixed::from_raw((v * SCALE as f64).round() as i64)
}

fn fl(v: Fixed) -> f64 {
    v.raw() as f64 / SCALE as f64
}

fn v3(x: f64, y: f64, z: f64) -> [Fixed; 3] {
    [fx(x), fx(y), fx(z)]
}

fn c(v: f64) -> Param {
    Param::constant(fx(v))
}

fn moved_to(x: f64, y: f64, z: f64) -> [[Fixed; 4]; 4] {
    let mut m = mat_identity();
    m[3][0] = fx(-x);
    m[3][1] = fx(-y);
    m[3][2] = fx(-z);
    m
}

fn sphere(rad: f64, x: f64, y: f64, z: f64) -> Primitive {
    Primitive::Sphere(Sphere::new(c(rad), moved_to(x, y, z), None, Vec::new(), None))
}

fn sample(d: f64, mark: f64) -> PrimitiveResult {
    PrimitiveResult {
        distance: fx(d),
        fractal_data: [fx(mark), fx(mark), fx(mark), fx(mark)],
        material: MaterialRaw { albedo: fx(mark), specular: fx(0.0), diffuse: fx(1.0), n_specular: fx(0.0) },
    }
}

#[test]
fn sphere_distance_is_length_less_radius() {
    let s = Sphere::new(c(2.0), mat_identity(), None, Vec::new(), None);
    assert_eq!(s._map_primitive(v3(3.0, 4.0, 0.0)).distance.raw(), 3 * SCALE);
    assert_eq!(s._map_primitive(v3(0.0, 0.0, 0.0)).distance.raw(), -2 * SCALE);
    assert_eq!(s._map_primitive(v3(0.0, -2.0, 0.0)).distance.raw(), 0);
    // sqrt(3) = 1.7320508075..., rounded down to a billionth
    assert_eq!(s._map_primitive(v3(1.0, 1.0, 1.0)).distance.raw(), 1_732_050_807 - 2 * SCALE);
    let r = s._map_primitive(v3(1.0, 1.0, 1.0));
    assert_eq!(r.fractal_data[0].raw(), 0);
    assert_eq!(r.material.albedo.raw(), SCALE);
    assert_eq!(r.material.diffuse.raw(), SCALE);
}

#[test]
fn sphere_with_zero_radius_is_a_point() {
    let s = Sphere::new(c(0.0), mat_identity(), None, Vec::new(), None);
    assert_eq!(s._map_primitive(v3(0.0, 0.0, 0.0)).distance.raw(), 0);
    assert_eq!(s._map_primitive(v3(0.0, 0.0, 5.0)).distance.raw(), 5 * SCALE);
}

#[test]
fn sphere_is_asked_in_its_own_frame() {
    let s = sphere(1.0, 2.0, 0.0, 0.0);
    assert_eq!(s.map_primitive(v3(0.0, 0.0, 0.0)).distance.raw(), SCALE);
    assert_eq!(s.map_primitive(v3(2.0, 0.0, 0.0)).distance.raw(), -SCALE);
    // already in the sphere's frame: the transform is left out
    assert_eq!(s.map_primitive_mapped(v3(2.0, 0.0, 0.0)).distance.raw(), SCALE);
}

#[test]
fn torus_distance_follows_the_ring() {
    let t = Torus::new(c(3.0), c(1.0), mat_identity(), None, Vec::new(), None);
    assert_eq!(t._map_primitive(v3(3.0, 0.0, 0.0)).distance.raw(), -SCALE);
    assert_eq!(t._map_primitive(v3(0.0, 0.0, 0.0)).distance.raw(), 2 * SCALE);
    assert_eq!(t._map_primitive(v3(0.0, 4.0, 3.0)).distance.raw(), 3 * SCALE);
    assert_eq!(t._map_primitive(v3(6.0, 4.0, 0.0)).distance.raw(), 4 * SCALE);
}

#[test]
fn cube_distance_inside_and_outside() {
    let b = Cube::new([c(1.0), c(2.0), c(3.0)], mat_identity(), None, Vec::new(), None);
    assert_eq!(b._map_primitive(v3(0.0, 0.0, 0.0)).distance.raw(), -SCALE);
    assert_eq!(b._map_primitive(v3(0.5, 0.0, 0.0)).distance.raw(), -SCALE / 2);
    assert_eq!(b._map_primitive(v3(2.0, 0.0, 0.0)).distance.raw(), SCALE);
    assert_eq!(b._map_primitive(v3(4.0, 6.0, 3.0)).distance.raw(), 5 * SCALE);
    assert_eq!(b._map_primitive(v3(-4.0, -6.0, -3.0)).distance.raw(), 5 * SCALE);
}

#[test]
fn sharp_rules_keep_the_winner_whole() {
    let a = sample(1.0, 0.1);
    let b = sample(2.0, 0.2);
    let k = fx(0.0);
    let u = combine(GroupModifierType::Union, k, a, b);
    assert_eq!(u.distance.raw(), SCALE);
    assert_eq!(u.material.albedo.raw(), fx(0.1).raw());
    let i = combine(GroupModifierType::Intersection, k, a, b);
    assert_eq!(i.distance.raw(), 2 * SCALE);
    assert_eq!(i.fractal_data[3].raw(), fx(0.2).raw());
    let s = combine(GroupModifierType::Subtraction, k, seed(GroupModifierType::Subtraction, a), b);
    assert_eq!(s.distance.raw(), 2 * SCALE);
    assert_eq!(seed(GroupModifierType::Subtraction, a).distance.raw(), -SCALE);
    assert_eq!(seed(GroupModifierType::Union, a).distance.raw(), SCALE);
}

#[test]
fn sharp_rules_keep_the_running_answer_on_a_tie() {
    let a = sample(1.0, 0.1);
    let b = sample(1.0, 0.2);
    let k = fx(0.0);
    assert_eq!(combine(GroupModifierType::Union, k, a, b).material.albedo.raw(), fx(0.1).raw());
    assert_eq!(
        combine(GroupModifierType::Intersection, k, a, b).material.albedo.raw(),
        fx(0.1).raw()
    );
}

#[test]
fn smooth_rules_take_the_last_child_for_material() {
    let a = sample(1.0, 0.1);
    let b = sample(5.0, 0.2);
    let r = combine(GroupModifierType::SmoothUnion, fx(0.5), a, b);
    assert_eq!(r.distance.raw(), SCALE);
    assert_eq!(r.material.albedo.raw(), fx(0.2).raw());
    assert_eq!(r.fractal_data[0].raw(), fx(0.2).raw());
}

#[test]
fn smooth_rules_have_their_closed_forms() {
    // equal distances: h = 1/2 and the blend is d -+ k / 4
    assert_eq!(smooth_union(fx(1.0), fx(1.0), fx(0.5)).raw(), 875_000_000);
    assert_eq!(smooth_intersection(fx(1.0), fx(1.0), fx(0.5)).raw(), 1_125_000_000);
    // subtraction with acc = -1, child = 1: h = 1/2, mix(1, 1, h) + k / 4
    assert_eq!(smooth_subtraction(fx(-1.0), fx(1.0), fx(0.5)).raw(), 1_125_000_000);
    // far apart: the sharp rule
    assert_eq!(smooth_union(fx(1.0), fx(3.0), fx(0.5)).raw(), SCALE);
    assert_eq!(smooth_union(fx(3.0), fx(1.0), fx(0.5)).raw(), SCALE);
    assert_eq!(smooth_intersection(fx(1.0), fx(3.0), fx(0.5)).raw(), 3 * SCALE);
    assert_eq!(smooth_subtraction(fx(1.0), fx(3.0), fx(0.5)).raw(), 3 * SCALE);
    // a quarter of the way: h = 1/2 + (c - a) / 2k = 3/4
    // mix(1.25, 1, 3/4) - 0.5 * 3/4 * 1/4 = 1.0625 - 0.09375
    assert_eq!(smooth_union(fx(1.0), fx(1.25), fx(0.5)).raw(), 968_750_000);
}

#[test]
fn smooth_union_with_factor_zero_is_the_union() {
    assert_eq!(smooth_union(fx(1.0), fx(2.0), fx(0.0)).raw(), SCALE);
    assert_eq!(smooth_union(fx(2.0), fx(1.0), fx(0.0)).raw(), SCALE);
    assert_eq!(smooth_union(fx(2.0), fx(2.0), fx(0.0)).raw(), 2 * SCALE);
}

#[test]
fn smooth_union_stays_within_the_factor_of_the_union() {
    let k = 0.3;
    let mut a = -2.0f64;
    while a < 2.0 {
        let mut b = -2.0f64;
        while b < 2.0 {
            let s = smooth_union(fx(a), fx(b), fx(k)).raw();
            let m = fx(a).raw().min(fx(b).raw());
            assert!((s - m).abs() <= fx(k).raw() + 1);
            assert!(s <= m + 1);
            b += 0.173;
        }
        a += 0.211;
    }
}

#[test]
fn group_folds_from_the_first_child() {
    let g = GroupPrimitive::new_subtraction(vec![
        sphere(2.0, 0.0, 0.0, 0.0),
        sphere(1.0, 0.0, 0.0, 0.0),
        sphere(1.0, 3.0, 0.0, 0.0),
    ]);
    // -(1.5 - 2) = 0.5, then max with 0.5 and with 1.5 - 1... at x = 1.5: |1.5 - 3| - 1 = 0.5
    assert_eq!(g._map_primitive(v3(1.5, 0.0, 0.0)).distance.raw(), SCALE / 2);
    // at the origin: -(0 - 2) = 2, max(2, -1) = 2, max(2, 2) = 2
    assert_eq!(g._map_primitive(v3(0.0, 0.0, 0.0)).distance.raw(), 2 * SCALE);
    let swapped = GroupPrimitive::new_subtraction(vec![
        sphere(1.0, 0.0, 0.0, 0.0),
        sphere(2.0, 0.0, 0.0, 0.0),
    ]);
    // max(-(0 - 1), 0 - 2) = 1: the order of the children matters
    assert_eq!(swapped._map_primitive(v3(0.0, 0.0, 0.0)).distance.raw(), SCALE);
}

#[test]
fn group_without_children_reports_nothing() {
    let g = GroupPrimitive::new_union(Vec::new());
    let r = g._map_primitive(v3(1.0, 2.0, 3.0));
    assert_eq!(r.distance.raw(), LIMIT);
    assert_eq!(r.material.albedo.raw(), SCALE);
    let one = GroupPrimitive::new_intersection(vec![sphere(1.0, 0.0, 0.0, 0.0)]);
    assert_eq!(one._map_primitive(v3(3.0, 0.0, 0.0)).distance.raw(), 2 * SCALE);
}

#[test]
fn groups_nest() {
    let inner = Primitive::Group(GroupPrimitive::new_union(vec![
        sphere(1.0, -2.0, 0.0, 0.0),
        sphere(1.0, 2.0, 0.0, 0.0),
    ]));
    let outer = Primitive::Group(GroupPrimitive::new_intersection(vec![
        inner,
        sphere(5.0, 0.0, 0.0, 0.0),
    ]));
    // union gives 1, the big sphere gives -5: the intersection is the larger
    assert_eq!(outer.map_primitive(v3(0.0, 0.0, 0.0)).distance.raw(), SCALE);
    assert_eq!(outer.map_primitive(v3(7.0, 0.0, 0.0)).distance.raw(), 4 * SCALE);
}

#[test]
fn repetition_folds_space_into_one_cell() {
    let m = Repetition::new(c(4.0));
    let p = m.modify(v3(5.0, 1.0, -1.0));
    assert_eq!(p[0].raw(), SCALE);
    assert_eq!(p[1].raw(), SCALE);
    // the remainder keeps the sign of what is divided: (-1 + 2) rem 4 - 2 = -1
    assert_eq!(p[2].raw(), -SCALE);
    // below minus half a period the remainder is negative: (-3 + 2) rem 4 - 2 = -3
    assert_eq!(m.modify(v3(-3.0, 0.0, 0.0))[0].raw(), -3 * SCALE);
}

#[test]
fn limited_repetition_stops_at_its_limit() {
    let m = RepetitionLimited::new(c(2.0), [c(1.0), c(1.0), c(0.0)]);
    // trunc(5 / 2) = 2, clamped to 1: 5 - 2 * 1
    let p = m.modify(v3(5.0, -5.0, 5.0));
    assert_eq!(p[0].raw(), 3 * SCALE);
    assert_eq!(p[1].raw(), -3 * SCALE);
    assert_eq!(p[2].raw(), 5 * SCALE);
    assert_eq!(m.modify(v3(0.5, 0.0, 0.0))[0].raw(), SCALE / 2);
}

#[test]
fn round_makes_a_shell() {
    let r = Round::new(fx(0.25));
    assert_eq!(r.modify(fx(-1.0)).raw(), 750_000_000);
    assert_eq!(r.modify(fx(0.1)).raw(), -150_000_000);
}

#[test]
fn twist_and_bend_turn_with_a_coordinate() {
    let (x, y, z) = (0.7f64, 0.4f64, -0.3f64);
    let t = Twist::new(c(1.5)).modify(v3(x, y, z));
    let (co, si) = ((1.5 * y).cos(), (1.5 * y).sin());
    assert!((fl(t[0]) - (co * x - si * z)).abs() < 1e-7);
    assert!((fl(t[1]) - (si * x + co * z)).abs() < 1e-7);
    assert_eq!(t[2].raw(), fx(y).raw());
    let b = Bend::new(c(2.0)).modify(v3(x, y, z));
    let (co, si) = ((2.0 * x).cos(), (2.0 * x).sin());
    assert!((fl(b[0]) - (co * x - si * y)).abs() < 1e-7);
    assert!((fl(b[1]) - (si * x + co * y)).abs() < 1e-7);
    assert_eq!(b[2].raw(), fx(z).raw());
}

#[test]
fn distort_adds_one_offset_to_every_coordinate() {
    let d = Distort::new(c(1.1), [c(0.1), c(0.2), c(0.3)], c(2.2));
    let (x, y, z) = (0.5f64, -0.25f64, 1.5f64);
    let m = (2.2 * x + 0.1).sin() * (2.2 * y + 0.2).sin() * (2.2 * z + 0.3).sin() * 1.1;
    let p = d.modify(v3(x, y, z));
    assert!((fl(p[0]) - (x + m)).abs() < 1e-7);
    assert!((fl(p[1]) - (y + m)).abs() < 1e-7);
    assert!((fl(p[2]) - (z + m)).abs() < 1e-7);
}

#[test]
fn warps_apply_in_order() {
    let chain = vec![
        PosModifier::Repetition(Repetition::new(c(4.0))),
        PosModifier::RepetitionLimited(RepetitionLimited::new(c(1.0), [c(0.0), c(0.0), c(0.0)])),
    ];
    let s = Primitive::Sphere(Sphere::new(c(0.5), mat_identity(), None, chain, None));
    // (5, 0, 0) folds to (1, 0, 0); the second warp has limit zero and leaves it
    assert_eq!(s.map_primitive(v3(5.0, 0.0, 0.0)).distance.raw(), SCALE / 2);
}

fn bulb_by_floats(pos: [f64; 3], pow: f64) -> (f64, u32) {
    let mut z = pos;
    let mut dr = 1.0f64;
    let mut r = 0.0f64;
    let mut iterations = 0;
    for i in 0..15 {
        iterations = i;
        r = (z[0] * z[0] + z[1] * z[1] + z[2] * z[2]).sqrt();
        if r > 2.0 {
            break;
        }
        let theta = (z[2] / r).acos() * pow;
        let phi = z[1].atan2(z[0]) * pow;
        dr = r.powf(pow - 1.0) * pow * dr + 1.0;
        let zr = r.powf(pow);
        z = [
            theta.sin() * phi.cos() * zr + pos[0],
            phi.sin() * theta.sin() * zr + pos[1],
            theta.cos() * zr + pos[2],
        ];
    }
    (0.5 * r.ln() * r / dr, iterations)
}

#[test]
fn bulb_far_away_escapes_at_once() {
    let b = Mandelbulb::new(c(8.0), mat_identity(), None, Vec::new());
    let r = b._map_primitive(v3(3.0, 0.0, 0.0));
    let want = 0.5 * 3.0f64.ln() * 3.0;
    assert!((fl(r.distance) - want).abs() < 1e-7);
    assert_eq!(r.fractal_data[0].raw(), 0);
    assert_eq!(r.fractal_data[3].raw(), 0);
}

#[test]
fn bulb_estimate_matches_the_iteration() {
    for pos in [[1.2, 0.3, 0.4], [0.9, 0.9, 0.2], [1.0, 0.0, 1.0], [1.5, 0.1, -0.2], [-1.1, 0.6, 0.6]] {
        let (want, iterations) = bulb_by_floats(pos, 8.0);
        let b = Mandelbulb::new(c(8.0), mat_identity(), None, Vec::new());
        let r = b._map_primitive(v3(pos[0], pos[1], pos[2]));
        assert_eq!(r.fractal_data[0].raw(), iterations as i64 * SCALE, "{:?}", pos);
        assert_eq!(r.fractal_data[1].raw(), r.fractal_data[2].raw());
        assert!((fl(r.distance) - want).abs() < 1e-5 * want.abs().max(1.0), "{:?}: {} {}", pos, fl(r.distance), want);
    }
}

#[test]
fn bulb_at_the_origin_is_infinitely_far() {
    let b = Mandelbulb::new(c(8.0), mat_identity(), None, Vec::new());
    let r = b._map_primitive(v3(0.0, 0.0, 0.0));
    assert_eq!(r.distance.raw(), LIMIT);
    assert_eq!(r.fractal_data[0].raw(), 14 * SCALE);
}

fn julia_by_floats(pos: [f64; 3], c: [f64; 4]) -> (f64, [f64; 4]) {
    let mut z = [pos[0], pos[1], pos[2], 0.0];
    let dot = |z: [f64; 4]| z[0] * z[0] + z[1] * z[1] + z[2] * z[2] + z[3] * z[3];
    let mut md2 = 1.0f64;
    let mut mz2 = dot(z);
    let mut trap = [z[0].abs(), z[1].abs(), z[2].abs(), mz2];
    for _ in 0..11 {
        md2 *= 4.0 * mz2;
        z = [
            z[0] * z[0] - z[1] * z[1] - z[2] * z[2] - z[3] * z[3] + c[0],
            2.0 * z[0] * z[1] + c[1],
            2.0 * z[0] * z[2] + c[2],
            2.0 * z[0] * z[3] + c[3],
        ];
        trap = [
            trap[0].min(z[0].abs()),
            trap[1].min(z[1].abs()),
            trap[2].min(z[2].abs()),
            trap[3].min(dot(z)),
        ];
        mz2 = dot(z);
        if mz2 > 4.0 {
            break;
        }
    }
    (0.25 * (mz2 / md2).sqrt() * mz2.ln(), trap)
}

#[test]
fn julia_estimate_matches_the_iteration() {
    let k = [-0.2, 0.6, 0.2, 0.1];
    for pos in [[1.5, 0.2, 0.1], [1.1, 0.8, -0.3], [0.2, 1.4, 0.9], [2.5, 0.0, 0.0]] {
        let (want, trap) = julia_by_floats(pos, k);
        let j = Julia::new([c(k[0]), c(k[1]), c(k[2]), c(k[3])], mat_identity(), None, Vec::new());
        let r = j._map_primitive(v3(pos[0], pos[1], pos[2]));
        assert!((fl(r.distance) - want).abs() < 1e-6, "{:?}: {} {}", pos, fl(r.distance), want);
        for i in 0..4 {
            assert!((fl(r.fractal_data[i]) - trap[i]).abs() < 1e-6, "{:?} trap {}", pos, i);
        }
    }
}

#[test]
fn julia_at_a_fixed_point_of_zero_is_infinitely_far() {
    let j = Julia::new([c(0.0), c(0.0), c(0.0), c(0.0)], mat_identity(), None, Vec::new());
    assert_eq!(j._map_primitive(v3(0.0, 0.0, 0.0)).distance.raw(), LIMIT);
}

#[test]
fn evaluate_takes_values_from_their_slots() {
    let mut s = Primitive::Sphere(Sphere::new(
        Param::animated(1, fx(1.0)),
        mat_identity(),
        Some(0),
        Vec::new(),
        Some(Material::new(Param::animated(0, fx(0.5)), c(0.2), c(0.8), c(10.0))),
    ));
    assert_eq!(s.map_primitive(v3(4.0, 0.0, 0.0)).distance.raw(), 3 * SCALE);
    let snapshot = Snapshot::new(vec![fx(0.9), fx(2.0)], vec![moved_to(1.0, 0.0, 0.0)]);
    s.evaluate(&snapshot);
    let r = s.map_primitive(v3(4.0, 0.0, 0.0));
    assert_eq!(r.distance.raw(), SCALE);
    assert_eq!(r.material.albedo.raw(), fx(0.9).raw());
    assert_eq!(r.material.specular.raw(), fx(0.2).raw());
    // a second time with the same snapshot changes nothing
    s.evaluate(&snapshot);
    let again = s.map_primitive(v3(4.0, 0.0, 0.0));
    assert_eq!(again.distance.raw(), r.distance.raw());
    assert_eq!(again.material.albedo.raw(), r.material.albedo.raw());
    // a slot that the snapshot lacks leaves the value as it is
    s.evaluate(&Snapshot::new(Vec::new(), Vec::new()));
    assert_eq!(s.map_primitive(v3(4.0, 0.0, 0.0)).distance.raw(), SCALE);
}

#[test]
fn evaluate_reaches_children_and_the_smoothing_factor() {
    let child = |slot: usize| {
        Primitive::Sphere(Sphere::new(Param::animated(slot, fx(1.0)), mat_identity(), None, Vec::new(), None))
    };
    let mut g = Primitive::Group(GroupPrimitive::new_union_smooth(
        vec![child(0), child(1)],
        Param::animated(2, fx(0.5)),
    ));
    assert_eq!(g.map_primitive(v3(2.0, 0.0, 0.0)).distance.raw(), 875_000_000);
    g.evaluate(&Snapshot::new(vec![fx(1.5), fx(1.5), fx(1.0)], Vec::new()));
    // both children at 0.5, factor 1: 0.5 - 1 / 4
    assert_eq!(g.map_primitive(v3(2.0, 0.0, 0.0)).distance.raw(), 250_000_000);
    match &g {
        Primitive::Group(inner) => assert_eq!(inner.prims.len(), 2),
        _ => panic!("the group is still a group"),
    }
}

#[test]
fn materials_have_their_defaults() {
    let base = Material::new_base().snapshot();
    assert_eq!(base.albedo.raw(), 180_000_000);
    assert_eq!(base.specular.raw(), 200_000_000);
    assert_eq!(base.diffuse.raw(), 800_000_000);
    assert_eq!(base.n_specular.raw(), 10 * SCALE);
    let direct = Material::new_direct().snapshot();
    assert_eq!(direct.albedo.raw(), SCALE);
    assert_eq!(direct.specular.raw(), 0);
    assert_eq!(direct.diffuse.raw(), SCALE);
    assert_eq!(direct.n_specular.raw(), 0);
}

#[test]
fn smooth_union_does_not_rise_above_the_union() {
    let values = [-3.0, -0.7, 0.0, 0.2, 1.0, 1.3, 2.5];
    let factors = [0.0, 0.1, 0.5, 2.0, 7.0];
    for a in values {
        for c in values {
            for k in factors {
                let r = smooth_union(fx(a), fx(c), fx(k)).raw();
                let least = fx(a).raw().min(fx(c).raw());
                assert!(r <= least + fx(k).raw() / SCALE + 3);
                assert!(r >= least - fx(k).raw() - 1);
            }
        }
    }
}

#[test]
fn smooth_union_outside_the_band_is_the_union() {
    // the difference is the factor and two raw units
    let k = Fixed::from_raw(1_000_000_001);
    let a = Fixed::from_raw(5);
    let far = Fixed::from_raw(5 + 1_000_000_003);
    assert_eq!(smooth_union(a, far, k).raw(), 5);
    assert_eq!(smooth_union(far, a, k).raw(), 5);
    // an odd difference equal to the factor lies one raw unit off
    let on = Fixed::from_raw(1_000_000_001);
    assert_eq!(smooth_union(Fixed::from_raw(0), on, k).raw(), 1);
}
