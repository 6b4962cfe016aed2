use raymarch::configuration::Tunables;
use raymarch::fixed::{Fixed, LIMIT, SCALE};
use raymarch::helpers::mat_identity;
use raymarch::parameter::Param;
use raymarch::primitive::{GroupPrimitive, Primitive, Sphere};
use raymarch::solver::{GeneralSolver, Ray};

fn fx(v: f64) -> Fixed {
    Fixed::from_raw((v * SCALE as f64).round() as i64)
}

fn v3(x: f64, y: f64, z: f64) -> [Fixed; 3] {
    [fx(x), fx(y), fx(z)]
}

/// Inverse of the transform that moves the origin to `(x, y, z)`.
fn moved_to(x: f64, y: f64, z: f64) -> [[Fixed; 4]; 4] {
    let mut m = mat_identity();
    m[3][0] = fx(-x);
    m[3][1] = fx(-y);
    m[3][2] = fx(-z);
    m
}

fn sphere(rad: f64, x: f64, y: f64, z: f64) -> Primitive {
    Primitive::Sphere(Sphere::new(
        Param::constant(fx(rad)),
        moved_to(x, y, z),
        None,
        Vec::new(),
        None,
    ))
}

#[test]
fn sphere_is_hit_head_on() {
    let solver = GeneralSolver::new(vec![sphere(2.0, 0.0, 0.0, 0.0)]);
    let ray = Ray { origin: v3(0.0, 0.0, 10.0), direction: v3(0.0, 0.0, -1.0) };
    let i = solver.solve(ray);
    assert!(i.hit);
    assert!(i.steps <= 5);
    assert_eq!(i.steps, 1);
    assert_eq!(i.dist.raw(), 8 * SCALE);
    let tolerance = solver.tunables.min_dist.raw();
    assert!((i.position[0].raw()).abs() <= tolerance);
    assert!((i.position[1].raw()).abs() <= tolerance);
    assert!((i.position[2].raw() - 2 * SCALE).abs() <= tolerance);
    assert!((i.normal[0].raw()).abs() <= 1000);
    assert!((i.normal[1].raw()).abs() <= 1000);
    assert!((i.normal[2].raw() - SCALE).abs() <= 1000);
    assert_eq!(i.material.albedo.raw(), SCALE);
    assert_eq!(i.material.specular.raw(), 0);
}

#[test]
fn union_of_two_spheres_is_the_nearer() {
    let group = GroupPrimitive::new_union(vec![
        sphere(1.0, -2.0, 0.0, 0.0),
        sphere(1.0, 2.0, 0.0, 0.0),
    ]);
    let r = Primitive::Group(group).map_primitive(v3(0.0, 0.0, 0.0));
    assert_eq!(r.distance.raw(), SCALE);
}

#[test]
fn smooth_union_of_two_spheres_dips_below_the_union() {
    let group = GroupPrimitive::new_union_smooth(
        vec![sphere(1.0, -2.0, 0.0, 0.0), sphere(1.0, 2.0, 0.0, 0.0)],
        Param::constant(fx(0.5)),
    );
    let r = Primitive::Group(group).map_primitive(v3(0.0, 0.0, 0.0));
    assert!(r.distance.raw() < SCALE);
    // h = 1/2, so the blend is 1 - k / 4 = 0.875
    assert_eq!(r.distance.raw(), 875_000_000);
}

#[test]
fn subtraction_turns_the_first_child_inside_out() {
    let group = GroupPrimitive::new_subtraction(vec![
        sphere(2.0, 0.0, 0.0, 0.0),
        sphere(1.0, 0.0, 0.0, 0.0),
    ]);
    let node = Primitive::Group(group);
    assert_eq!(node.map_primitive(v3(1.5, 0.0, 0.0)).distance.raw(), 500_000_000);
    assert_eq!(node.map_primitive(v3(0.0, -1.5, 0.0)).distance.raw(), 500_000_000);
}

#[test]
fn empty_scene_is_an_immediate_miss() {
    let solver = GeneralSolver::new(Vec::new());
    let i = solver.solve(Ray { origin: v3(1.0, 2.0, 3.0), direction: v3(0.0, 1.0, 0.0) });
    assert!(!i.hit);
    assert_eq!(i.steps, 0);
    assert_eq!(i.dist.raw(), 0);
    assert_eq!(solver._map_world(v3(0.0, 0.0, 0.0)).distance.raw(), LIMIT);
    let s = solver.solve_simple(
        Ray { origin: v3(1.0, 2.0, 3.0), direction: v3(0.0, 1.0, 0.0) },
        fx(5.0),
    );
    assert!(!s.hit);
    assert_eq!(s.steps, 0);
    assert_eq!(s.dist.raw(), 0);
}

#[test]
fn ray_pointing_away_escapes() {
    let solver = GeneralSolver::new(vec![sphere(1.0, 0.0, 0.0, 0.0)]);
    let i = solver.solve(Ray { origin: v3(0.0, 0.0, 10.0), direction: v3(0.0, 0.0, 1.0) });
    assert!(!i.hit);
    assert!(i.steps < solver.tunables.step_number);
    // 9, 18, 36, 72, 144, 288 are travelled; at 576 the field is out of range
    assert_eq!(i.steps, 6);
    assert_eq!(i.dist.raw(), 567 * SCALE);
    assert_eq!(i.normal[2].raw(), 0);
}

#[test]
fn march_that_runs_out_of_steps_is_a_miss() {
    let mut t = Tunables::new();
    t.step_number = 3;
    t.min_dist = Fixed::from_raw(0);
    let solver = GeneralSolver::with_tunables(vec![sphere(1.0, 0.0, 0.0, 0.0)], t);
    // with a threshold of zero the surface is approached but never hit
    let i = solver.solve(Ray { origin: v3(0.0, 0.0, 3.0), direction: v3(0.0, 0.0, -1.0) });
    assert!(!i.hit);
    assert_eq!(i.steps, 3);
    assert_eq!(i.dist.raw(), 2 * SCALE);
}

#[test]
fn shadow_ray_stops_beyond_the_light() {
    let solver = GeneralSolver::new(vec![sphere(1.0, 0.0, 0.0, 0.0)]);
    let ray = Ray { origin: v3(0.0, 0.0, 10.0), direction: v3(0.0, 0.0, 1.0) };
    // one step of 9 is travelled; then the light at 5 lies behind
    let s = solver.solve_simple(ray, fx(5.0));
    assert!(!s.hit);
    assert_eq!(s.steps, 1);
    assert_eq!(s.dist.raw(), 9 * SCALE);
    let towards = Ray { origin: v3(0.0, 0.0, 10.0), direction: v3(0.0, 0.0, -1.0) };
    let h = solver.solve_simple(towards, fx(20.0));
    assert!(h.hit);
    assert_eq!(h.dist.raw(), 9 * SCALE);
}

#[test]
fn what_lies_beyond_the_light_casts_no_shadow() {
    let solver = GeneralSolver::new(vec![sphere(2.0, 0.0, 0.0, 0.0)]);
    let ray = Ray { origin: v3(0.0, 0.0, 10.0), direction: v3(0.0, 0.0, -1.0) };
    // the surface is 8 away and the light 5: one step of 8 passes the light
    let s = solver.solve_simple(ray, fx(5.0));
    assert!(!s.hit);
    assert_eq!(s.steps, 1);
    assert_eq!(s.dist.raw(), 8 * SCALE);
    // with the light behind the surface the same ray is stopped by it
    let behind = solver.solve_simple(ray, fx(8.0));
    assert!(behind.hit);
    assert_eq!(behind.steps, 1);
    assert_eq!(behind.dist.raw(), 8 * SCALE);
    // the primary ray hits the surface as before
    let i = solver.solve(ray);
    assert!(i.hit);
    assert_eq!(i.dist.raw(), 8 * SCALE);
}

#[test]
fn a_march_stays_on_its_ray() {
    let solver = GeneralSolver::new(vec![sphere(1.0, 3.0, -2.0, 0.5)]);
    let origin = v3(-4.0, 5.0, 9.0);
    let direction = raymarch::helpers::vec3_normalized(v3(7.0, -7.0, -8.5));
    let i = solver.solve(Ray { origin, direction });
    assert!(i.hit);
    for axis in 0..3 {
        let along = (direction[axis].raw() as i128) * (i.dist.raw() as i128);
        let moved = ((i.position[axis].raw() - origin[axis].raw()) as i128) * (SCALE as i128);
        assert!(moved <= along);
        assert!(along - (i.steps as i128) * (SCALE as i128) <= moved);
    }
}

#[test]
fn the_first_of_equally_near_fields_decides() {
    let red = raymarch::primitive::Material::new(
        Param::constant(fx(0.3)),
        Param::constant(fx(0.0)),
        Param::constant(fx(1.0)),
        Param::constant(fx(0.0)),
    );
    let first = Primitive::Sphere(Sphere::new(
        Param::constant(fx(1.0)),
        moved_to(0.0, 0.0, 0.0),
        None,
        Vec::new(),
        Some(red),
    ));
    let solver = GeneralSolver::new(vec![sphere(0.5, 0.0, 0.0, 0.0), first, sphere(1.0, 0.0, 0.0, 0.0)]);
    let s = solver._map_world(v3(0.0, 0.0, 4.0));
    assert_eq!(s.distance.raw(), 3 * SCALE);
    assert_eq!(s.material.albedo.raw(), 300_000_000);
}
