use raymarch::animation::{Animation, Source};
use raymarch::cameras::Camera;
use raymarch::evaluator::Evaluator;
use raymarch::fixed::{Fixed, SCALE};
use raymarch::helpers::mat_identity;
use raymarch::light::Light;
use raymarch::primitive::Primitive;
use raymarch::renderers::Renderer;
use raymarch::scene::{
    convert_scene, JsonAnimationFloat, JsonCamera, JsonScene, JsonSceneGroupModifier,
    JsonSceneObject,
};
use raymarch::setup::{bulb_renderer, scene_renderer};
use raymarch::shader::{BackgroundShader, Shader};
use raymarch::transition::Transition;

fn fx(v: f64) -> Fixed {
    Fixed::from_raw((v * SCALE as f64).round() as i64)
}

fn plain(v: f64) -> JsonAnimationFloat {
    JsonAnimationFloat { keyframes: None, value: fx(v) }
}

fn ball(x: f64, radius: f64) -> JsonSceneObject {
    JsonSceneObject {
        position: [plain(x), plain(0.0), plain(0.0)],
        rotation: [plain(0.0), plain(0.0), plain(0.0)],
        scale: [plain(1.0), plain(1.0), plain(1.0)],
        prim_type: 1,
        values: std::array::from_fn(|i| plain(if i == 0 { radius } else { 0.0 })),
        modifiers: Vec::new(),
    }
}

#[test]
fn the_bulb_renderer_brings_its_animation() {
    let mut a = Animation::new();
    let r = bulb_renderer(&mut a);
    let raws: Vec<i64> = a.scalars.iter().map(|v| v.raw()).collect();
    assert_eq!(
        raws,
        vec![
            2_600_000_000,
            9_000_000_000,
            9_000_000_000,
            300_000_000,
            300_000_000,
            300_000_000,
            300_000_000,
            1_000_000_000,
            3_000_000_000,
            -45_000_000_000
        ]
    );
    assert_eq!(a.manager.evaluators.len(), 10);
    let slots: Vec<usize> = a.manager.evaluators.iter().map(|e| e.pointer).collect();
    assert_eq!(slots, vec![0, 1, 2, 3, 4, 5, 6, 7, 8, 9]);
    assert_eq!(a.sources.len(), 2);
    assert!(matches!(a.sources[0], Source::Rotation(_)));
    assert!(matches!(a.sources[1], Source::Transformation(_, _, _)));
    assert!(r.shader_suits());
    assert!(r.film().well_formed());
    match &r {
        Renderer::Solver(s) => {
            assert!(matches!(s.shader, Shader::Fractal(_)));
            assert_eq!(s.solver.primitives.len(), 1);
            match &s.solver.primitives[0] {
                Primitive::Mandelbulb(b) => {
                    assert_eq!(b.power.slot, Some(1));
                    assert_eq!(b.primtive_data.transform_slot, Some(1));
                }
                _ => panic!("a bulb was expected"),
            }
            match &s.camera {
                Camera::Pinhole(c) => {
                    assert_eq!(c.pos[2].slot, Some(0));
                    assert_eq!(c.transform_slot, Some(0));
                    assert_eq!(c.mat_inv[1][1].raw(), SCALE);
                    assert_eq!(c.mat_inv[0][1].raw(), 0);
                }
                _ => panic!("a pinhole camera was expected"),
            }
        }
        _ => panic!("the renderer without lights was expected"),
    }
}

#[test]
fn the_bulb_renderer_follows_the_time() {
    let mut a = Animation::new();
    let mut r = bulb_renderer(&mut a);
    a.advance(fx(0.0));
    // at the start the camera stands at its far end and the bulb has its least power
    assert_eq!(a.scalars[0].raw(), 2_600_000_000);
    assert_eq!(a.scalars[1].raw(), 600_000_000);
    assert_eq!(a.scalars[2].raw(), 160_000_000_000);
    assert_eq!(a.scalars[3].raw(), 1_000_000_000);
    assert_eq!(a.scalars[4].raw(), 1_000_000_000);
    assert_eq!(a.scalars[5].raw(), 0);
    assert_eq!(a.scalars[9].raw(), -45_000_000_000);
    let snapshot = a.snapshot(vec![mat_identity(), mat_identity()]);
    r.evaluate(&snapshot);
    match &r {
        Renderer::Solver(s) => match &s.solver.primitives[0] {
            Primitive::Mandelbulb(b) => assert_eq!(b.power.get().raw(), 600_000_000),
            _ => panic!("a bulb was expected"),
        },
        _ => panic!("the renderer without lights was expected"),
    }
    assert!(r.shader_suits());
    assert!(r.film().well_formed());
}

#[test]
fn the_scene_renderer_is_lit_by_two_lights() {
    let mut a = Animation::new();
    let json = JsonScene {
        objects: vec![ball(-1.0, 1.0), ball(1.0, 1.0), ball(0.0, 0.5)],
        group_modifiers: vec![JsonSceneGroupModifier {
            prim0: 0,
            prim1: 1,
            prim2: -1,
            prim3: -1,
            prim_attribute: plain(0.2),
            modifier: 1,
        }],
        camera: JsonCamera {
            cam_pos: [plain(0.0), plain(0.0), plain(-5.0)],
            cam_py: [plain(10.0), plain(20.0)],
        },
    };
    let scene = convert_scene(&json, &mut a);
    assert!(scene.well_formed());
    let r = scene_renderer(&scene, &mut a);
    assert_eq!(a.scalars.len(), 0);
    assert_eq!(a.manager.evaluators.len(), 0);
    assert_eq!(a.sources.len(), 4);
    match a.sources[3] {
        Source::Rotation(turn) => {
            assert_eq!(turn[0].get().raw(), 10 * SCALE);
            assert_eq!(turn[1].get().raw(), 20 * SCALE);
            assert_eq!(turn[2].get().raw(), 0);
        }
        _ => panic!("a rotation was expected"),
    }
    assert!(r.shader_suits());
    assert!(r.film().well_formed());
    match &r {
        Renderer::Light(l) => {
            assert!(matches!(l.shader, Shader::Phong(_)));
            assert_eq!(l.solver.primitives.len(), 2);
            assert!(matches!(l.solver.primitives[0], Primitive::Group(_)));
            assert!(matches!(l.solver.primitives[1], Primitive::Sphere(_)));
            assert_eq!(l.lights.len(), 2);
            match &l.lights[0] {
                Light::Directional(d) => {
                    let v: Vec<f64> =
                        d.direction.iter().map(|p| p.get().raw() as f64 / SCALE as f64).collect();
                    let len = (0.25f64 + 0.09 + 1.0).sqrt();
                    assert!((v[0] + 0.5 / len).abs() < 1e-8);
                    assert!((v[1] - 0.3 / len).abs() < 1e-8);
                    assert!((v[2] + 1.0 / len).abs() < 1e-8);
                    assert_eq!(d.intensity.get().raw(), 1_500_000_000);
                }
                _ => panic!("a light from a direction was expected"),
            }
            match &l.lights[1] {
                Light::Point(p) => {
                    assert_eq!(p.position[1].get().raw(), 2_200_000_000);
                    assert_eq!(p.intensity.get().raw(), 100 * SCALE);
                }
                _ => panic!("a light from a point was expected"),
            }
            assert_eq!(l.ambient[0].get().raw(), 10_000_000);
            match &l.camera {
                Camera::Pinhole(c) => {
                    assert_eq!(c.transform_slot, Some(3));
                    assert_eq!(c.pos[2].get().raw(), -5 * SCALE);
                }
                _ => panic!("a pinhole camera was expected"),
            }
        }
        _ => panic!("the renderer with lights was expected"),
    }
}

fn as_float(v: Fixed) -> f64 {
    v.raw() as f64 / SCALE as f64
}

fn inverse(a: &Animation, k: usize) -> [[Fixed; 4]; 4] {
    let m = a.forward(k);
    let f: [[f64; 4]; 4] = std::array::from_fn(|i| std::array::from_fn(|j| as_float(m[i][j])));
    let inv = vecmath::mat4_inv(f);
    std::array::from_fn(|i| std::array::from_fn(|j| fx(inv[i][j])))
}

#[test]
fn the_bulb_renderer_sees_the_bulb() {
    let mut a = Animation::new();
    let mut r = bulb_renderer(&mut a);
    a.advance(fx(2.75));
    // halfway through its swing the bulb has turned right round
    assert_eq!(a.scalars[2].raw(), 180 * SCALE);
    let transforms: Vec<[[Fixed; 4]; 4]> = (0..a.transforms()).map(|k| inverse(&a, k)).collect();
    let snapshot = a.snapshot(transforms);
    r.prepare_render();
    r.evaluate(&snapshot);
    let none = ((fx(0.0), fx(0.0)), (fx(0.0), fx(0.0)));
    match &mut r {
        Renderer::Solver(s) => {
            let middle = s.camera.generate_ray(fx(360.0), fx(240.0), none);
            assert_eq!(middle.origin[2].raw(), a.scalars[0].raw());
            let seen = s.solver.solve(middle);
            assert!(seen.hit);
            assert!(as_float(seen.dist) > 0.5 && as_float(seen.dist) < 2.6);
            let corner = s.camera.generate_ray(fx(0.0), fx(0.0), none);
            let missed = s.solver.solve(corner);
            assert!(!missed.hit);
            s.render_sample(360, 240, none);
            let p = s.film.pixel(360, 240);
            assert!(p[0].raw() >= 0 && p[1].raw() >= 0 && p[2].raw() >= 0);
            assert!(p[0].raw() + p[1].raw() + p[2].raw() > 0);
            assert_eq!(s.film.pixel(361, 240)[0].raw(), 0);
        }
        _ => panic!("the renderer without lights was expected"),
    }
}

#[test]
fn the_bulb_renderer_has_its_writers_and_its_background() {
    let mut a = Animation::new();
    let r = bulb_renderer(&mut a);
    match &a.manager.evaluators[1].evaluator {
        Evaluator::Interpolator(v) => {
            assert_eq!(v.min.raw(), 600_000_000);
            assert_eq!(v.max.raw(), 15 * SCALE);
            assert_eq!(v.interval.raw(), 5_500_000_000);
            assert!(v.oscilate);
            match &v.transition_function {
                Transition::Smoothstep(s) => assert_eq!(s.factor.raw(), SCALE),
                _ => panic!("a smooth curve was expected"),
            }
        }
        _ => panic!("a swing was expected"),
    }
    match &a.manager.evaluators[4].evaluator {
        Evaluator::Combine(c) => {
            assert_eq!(c.evaluators.len(), 2);
            assert_eq!(c.evaluators[0].start.raw(), 0);
            assert_eq!(c.evaluators[0].stop.raw(), 4_500_000_000);
            assert_eq!(c.evaluators[1].start.raw(), 4_500_000_000);
            assert_eq!(c.evaluators[1].stop.raw(), 6 * SCALE);
            match &c.evaluators[0].evaluator {
                Evaluator::Float(v) => assert_eq!(v.value.raw(), SCALE),
                _ => panic!("a held value was expected"),
            }
            match &c.evaluators[1].evaluator {
                Evaluator::Interpolator(v) => {
                    assert_eq!(v.min.raw(), SCALE);
                    assert_eq!(v.max.raw(), 0);
                    assert_eq!(v.interval.raw(), 1_500_000_000);
                }
                _ => panic!("a swing was expected"),
            }
        }
        _ => panic!("two spans were expected"),
    }
    match &a.manager.evaluators[9].evaluator {
        Evaluator::Interpolator(v) => {
            assert_eq!(v.min.raw(), -45 * SCALE);
            assert_eq!(v.max.raw(), 90 * SCALE);
            assert!(matches!(v.transition_function, Transition::Linear(_)));
        }
        _ => panic!("a swing was expected"),
    }
    match &r {
        Renderer::Solver(s) => match &s.shader {
            Shader::Fractal(f) => match &f.background_shader {
                BackgroundShader::LinearY(g) => {
                    let top: Vec<i64> = g.color1.iter().map(|v| v.raw()).collect();
                    let bottom: Vec<i64> = g.color2.iter().map(|v| v.raw()).collect();
                    assert_eq!(top, vec![50_000_000, 20_000_000, 40_000_000]);
                    assert_eq!(bottom, vec![100_000_000, 60_000_000, 60_000_000]);
                }
                _ => panic!("a blend down the image was expected"),
            },
            _ => panic!("the shader of fractals was expected"),
        },
        _ => panic!("the renderer without lights was expected"),
    }
}
