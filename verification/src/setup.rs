//! The two renderers that come ready made: one for a scene as it is
//! described from outside, lit by two lights, and one for a bulb whose
//! power, turn and size swing with time.
//!
//! Every matrix is the identity until the renderer is first refreshed.

use crate::animation::{Animation, Source};
use crate::cameras::{upper_left, Camera, PinholeCamera};
use crate::evaluator::{
    raw_values, CombineEvaluator, CombineEvaluatorInfo, Evaluator, EvaluatorPointer,
    FloatEvaluator, InterpolatorEvaluator,
};
use crate::film::{spec_blank, BasicFilm};
use crate::filter::{ColorShift, ColorShiftMode, Filter, GrayFilter};
use crate::fixed::{saturate, Fixed};
use crate::fractal::Mandelbulb;
use crate::helpers::{mat_identity, point_of, spec_normalized, vec3_normalized, Point};
use crate::light::{values_of, DirectionalLight, Light, PointLight};
use crate::parameter::Param;
use crate::postprocessor::{BloomPostProcessor, PostProcessor};
use crate::primitive::Primitive;
use crate::renderers::{LightRenderer, Renderer, SolverRenderer};
use crate::sampler::JitterSampler;
use crate::scene::Scene;
use crate::shader::{BackgroundLinearYGradient, BackgroundShader, FractalShader, PhongShader, Shader};
use crate::solver::GeneralSolver;
use crate::transition::{Linear, Smoothstep, Transition};
use vstd::prelude::*;

verus! {

/// Whether a matrix of three rows is the identity.
pub open spec fn spec_unturned(m: [[Fixed; 3]; 3]) -> bool {
    forall|i: int, j: int|
        0 <= i < 3 && 0 <= j < 3 ==> (#[trigger] m[i][j])@ == (if i == j {
            crate::fixed::SCALE as int
        } else {
            0
        })
}

/// Three attributes that never change, from raw values.
fn constants(x: i64, y: i64, z: i64) -> (r: [Param; 3])
    ensures
        r[0].value@ == crate::fixed::saturate(x as int),
        r[1].value@ == crate::fixed::saturate(y as int),
        r[2].value@ == crate::fixed::saturate(z as int),
        r[0].slot.is_none() && r[1].slot.is_none() && r[2].slot.is_none(),
{
    [
        Param::constant(Fixed::from_raw(x)),
        Param::constant(Fixed::from_raw(y)),
        Param::constant(Fixed::from_raw(z)),
    ]
}

/// Whether `b` is the background of both renderers: a blend down the
/// image from (0.05, 0.02, 0.04) at the top to (0.1, 0.06, 0.06) at the
/// bottom.
pub open spec fn spec_backdrop(b: BackgroundShader) -> bool {
    match b {
        BackgroundShader::LinearY(g) => {
            &&& point_of(g.color1) == (Point { x: 50_000_000, y: 20_000_000, z: 40_000_000 })
            &&& point_of(g.color2) == (Point { x: 100_000_000, y: 60_000_000, z: 60_000_000 })
        },
        _ => false,
    }
}

/// The background of both renderers: nearly black, a little lighter
/// towards the bottom.
fn background() -> (r: BackgroundShader)
    ensures
        spec_backdrop(r),
{
    BackgroundShader::LinearY(
        BackgroundLinearYGradient::new(
            [Fixed::from_raw(50_000_000), Fixed::from_raw(20_000_000), Fixed::from_raw(40_000_000)],
            [Fixed::from_raw(100_000_000), Fixed::from_raw(60_000_000), Fixed::from_raw(60_000_000)],
        ),
    )
}

/// Whether `e` swings from `min` to `max` and back, `interval` seconds
/// each way, along the smooth curve of the order `factor`, in raw values.
pub open spec fn spec_swings(e: Evaluator, min: int, max: int, interval: int, factor: int) -> bool {
    match e {
        Evaluator::Interpolator(v) => {
            &&& v.min@ == min
            &&& v.max@ == max
            &&& v.interval@ == interval
            &&& v.oscilate
            &&& match v.transition_function {
                Transition::Smoothstep(curve) => curve.factor@ == factor,
                _ => false,
            }
        },
        _ => false,
    }
}

/// Whether `e` holds the value `v`, in raw values, at every time.
pub open spec fn spec_holds(e: Evaluator, v: int) -> bool {
    match e {
        Evaluator::Float(held) => held.value@ == v,
        _ => false,
    }
}

/// Whether `e` is put together from two spans, the first from `start` to
/// `split` seconds and the second from there to `stop`, in raw values.
pub open spec fn spec_relays(e: Evaluator, start: int, split: int, stop: int) -> bool {
    match e {
        Evaluator::Combine(c) => {
            &&& c.evaluators@.len() == 2
            &&& c.evaluators@[0].start@ == start
            &&& c.evaluators@[0].stop@ == split
            &&& c.evaluators@[1].start@ == split
            &&& c.evaluators@[1].stop@ == stop
        },
        _ => false,
    }
}

/// What decides within the span `i` of an evaluator put together from
/// spans; any other evaluator itself.
pub open spec fn spec_part(e: Evaluator, i: int) -> Evaluator {
    match e {
        Evaluator::Combine(c) => c.evaluators@[i].evaluator,
        _ => e,
    }
}

/// A value that swings smoothly from `min` to `max` and back, `interval`
/// seconds each way, from raw values.
fn swing(min: i64, max: i64, interval: i64, factor: i64) -> (r: Evaluator)
    ensures
        spec_swings(
            r,
            saturate(min as int),
            saturate(max as int),
            saturate(interval as int),
            saturate(factor as int),
        ),
{
    Evaluator::Interpolator(
        InterpolatorEvaluator::new_get(
            Fixed::from_raw(min),
            Fixed::from_raw(max),
            Fixed::from_raw(interval),
            true,
            Transition::Smoothstep(Smoothstep::new(Fixed::from_raw(factor))),
        ),
    )
}

/// One evaluator from `start` to `split` seconds and another from there
/// to `stop`, from raw values.
fn relay(start: i64, split: i64, stop: i64, first: Evaluator, second: Evaluator) -> (r: Evaluator)
    ensures
        spec_relays(r, saturate(start as int), saturate(split as int), saturate(stop as int)),
        spec_part(r, 0) == first,
        spec_part(r, 1) == second,
{
    let mut parts: Vec<CombineEvaluatorInfo> = Vec::new();
    parts.push(CombineEvaluatorInfo::new(Fixed::from_raw(start), Fixed::from_raw(split), first));
    parts.push(CombineEvaluatorInfo::new(Fixed::from_raw(split), Fixed::from_raw(stop), second));
    Evaluator::Combine(CombineEvaluator::new_get(parts))
}

/// A new value of the animation that starts at `start` and is written by
/// `evaluator` from now on.
fn animated(animation: &mut Animation, start: i64, evaluator: Evaluator) -> (r: Param)
    ensures
        r.slot == Some(old(animation).scalars@.len() as usize),
        r.value@ == crate::fixed::saturate(start as int),
        final(animation).scalars@ == old(animation).scalars@.push(r.value),
        final(animation).manager.evaluators@ == old(animation).manager.evaluators@.push(
            EvaluatorPointer { pointer: old(animation).scalars@.len() as usize, evaluator },
        ),
        final(animation).manager.evaluators@.last().pointer == old(animation).scalars@.len(),
        final(animation).sources == old(animation).sources,
{
    let next: usize = animation.scalars.len();
    let p: Param = animation.value(Fixed::from_raw(start));
    animation.animate(p, evaluator);
    p
}

/// Whether `lights` and `ambient` light a described scene: a reddish
/// light of the strength 1.5 along the unit vector of (-0.5, 0.3, -1), a
/// greenish light of the strength 100 at the point (0, 2.2, 1), neither of
/// them animated, and an ambient light of 0.01 in every channel.
pub open spec fn spec_scene_lights(lights: Seq<Light>, ambient: [Param; 3]) -> bool {
    &&& lights.len() == 2
    &&& match lights[0] {
        Light::Directional(d) => {
            &&& values_of(d.direction) == spec_normalized(
                Point { x: -500_000_000, y: 300_000_000, z: -1_000_000_000 },
            )
            &&& values_of(d.color) == (Point { x: 1_000_000_000, y: 200_000_000, z: 200_000_000 })
            &&& d.intensity.value@ == 1_500_000_000
            &&& spec_unbound(d.direction) && spec_unbound(d.color) && d.intensity.slot.is_none()
        },
        _ => false,
    }
    &&& match lights[1] {
        Light::Point(l) => {
            &&& values_of(l.position) == (Point { x: 0, y: 2_200_000_000, z: 1_000_000_000 })
            &&& values_of(l.color) == (Point { x: 200_000_000, y: 1_000_000_000, z: 200_000_000 })
            &&& l.intensity.value@ == 100_000_000_000
            &&& spec_unbound(l.position) && spec_unbound(l.color) && l.intensity.slot.is_none()
        },
        _ => false,
    }
    &&& values_of(ambient) == (Point { x: 10_000_000, y: 10_000_000, z: 10_000_000 })
    &&& spec_unbound(ambient)
}

/// Whether none of three attributes has a slot.
pub open spec fn spec_unbound(p: [Param; 3]) -> bool {
    p[0].slot.is_none() && p[1].slot.is_none() && p[2].slot.is_none()
}

/// The renderer for a described scene: a pinhole camera where the scene
/// has its camera, a solver for the fields of the scene as the scene builds
/// them, the shader that waits for lights, one light from a direction and
/// one from a point, and a faint ambient light. The turn of the camera
/// takes the next slot of the transforms; no value is added to the
/// animation.
pub fn scene_renderer(scene: &Scene, animation: &mut Animation) -> (r: Renderer)
    requires
        scene.spec_well_formed(),
    ensures
        r.spec_shader_suits(),
        r.spec_film().spec_well_formed(),
        r.spec_film()@ == spec_blank(),
        r.spec_film().spec_filters().len() == 0,
        r.spec_film().spec_post_processors().len() == 0,
        match r {
            Renderer::Light(l) => {
                &&& spec_backdrop(l.shader.spec_background())
                &&& spec_scene_lights(l.lights@, l.ambient)
                &&& scene.spec_built(l.solver.primitives@)
                &&& match l.camera {
                    Camera::Pinhole(c) => c.pos == scene.camera.cam_pos && c.transform_slot == Some(
                        old(animation).sources@.len() as usize,
                    ) && spec_unturned(c.mat_inv),
                    _ => false,
                }
            },
            _ => false,
        },
        final(animation).scalars == old(animation).scalars,
        final(animation).manager == old(animation).manager,
        final(animation).sources@.len() == old(animation).sources@.len() + 1,
        final(animation).sources@.drop_last() == old(animation).sources@,
        match final(animation).sources@.last() {
            Source::Rotation(turn) => turn[0] == scene.camera.cam_py[0] && turn[1]
                == scene.camera.cam_py[1] && turn[2].slot.is_none() && turn[2].value@ == 0,
            _ => false,
        },
{
    let primitives: Vec<Primitive> = scene.build_primitives();
    let ghost before = animation.sources@;
    let slot: usize = animation.bind(
        Source::Rotation(
            [scene.camera.cam_py[0], scene.camera.cam_py[1], Param::constant(Fixed::zero())],
        ),
    );
    assert(animation.sources@.drop_last() =~= before);
    let camera: Camera = Camera::Pinhole(
        PinholeCamera::new(scene.camera.cam_pos, upper_left(mat_identity()), Some(slot)),
    );
    let film: BasicFilm = BasicFilm::new(Vec::new(), Vec::new());
    let solver: GeneralSolver = GeneralSolver::new(primitives);
    let shader: Shader = Shader::Phong(PhongShader::new(background()));
    let sampler: JitterSampler = JitterSampler::new(Fixed::from_raw(500_000_000));
    let towards: [Fixed; 3] = vec3_normalized(
        [Fixed::from_raw(-500_000_000), Fixed::from_raw(300_000_000), Fixed::from_raw(-1_000_000_000)],
    );
    let mut lights: Vec<Light> = Vec::new();
    lights.push(
        Light::Directional(
            DirectionalLight::new(
                [Param::constant(towards[0]), Param::constant(towards[1]), Param::constant(towards[2])],
                constants(1_000_000_000, 200_000_000, 200_000_000),
                Param::constant(Fixed::from_raw(1_500_000_000)),
            ),
        ),
    );
    lights.push(
        Light::Point(
            PointLight::new(
                constants(0, 2_200_000_000, 1_000_000_000),
                constants(200_000_000, 1_000_000_000, 200_000_000),
                Param::constant(Fixed::from_raw(100_000_000_000)),
            ),
        ),
    );
    Renderer::Light(
        LightRenderer::new(
            camera,
            film,
            solver,
            shader,
            sampler,
            lights,
            constants(10_000_000, 10_000_000, 10_000_000),
        ),
    )
}

/// The values that the renderer of the bulb starts with, in raw values and
/// in the order of their slots: the height of the camera, the power, the
/// turn and the size of the bulb, the strength of the colour and of the
/// grey, the cut, the factor and the size of the bloom, and the turn of
/// the light of the shader.
pub open spec fn spec_bulb_values() -> Seq<int> {
    seq![
        2_600_000_000,
        9_000_000_000,
        9_000_000_000,
        300_000_000,
        300_000_000,
        300_000_000,
        300_000_000,
        1_000_000_000,
        3_000_000_000,
        -45_000_000_000,
    ]
}

/// Whether `w` are the writers of the values of the renderer of the bulb,
/// in the order of the values, the first of which has the slot `slot`.
/// The camera, the power and the turn of the bulb swing; the bulb grows
/// and then shrinks; the colours stay and then fade; the grey is off and
/// then comes; the bloom swings; the light of the shader turns evenly.
pub open spec fn spec_bulb_writers(w: Seq<EvaluatorPointer>, slot: int) -> bool {
    &&& w.len() == 10
    &&& forall|j: int| 0 <= j < 10 ==> (#[trigger] w[j]).pointer == slot + j
    &&& spec_swings(w[0].evaluator, 2_600_000_000, 2_200_000_000, 3_000_000_000, 2_000_000_000)
    &&& spec_swings(w[1].evaluator, 600_000_000, 15_000_000_000, 5_500_000_000, 1_000_000_000)
    &&& spec_swings(
        w[2].evaluator,
        160_000_000_000,
        180_000_000_000,
        2_750_000_000,
        2_000_000_000,
    )
    &&& spec_relays(w[3].evaluator, 0, 4_500_000_000, 6_500_000_000)
    &&& spec_swings(
        spec_part(w[3].evaluator, 0),
        1_000_000_000,
        1_250_000_000,
        4_500_000_000,
        2_000_000_000,
    )
    &&& spec_swings(
        spec_part(w[3].evaluator, 1),
        1_250_000_000,
        250_000_000,
        2_500_000_000,
        1_000_000_000,
    )
    &&& spec_relays(w[4].evaluator, 0, 4_500_000_000, 6_000_000_000)
    &&& spec_holds(spec_part(w[4].evaluator, 0), 1_000_000_000)
    &&& spec_swings(spec_part(w[4].evaluator, 1), 1_000_000_000, 0, 1_500_000_000, 1_000_000_000)
    &&& spec_relays(w[5].evaluator, 0, 3_000_000_000, 6_000_000_000)
    &&& spec_holds(spec_part(w[5].evaluator, 0), 0)
    &&& spec_swings(spec_part(w[5].evaluator, 1), 0, 800_000_000, 3_000_000_000, 2_000_000_000)
    &&& spec_swings(w[6].evaluator, 350_000_000, 300_000_000, 3_000_000_000, 2_000_000_000)
    &&& spec_swings(w[7].evaluator, 1_000_000_000, 2_000_000_000, 3_000_000_000, 2_000_000_000)
    &&& spec_swings(w[8].evaluator, 3_000_000_000, 6_000_000_000, 3_000_000_000, 2_000_000_000)
    &&& match w[9].evaluator {
        Evaluator::Interpolator(v) => {
            &&& v.min@ == -45_000_000_000
            &&& v.max@ == 90_000_000_000
            &&& v.interval@ == 3_000_000_000
            &&& v.oscilate
            &&& v.transition_function is Linear
        },
        _ => false,
    }
}

/// The renderer for the bulb: a pinhole camera that moves back and forth,
/// a bulb whose power, turn and size swing, a film that fades the colours
/// and then greys them and blooms once developed, and the shader of
/// fractals with a light that turns. Ten values are added to the
/// animation, each with its writer, and two transforms: the turn of the
/// camera and then the transform of the bulb.
pub fn bulb_renderer(animation: &mut Animation) -> (r: Renderer)
    ensures
        r.spec_shader_suits(),
        r.spec_film().spec_well_formed(),
        r.spec_film()@ == spec_blank(),
        r.spec_film().spec_filters().len() == 2,
        r.spec_film().spec_post_processors().len() == 1,
        match r {
            Renderer::Solver(s) => {
                &&& s.shader is Fractal
                &&& spec_backdrop(s.shader.spec_background())
                &&& s.solver.primitives@.len() == 1
                &&& match s.solver.primitives@[0] {
                    Primitive::Mandelbulb(b) => {
                        &&& b.power.slot == Some((old(animation).scalars@.len() + 1) as usize)
                        &&& b.primtive_data.transform_slot == Some(
                            (old(animation).sources@.len() + 1) as usize,
                        )
                        &&& b.primtive_data.pos_modifier@.len() == 0
                    },
                    _ => false,
                }
                &&& match s.camera {
                    Camera::Pinhole(c) => c.pos[2].slot == Some(
                        old(animation).scalars@.len() as usize,
                    ) && c.transform_slot == Some(old(animation).sources@.len() as usize)
                        && spec_unturned(c.mat_inv),
                    _ => false,
                }
            },
            _ => false,
        },
        raw_values(final(animation).scalars@) == raw_values(old(animation).scalars@)
            + spec_bulb_values(),
        final(animation).manager.evaluators@.len() == old(animation).manager.evaluators@.len() + 10,
        final(animation).manager.evaluators@.subrange(
            0,
            old(animation).manager.evaluators@.len() as int,
        ) == old(animation).manager.evaluators@,
        spec_bulb_writers(
            final(animation).manager.evaluators@.subrange(
                old(animation).manager.evaluators@.len() as int,
                old(animation).manager.evaluators@.len() as int + 10,
            ),
            old(animation).scalars@.len() as int,
        ),
        final(animation).sources@.len() == old(animation).sources@.len() + 2,
        final(animation).sources@[old(animation).sources@.len() as int] is Rotation,
        final(animation).sources@[old(animation).sources@.len() as int + 1] is Transformation,
{
    let ghost start = animation.scalars@;
    let ghost w0 = animation.manager.evaluators@;
    let zero: Param = Param::constant(Fixed::zero());
    let camera_height: Param = animated(
        animation,
        2_600_000_000,
        swing(2_600_000_000, 2_200_000_000, 3_000_000_000, 2_000_000_000),
    );
    let ghost w1 = animation.manager.evaluators@;
    let turn: usize = animation.bind(Source::Rotation([zero, zero, zero]));
    let camera: Camera = Camera::Pinhole(
        PinholeCamera::new([zero, zero, camera_height], upper_left(mat_identity()), Some(turn)),
    );
    let power: Param = animated(
        animation,
        9_000_000_000,
        swing(600_000_000, 15_000_000_000, 5_500_000_000, 1_000_000_000),
    );
    let ghost w2 = animation.manager.evaluators@;
    let bulb_turn: Param = animated(
        animation,
        9_000_000_000,
        swing(160_000_000_000, 180_000_000_000, 2_750_000_000, 2_000_000_000),
    );
    let ghost w3 = animation.manager.evaluators@;
    let size: Param = animated(
        animation,
        300_000_000,
        relay(
            0,
            4_500_000_000,
            6_500_000_000,
            swing(1_000_000_000, 1_250_000_000, 4_500_000_000, 2_000_000_000),
            swing(1_250_000_000, 250_000_000, 2_500_000_000, 1_000_000_000),
        ),
    );
    let ghost w4 = animation.manager.evaluators@;
    let placed: usize = animation.bind(
        Source::Transformation([zero, zero, zero], [bulb_turn, zero, zero], [size, size, size]),
    );
    let mut primitives: Vec<Primitive> = Vec::new();
    primitives.push(
        Primitive::Mandelbulb(Mandelbulb::new(power, mat_identity(), Some(placed), Vec::new())),
    );
    let colour: Param = animated(
        animation,
        300_000_000,
        relay(
            0,
            4_500_000_000,
            6_000_000_000,
            Evaluator::Float(FloatEvaluator::new_get(Fixed::one())),
            swing(1_000_000_000, 0, 1_500_000_000, 1_000_000_000),
        ),
    );
    let ghost w5 = animation.manager.evaluators@;
    let grey: Param = animated(
        animation,
        300_000_000,
        relay(
            0,
            3_000_000_000,
            6_000_000_000,
            Evaluator::Float(FloatEvaluator::new_get(Fixed::zero())),
            swing(0, 800_000_000, 3_000_000_000, 2_000_000_000),
        ),
    );
    let ghost w6 = animation.manager.evaluators@;
    let bloom_cut: Param = animated(
        animation,
        300_000_000,
        swing(350_000_000, 300_000_000, 3_000_000_000, 2_000_000_000),
    );
    let ghost w7 = animation.manager.evaluators@;
    let bloom_factor: Param = animated(
        animation,
        1_000_000_000,
        swing(1_000_000_000, 2_000_000_000, 3_000_000_000, 2_000_000_000),
    );
    let ghost w8 = animation.manager.evaluators@;
    let bloom_size: Param = animated(
        animation,
        3_000_000_000,
        swing(3_000_000_000, 6_000_000_000, 3_000_000_000, 2_000_000_000),
    );
    let ghost w9 = animation.manager.evaluators@;
    let mut filters: Vec<Filter> = Vec::new();
    filters.push(Filter::ColorShift(ColorShift::new([colour, colour, colour], ColorShiftMode::Mul)));
    filters.push(Filter::Gray(GrayFilter::new(grey)));
    let mut developing: Vec<PostProcessor> = Vec::new();
    developing.push(
        PostProcessor::Bloom(BloomPostProcessor::new(bloom_cut, bloom_factor, bloom_size)),
    );
    let film: BasicFilm = BasicFilm::new(filters, developing);
    let solver: GeneralSolver = GeneralSolver::new(primitives);
    let light_turn: Param = animated(
        animation,
        -45_000_000_000,
        Evaluator::Interpolator(
            InterpolatorEvaluator::new_get(
                Fixed::from_raw(-45_000_000_000),
                Fixed::from_raw(90_000_000_000),
                Fixed::from_raw(3_000_000_000),
                true,
                Transition::Linear(Linear::new()),
            ),
        ),
    );
    let ghost w10 = animation.manager.evaluators@;
    let side: Param = Param::constant(Fixed::from_raw(-45_000_000_000));
    let shader: Shader = Shader::Fractal(
        FractalShader::new(
            constants(100_000_000, 100_000_000, 400_000_000),
            constants(200_000_000, 900_000_000, 800_000_000),
            Param::constant(Fixed::from_raw(30_000_000_000)),
            [light_turn, side, side],
            background(),
        ),
    );
    let sampler: JitterSampler = JitterSampler::new(Fixed::from_raw(500_000_000));
    proof {
        assert(raw_values(animation.scalars@) =~= raw_values(start) + spec_bulb_values());
        let base = w0.len() as int;
        let w = w10.subrange(base, base + 10);
        assert(w10.subrange(0, base) =~= w0);
        assert(w[0] == w1.last());
        assert(w[1] == w2.last());
        assert(w[2] == w3.last());
        assert(w[3] == w4.last());
        assert(w[4] == w5.last());
        assert(w[5] == w6.last());
        assert(w[6] == w7.last());
        assert(w[7] == w8.last());
        assert(w[8] == w9.last());
        assert(w[9] == w10.last());
    }
    Renderer::Solver(SolverRenderer::new(camera, film, solver, shader, sampler))
}

} // verus!
