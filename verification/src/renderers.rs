//! Renderers: what a ray through a point of the image adds to the film.
//!
//! A renderer that needs random samples takes them one at a time: whoever
//! draws the samples calls `render_sample` for every sample of every pixel.

use crate::cameras::{Camera, CameraSample};
use crate::configuration;
use crate::film::{spec_added, BasicFilm};
use crate::filter::{filters_resolve_to, spec_filter_chain};
use crate::fixed::{saturate, spec_div, spec_max, spec_mul, Fixed, SCALE};
use crate::helpers::{
    dot_product, max_f64, point_of, reflect, spec_dot, spec_reflect, vec3_dot, Point,
};
use crate::light::{
    resolve_triple, spec_scaled, triple_resolves_to, values, values_of, Light, LightInfo,
    LightView,
};
use crate::math::{powf, spec_powf};
use crate::parameter::{Param, Snapshot};
use crate::primitive::spec_evaluated;
use crate::sampler::{spec_pixel_drawn, JitterSampler};
use crate::shader::Shader;
use crate::solver::{
    spec_march, GeneralSolver, IntersectionInfo, IntersectionInfoSimple, IntersectionView, Ray,
    SufraceProperties,
};
use vstd::prelude::*;

verus! {

/// The weight of one sample: one over the number of samples of a pixel.
pub open spec fn spec_sample_weight() -> int {
    spec_div(
        SCALE as int,
        saturate(configuration::samples * configuration::samples * SCALE),
    )
}

/// The weight of one sample.
fn sample_weight() -> (r: Fixed)
    ensures
        r@ == spec_sample_weight(),
{
    let n: i64 = configuration::samples as i64;
    assert(n * n == 1) by (nonlinear_arith)
        requires
            n == 1,
    ;
    Fixed::one().div(Fixed::from_int(n * n))
}

/// The colour `c` with every channel weighted by `w`.
fn weighted(c: [Fixed; 3], w: Fixed) -> (r: [Fixed; 3])
    ensures
        point_of(r) == spec_scaled(point_of(c), w@),
{
    [c[0].mul(w), c[1].mul(w), c[2].mul(w)]
}

/// The pixel coordinate `v` as a raw number.
pub open spec fn spec_coordinate(v: u32) -> int {
    saturate(v * SCALE)
}

/// The image after the rays through its first `k` pixels, column by
/// column, have each added their direction to their pixel.
pub open spec fn spec_camera_rays(camera: Camera, film: BasicFilm, start: Seq<int>, k: int) -> Seq<int>
    decreases k,
{
    if k <= 0 {
        start
    } else {
        let x = (k - 1) / (configuration::height as int);
        let y = (k - 1) % (configuration::height as int);
        let ray = camera.spec_generate_ray(
            spec_coordinate(x as u32),
            spec_coordinate(y as u32),
            0,
            0,
        );
        spec_added(
            spec_camera_rays(camera, film, start, k - 1),
            x,
            y,
            spec_filter_chain(
                film.spec_filters(),
                ray.direction,
                film.spec_filters().len() as int,
            ),
        )
    }
}

/// Shows the rays of a camera: every pixel gets the direction of its ray
/// as its colour.
pub struct CameraRayRenderer {
    pub camera: Camera,
    pub film: BasicFilm,
}

impl CameraRayRenderer {
    pub fn new(camera: Camera, film: BasicFilm) -> (r: CameraRayRenderer)
        ensures
            r.camera == camera,
            r.film == film,
    {
        CameraRayRenderer { camera, film }
    }

    /// Adds to every pixel the direction of the ray through it.
    pub fn render(&mut self)
        requires
            old(self).film.spec_well_formed(),
        ensures
            final(self).film.spec_well_formed(),
            final(self).camera == old(self).camera,
            final(self).film.spec_filters() == old(self).film.spec_filters(),
            final(self).film.spec_post_processors() == old(self).film.spec_post_processors(),
            final(self).film@ == spec_camera_rays(
                old(self).camera,
                old(self).film,
                old(self).film@,
                configuration::width * configuration::height,
            ),
    {
        let zero: Fixed = Fixed::zero();
        let ghost start = self.film@;
        let ghost film0 = self.film;
        let mut x: u32 = 0;
        while x < configuration::width
            invariant
                x <= configuration::width,
                self.film.spec_well_formed(),
                self.camera == old(self).camera,
                self.film.spec_filters() == film0.spec_filters(),
                self.film.spec_post_processors() == film0.spec_post_processors(),
                film0 == old(self).film,
                start == old(self).film@,
                zero@ == 0,
                self.film@ == spec_camera_rays(
                    self.camera,
                    film0,
                    start,
                    x * configuration::height,
                ),
            decreases configuration::width - x,
        {
            let mut y: u32 = 0;
            while y < configuration::height
                invariant
                    x < configuration::width,
                    y <= configuration::height,
                    self.film.spec_well_formed(),
                    self.camera == old(self).camera,
                    self.film.spec_filters() == film0.spec_filters(),
                    self.film.spec_post_processors() == film0.spec_post_processors(),
                    zero@ == 0,
                    self.film@ == spec_camera_rays(
                        self.camera,
                        film0,
                        start,
                        x * configuration::height + y,
                    ),
                decreases configuration::height - y,
            {
                let ray: Ray = self.camera.generate_ray(
                    Fixed::from_int(x as i64),
                    Fixed::from_int(y as i64),
                    ((zero, zero), (zero, zero)),
                );
                self.film.write_pixel(x, y, ray.direction);
                proof {
                    let k = x * configuration::height + y + 1;
                    assert((k - 1) / (configuration::height as int) == x) by (nonlinear_arith)
                        requires
                            k - 1 == x * 480 + y,
                            0 <= y < 480,
                            configuration::height == 480,
                    ;
                    assert((k - 1) % (configuration::height as int) == y) by (nonlinear_arith)
                        requires
                            k - 1 == x * 480 + y,
                            0 <= y < 480,
                            configuration::height == 480,
                    ;
                }
                y = y + 1;
            }
            assert(x * configuration::height + configuration::height == (x + 1)
                * configuration::height) by (nonlinear_arith);
            x = x + 1;
        }
    }

    /// The film needs no preparation: nothing changes.
    pub fn prepare_render(&mut self)
        ensures
            *final(self) == *old(self),
    {
    }

    /// Refreshes the camera and the filters of the film from `snapshot`.
    pub fn evaluate(&mut self, snapshot: &Snapshot)
        ensures
            old(self).camera.resolves_to(&final(self).camera, snapshot),
            final(self).film@ == old(self).film@,
            final(self).film.spec_well_formed() == old(self).film.spec_well_formed(),
            filters_resolve_to(
                old(self).film.spec_filters(),
                final(self).film.spec_filters(),
                snapshot,
            ),
    {
        self.camera.evaluate(snapshot);
        self.film.evaluate(snapshot);
    }
}

/// The places of the samples of a pixel on their grid, before they are
/// moved: sample `k` lies at `(k / samples, k % samples)`, measured in
/// cells of the grid.
pub fn generate_samples() -> (r: Vec<[Fixed; 2]>)
    ensures
        r@.len() == configuration::samples * configuration::samples,
        forall|k: int|
            0 <= k < r@.len() ==> {
                let e = #[trigger] r@[k];
                &&& e[0]@ == spec_div(
                    saturate(k / (configuration::samples as int) * SCALE),
                    saturate(configuration::samples * SCALE),
                )
                &&& e[1]@ == spec_div(
                    saturate(k % (configuration::samples as int) * SCALE),
                    saturate(configuration::samples * SCALE),
                )
            },
{
    let n: usize = configuration::samples as usize;
    assert(n * n == 1) by (nonlinear_arith)
        requires
            n == 1,
    ;
    let total: usize = n * n;
    let side: Fixed = Fixed::from_int(configuration::samples as i64);
    let mut elements: Vec<[Fixed; 2]> = Vec::new();
    let mut k: usize = 0;
    while k < total
        invariant
            k <= total,
            n == configuration::samples,
            n >= 1,
            total == configuration::samples * configuration::samples,
            side@ == saturate(configuration::samples * SCALE),
            elements@.len() == k,
            forall|j: int|
                0 <= j < k ==> {
                    let e = #[trigger] elements@[j];
                    &&& e[0]@ == spec_div(
                        saturate(j / (configuration::samples as int) * SCALE),
                        saturate(configuration::samples * SCALE),
                    )
                    &&& e[1]@ == spec_div(
                        saturate(j % (configuration::samples as int) * SCALE),
                        saturate(configuration::samples * SCALE),
                    )
                },
        decreases total - k,
    {
        let sx: usize = k / n;
        let sy: usize = k % n;
        elements.push([Fixed::from_int(sx as i64).div(side), Fixed::from_int(sy as i64).div(side)]);
        k = k + 1;
    }
    elements
}

/// What the ray of the sample `s` through the pixel `(x, y)` finds.
pub open spec fn spec_found(
    camera: Camera,
    solver: GeneralSolver,
    x: u32,
    y: u32,
    s: CameraSample,
) -> IntersectionView {
    let ray = camera.spec_generate_ray(spec_coordinate(x), spec_coordinate(y), s.1.0@, s.1.1@);
    solver.spec_solve(ray.origin, ray.direction)
}

/// The colour that one sample adds to its pixel where nothing is lit: the
/// colour of the surface on a hit and of the background on a miss, weighted
/// as one sample.
pub open spec fn spec_unlit_color(shader: Shader, found: IntersectionView, x: u32, y: u32) -> Point {
    let c = if found.hit {
        shader.spec_surface(found)
    } else {
        shader.spec_background().spec_shade(x, y)
    };
    spec_scaled(c, spec_sample_weight())
}

/// The number of samples of a pixel.
pub open spec fn spec_samples_per_pixel() -> int {
    configuration::samples * configuration::samples
}

/// The number of samples of the whole image.
pub open spec fn spec_samples_per_image() -> int {
    configuration::width * configuration::height * spec_samples_per_pixel()
}

/// The column of the pixel that the sample `k` of the image belongs to:
/// the pixels are taken column by column.
pub open spec fn spec_sample_x(k: int) -> u32 {
    (k / spec_samples_per_pixel() / (configuration::height as int)) as u32
}

/// The row of the pixel that the sample `k` of the image belongs to.
pub open spec fn spec_sample_y(k: int) -> u32 {
    (k / spec_samples_per_pixel() % (configuration::height as int)) as u32
}

/// The samples of the pixel `p` among the samples of an image, the
/// pixels counted column by column.
pub open spec fn spec_pixel_samples(samples: Seq<CameraSample>, p: int) -> Seq<CameraSample> {
    samples.subrange(p * spec_samples_per_pixel(), (p + 1) * spec_samples_per_pixel())
}

/// Whether the samples of the first `pixels` pixels of an image are drawn:
/// those of every pixel are what a sampler with the jitter `jitter` may
/// draw, from random numbers that are at least zero and under one.
pub open spec fn spec_image_drawn(jitter: int, samples: Seq<CameraSample>, pixels: int) -> bool {
    forall|p: int|
        0 <= p < pixels ==> spec_pixel_drawn(jitter, #[trigger] spec_pixel_samples(samples, p))
}

/// Drawn samples stay drawn when the samples of one more pixel follow.
proof fn lemma_pixel_drawn(
    jitter: int,
    all: Seq<CameraSample>,
    drawn: Seq<CameraSample>,
    pixels: int,
)
    requires
        0 <= pixels,
        all.len() == pixels * spec_samples_per_pixel(),
        drawn.len() == spec_samples_per_pixel(),
        spec_image_drawn(jitter, all, pixels),
        spec_pixel_drawn(jitter, drawn),
    ensures
        spec_image_drawn(jitter, all + drawn, pixels + 1),
{
    let per = spec_samples_per_pixel();
    let more = all + drawn;
    assert forall|p: int| 0 <= p < pixels + 1 implies spec_pixel_drawn(
        jitter,
        #[trigger] spec_pixel_samples(more, p),
    ) by {
        if p < pixels {
            assert((p + 1) * per <= pixels * per && 0 <= p * per <= (p + 1) * per)
                by (nonlinear_arith)
                requires
                    0 <= p < pixels,
                    per >= 0,
            ;
            assert(spec_pixel_samples(more, p) =~= spec_pixel_samples(all, p));
        } else {
            assert((p + 1) * per == pixels * per + per) by (nonlinear_arith)
                requires
                    p == pixels,
            ;
            assert(spec_pixel_samples(more, p) =~= drawn);
        }
    }
}

/// Renders surfaces by their own colour, without lights.
pub struct SolverRenderer {
    pub camera: Camera,
    pub film: BasicFilm,
    pub solver: GeneralSolver,
    pub shader: Shader,
    pub sampler: JitterSampler,
}

/// The image `data` after the sample `s` of the pixel `(x, y)` was
/// rendered without lights: the filtered colour of what the ray finds is
/// added to the pixel.
pub open spec fn spec_solver_sample(
    r: SolverRenderer,
    data: Seq<int>,
    x: u32,
    y: u32,
    s: CameraSample,
) -> Seq<int> {
    spec_added(
        data,
        x as int,
        y as int,
        spec_filter_chain(
            r.film.spec_filters(),
            spec_unlit_color(r.shader, spec_found(r.camera, r.solver, x, y, s), x, y),
            r.film.spec_filters().len() as int,
        ),
    )
}

/// The image after the first `k` of the given samples were rendered
/// without lights, each for its pixel.
pub open spec fn spec_solver_rendered(
    r: SolverRenderer,
    start: Seq<int>,
    samples: Seq<CameraSample>,
    k: int,
) -> Seq<int>
    decreases k,
{
    if k <= 0 {
        start
    } else {
        spec_solver_sample(
            r,
            spec_solver_rendered(r, start, samples, k - 1),
            spec_sample_x(k - 1),
            spec_sample_y(k - 1),
            samples[k - 1],
        )
    }
}

/// What was rendered from the first samples does not depend on the
/// samples that follow.
proof fn lemma_solver_rendered_prefix(
    r: SolverRenderer,
    start: Seq<int>,
    samples: Seq<CameraSample>,
    more: Seq<CameraSample>,
    k: int,
)
    requires
        0 <= k <= samples.len(),
        samples.len() <= more.len(),
        forall|i: int| 0 <= i < samples.len() ==> samples[i] == more[i],
    ensures
        spec_solver_rendered(r, start, more, k) == spec_solver_rendered(r, start, samples, k),
    decreases k,
{
    if k > 0 {
        lemma_solver_rendered_prefix(r, start, samples, more, k - 1);
    }
}

/// The sample `j` of the pixel `(x, y)` is the sample
/// `(x * height + y) * per + j` of the image.
proof fn lemma_sample_place(x: int, y: int, j: int)
    requires
        0 <= x < configuration::width,
        0 <= y < configuration::height,
        0 <= j < spec_samples_per_pixel(),
    ensures
        spec_sample_x((x * configuration::height + y) * spec_samples_per_pixel() + j) == x,
        spec_sample_y((x * configuration::height + y) * spec_samples_per_pixel() + j) == y,
{
    assert(spec_samples_per_pixel() == 1) by (nonlinear_arith)
        requires
            spec_samples_per_pixel() == configuration::samples * configuration::samples,
            configuration::samples == 1,
    ;
    let p = x * 480 + y;
    assert((p * 1 + j) / 1 == p);
    assert(p / 480 == x && p % 480 == y) by (nonlinear_arith)
        requires
            p == x * 480 + y,
            0 <= y < 480,
            0 <= x < 720,
    ;
}

impl SolverRenderer {
    pub fn new(
        camera: Camera,
        film: BasicFilm,
        solver: GeneralSolver,
        shader: Shader,
        sampler: JitterSampler,
    ) -> (r: SolverRenderer)
        ensures
            r.camera == camera,
            r.film == film,
            r.solver == solver,
            r.shader == shader,
            r.sampler == sampler,
    {
        SolverRenderer { camera, film, solver, shader, sampler }
    }

    /// Adds to the pixel `(x, y)` what the ray of the sample `s` sees. The
    /// shader must not wait for lights.
    pub fn render_sample(&mut self, x: u32, y: u32, s: CameraSample)
        requires
            !old(self).shader.spec_is_lit(),
            old(self).film.spec_well_formed(),
            x < configuration::width,
            y < configuration::height,
        ensures
            final(self).film.spec_well_formed(),
            final(self).camera == old(self).camera,
            final(self).solver == old(self).solver,
            final(self).shader == old(self).shader,
            final(self).sampler == old(self).sampler,
            final(self).film.spec_filters() == old(self).film.spec_filters(),
            final(self).film.spec_post_processors() == old(self).film.spec_post_processors(),
            final(self).film@ == spec_solver_sample(*old(self), old(self).film@, x, y, s),
    {
        let sample_inv: Fixed = sample_weight();
        let ray: Ray = self.camera.generate_ray(
            Fixed::from_int(x as i64),
            Fixed::from_int(y as i64),
            s,
        );
        let i: IntersectionInfo = self.solver.solve(ray);
        if i.hit {
            let col: SufraceProperties = self.shader.surface_props(x, y, &i);
            self.film.write_pixel(x, y, weighted(col.color, sample_inv));
        } else {
            let col: [Fixed; 3] = self.shader.miss_color(x, y, i);
            self.film.write_pixel(x, y, weighted(col, sample_inv));
        }
    }

    /// Renders the image: for every pixel, column by column, the samples
    /// of the pixel are drawn and rendered one after the other. The shader
    /// must not wait for lights.
    pub fn render(&mut self)
        requires
            !old(self).shader.spec_is_lit(),
            old(self).film.spec_well_formed(),
        ensures
            final(self).film.spec_well_formed(),
            final(self).camera == old(self).camera,
            final(self).solver == old(self).solver,
            final(self).shader == old(self).shader,
            final(self).sampler == old(self).sampler,
            final(self).film.spec_filters() == old(self).film.spec_filters(),
            final(self).film.spec_post_processors() == old(self).film.spec_post_processors(),
            exists|samples: Seq<CameraSample>|
                samples.len() == spec_samples_per_image() && spec_image_drawn(
                    old(self).sampler.total_jitter@,
                    samples,
                    configuration::width * configuration::height,
                ) && final(self).film@ == #[trigger] spec_solver_rendered(
                    *old(self),
                    old(self).film@,
                    samples,
                    spec_samples_per_image(),
                ),
    {
        let ghost r0 = *old(self);
        let ghost start = self.film@;
        let ghost jitter = self.sampler.total_jitter@;
        let ghost mut all: Seq<CameraSample> = Seq::empty();
        proof {
            assert(spec_samples_per_pixel() == 1) by (nonlinear_arith)
                requires
                    spec_samples_per_pixel() == configuration::samples * configuration::samples,
                    configuration::samples == 1,
            ;
        }
        let mut x: u32 = 0;
        while x < configuration::width
            invariant
                x <= configuration::width,
                spec_samples_per_pixel() == 1,
                r0 == *old(self),
                start == old(self).film@,
                !self.shader.spec_is_lit(),
                self.film.spec_well_formed(),
                self.camera == r0.camera,
                self.solver == r0.solver,
                self.shader == r0.shader,
                self.sampler == r0.sampler,
                self.film.spec_filters() == r0.film.spec_filters(),
                self.film.spec_post_processors() == r0.film.spec_post_processors(),
                all.len() == x * configuration::height * spec_samples_per_pixel(),
                self.film@ == spec_solver_rendered(r0, start, all, all.len() as int),
                jitter == r0.sampler.total_jitter@,
                spec_image_drawn(jitter, all, x * configuration::height),
            decreases configuration::width - x,
        {
            let mut y: u32 = 0;
            while y < configuration::height
                invariant
                    x < configuration::width,
                    y <= configuration::height,
                    spec_samples_per_pixel() == 1,
                    !self.shader.spec_is_lit(),
                    self.film.spec_well_formed(),
                    self.camera == r0.camera,
                    self.solver == r0.solver,
                    self.shader == r0.shader,
                    self.sampler == r0.sampler,
                    self.film.spec_filters() == r0.film.spec_filters(),
                    self.film.spec_post_processors() == r0.film.spec_post_processors(),
                    all.len() == (x * configuration::height + y) * spec_samples_per_pixel(),
                    self.film@ == spec_solver_rendered(r0, start, all, all.len() as int),
                    jitter == r0.sampler.total_jitter@,
                    spec_image_drawn(jitter, all, x * configuration::height + y),
                decreases configuration::height - y,
            {
                let samples: Vec<CameraSample> = self.sampler.generate_samples(x, y);
                let ghost base = all;
                assert(all =~= base + samples@.subrange(0, 0));
                let mut j: usize = 0;
                while j < samples.len()
                    invariant
                        x < configuration::width,
                        y < configuration::height,
                        j <= samples@.len(),
                        samples@.len() == spec_samples_per_pixel(),
                        spec_samples_per_pixel() == 1,
                        !self.shader.spec_is_lit(),
                        self.film.spec_well_formed(),
                        self.camera == r0.camera,
                        self.solver == r0.solver,
                        self.shader == r0.shader,
                        self.sampler == r0.sampler,
                        self.film.spec_filters() == r0.film.spec_filters(),
                        self.film.spec_post_processors() == r0.film.spec_post_processors(),
                        all.len() == (x * configuration::height + y) * spec_samples_per_pixel()
                            + j,
                        self.film@ == spec_solver_rendered(r0, start, all, all.len() as int),
                        all == base + samples@.subrange(0, j as int),
                    decreases samples.len() - j,
                {
                    let s: CameraSample = samples[j];
                    let ghost before = *self;
                    self.render_sample(x, y, s);
                    proof {
                        let more = all.push(s);
                        lemma_solver_rendered_prefix(r0, start, all, more, all.len() as int);
                        lemma_sample_place(x as int, y as int, j as int);
                        assert(spec_solver_sample(before, before.film@, x, y, s)
                            == spec_solver_sample(r0, before.film@, x, y, s));
                        assert(more =~= base + samples@.subrange(0, j + 1));
                        all = more;
                    }
                    j = j + 1;
                }
                proof {
                    assert(samples@.subrange(0, samples@.len() as int) =~= samples@);
                    lemma_pixel_drawn(jitter, base, samples@, x * configuration::height + y);
                }
                y = y + 1;
            }
            assert(x * configuration::height + configuration::height == (x + 1)
                * configuration::height) by (nonlinear_arith);
            x = x + 1;
        }
        proof {
            assert(all.len() == spec_samples_per_image()) by (nonlinear_arith)
                requires
                    all.len() == x * configuration::height * spec_samples_per_pixel(),
                    x == configuration::width,
                    spec_samples_per_image() == configuration::width * configuration::height
                        * spec_samples_per_pixel(),
            ;
        }
    }

    /// Wipes the film.
    pub fn prepare_render(&mut self)
        requires
            old(self).film.spec_well_formed(),
        ensures
            final(self).film.spec_well_formed(),
            final(self).film@ == crate::film::spec_blank(),
            final(self).film.spec_filters() == old(self).film.spec_filters(),
            final(self).film.spec_post_processors() == old(self).film.spec_post_processors(),
            final(self).camera == old(self).camera,
            final(self).solver == old(self).solver,
            final(self).shader == old(self).shader,
            final(self).sampler == old(self).sampler,
    {
        self.film.prepare_render()
    }

    /// Refreshes the camera, the filters, the scene and the shader from `snapshot`.
    pub fn evaluate(&mut self, snapshot: &Snapshot)
        ensures
            old(self).camera.resolves_to(&final(self).camera, snapshot),
            old(self).shader.resolves_to(&final(self).shader, snapshot),
            final(self).shader.spec_is_lit() == old(self).shader.spec_is_lit(),
            final(self).film@ == old(self).film@,
            final(self).film.spec_well_formed() == old(self).film.spec_well_formed(),
            filters_resolve_to(
                old(self).film.spec_filters(),
                final(self).film.spec_filters(),
                snapshot,
            ),
            final(self).solver.primitives@.len() == old(self).solver.primitives@.len(),
            forall|i: int|
                0 <= i < old(self).solver.primitives@.len() ==> spec_evaluated(
                    #[trigger] old(self).solver.primitives@[i],
                    final(self).solver.primitives@[i],
                    snapshot,
                ),
            final(self).solver.tunables == old(self).solver.tunables,
            final(self).sampler == old(self).sampler,
    {
        self.camera.evaluate(snapshot);
        self.film.evaluate(snapshot);
        self.solver.evaluate(snapshot);
        self.shader.evaluate(snapshot);
    }
}

/// Where the shadow ray from a hit starts: a little off the surface,
/// along the normal.
pub open spec fn spec_shadow_origin(i: IntersectionView, offset: int) -> Point {
    Point {
        x: saturate(i.position.x + spec_mul(i.normal.x, offset)),
        y: saturate(i.position.y + spec_mul(i.normal.y, offset)),
        z: saturate(i.position.z + spec_mul(i.normal.z, offset)),
    }
}

/// The light that reaches a surface from one light that is in view: the
/// diffuse part grows with the cosine between the normal and the light, the
/// highlight with a power of the cosine between the mirrored light and the
/// light.
pub open spec fn spec_lit_color(i: IntersectionView, surface: Point, light: LightView) -> Point {
    let w = spec_sample_weight();
    let falloff = spec_mul(i.material.albedo, spec_max(0, spec_dot(i.normal, light.direction)));
    let away = Point { x: -light.direction.x, y: -light.direction.y, z: -light.direction.z };
    let r = spec_mul(
        w,
        spec_powf(
            spec_max(spec_dot(spec_reflect(away, i.normal), light.direction), 0),
            i.material.n_specular,
        ),
    );
    Point {
        x: spec_lit_channel(
            light.light_intensity.x,
            surface.x,
            falloff,
            w,
            r,
            i.material.diffuse,
            i.material.specular,
        ),
        y: spec_lit_channel(
            light.light_intensity.y,
            surface.y,
            falloff,
            w,
            r,
            i.material.diffuse,
            i.material.specular,
        ),
        z: spec_lit_channel(
            light.light_intensity.z,
            surface.z,
            falloff,
            w,
            r,
            i.material.diffuse,
            i.material.specular,
        ),
    }
}

/// The light that reaches a surface that one light does not see: the
/// ambient light on the colour of the surface.
pub open spec fn spec_shadowed_color(surface: Point, ambient: Point) -> Point {
    let w = spec_sample_weight();
    Point {
        x: spec_mul(spec_mul(ambient.x, surface.x), w),
        y: spec_mul(spec_mul(ambient.y, surface.y), w),
        z: spec_mul(spec_mul(ambient.z, surface.z), w),
    }
}

/// The light that reaches a surface from one light that is in view.
fn lit_color(i: &IntersectionInfo, surface: [Fixed; 3], light_info: &LightInfo) -> (r: [Fixed; 3])
    ensures
        point_of(r) == spec_lit_color(i@, point_of(surface), light_info@),
{
    let sample_inv: Fixed = sample_weight();
    let zero: Fixed = Fixed::zero();
    let falloff: Fixed = i.material.albedo.mul(
        max_f64(zero, vec3_dot(i.normal, light_info.direction)),
    );
    let light_dir_inv: [Fixed; 3] = [
        light_info.direction[0].neg(),
        light_info.direction[1].neg(),
        light_info.direction[2].neg(),
    ];
    let r: Fixed = sample_inv.mul(
        powf(
            max_f64(dot_product(reflect(light_dir_inv, i.normal), light_info.direction), zero),
            i.material.n_specular,
        ),
    );
    [
        lit_channel(light_info.light_intensity[0], surface[0], falloff, sample_inv, r, i),
        lit_channel(light_info.light_intensity[1], surface[1], falloff, sample_inv, r, i),
        lit_channel(light_info.light_intensity[2], surface[2], falloff, sample_inv, r, i),
    ]
}

/// One channel of the light from a light in view: the diffuse part and
/// the highlight.
pub open spec fn spec_lit_channel(
    intensity: int,
    surface: int,
    falloff: int,
    w: int,
    r: int,
    diffuse: int,
    specular: int,
) -> int {
    saturate(
        spec_mul(spec_mul(spec_mul(spec_mul(intensity, surface), falloff), w), diffuse) + spec_mul(
            spec_mul(intensity, r),
            specular,
        ),
    )
}

/// One channel of the light from a light in view.
fn lit_channel(
    intensity: Fixed,
    surface: Fixed,
    falloff: Fixed,
    w: Fixed,
    r: Fixed,
    i: &IntersectionInfo,
) -> (c: Fixed)
    ensures
        c@ == spec_lit_channel(
            intensity@,
            surface@,
            falloff@,
            w@,
            r@,
            i.material.diffuse@,
            i.material.specular@,
        ),
{
    let diffuse: Fixed = intensity.mul(surface).mul(falloff).mul(w).mul(i.material.diffuse);
    let specular: Fixed = intensity.mul(r).mul(i.material.specular);
    diffuse.add(specular)
}

/// The light that reaches a surface that one light does not see.
fn shadowed_color(surface: [Fixed; 3], ambient: [Fixed; 3]) -> (r: [Fixed; 3])
    ensures
        point_of(r) == spec_shadowed_color(point_of(surface), point_of(ambient)),
{
    let sample_inv: Fixed = sample_weight();
    [
        ambient[0].mul(surface[0]).mul(sample_inv),
        ambient[1].mul(surface[1]).mul(sample_inv),
        ambient[2].mul(surface[2]).mul(sample_inv),
    ]
}

/// What one light adds to the pixel of a hit: its light where nothing
/// stands between the surface and the light, the ambient light otherwise.
pub open spec fn spec_light_color(
    solver: GeneralSolver,
    light: Light,
    ambient: Point,
    i: IntersectionView,
    surface: Point,
) -> Point {
    let info = light.spec_illuminate(i.position);
    let shadow = spec_march(
        solver.spec_setup_simple(info.direction, info.distance),
        spec_shadow_origin(i, solver.tunables.light_min_dist@),
        0,
        0,
    );
    if !shadow.hit {
        spec_lit_color(i, surface, info)
    } else {
        spec_shadowed_color(surface, ambient)
    }
}

/// The image after the first `k` lights have each added their part to
/// the pixel `(x, y)` of a hit.
pub open spec fn spec_lights_added(
    solver: GeneralSolver,
    lights: Seq<Light>,
    ambient: Point,
    filters: Seq<crate::filter::Filter>,
    i: IntersectionView,
    surface: Point,
    start: Seq<int>,
    x: int,
    y: int,
    k: int,
) -> Seq<int>
    decreases k,
{
    if k <= 0 {
        start
    } else {
        spec_added(
            spec_lights_added(solver, lights, ambient, filters, i, surface, start, x, y, k - 1),
            x,
            y,
            spec_filter_chain(
                filters,
                spec_light_color(solver, lights[k - 1], ambient, i, surface),
                filters.len() as int,
            ),
        )
    }
}

/// Renders surfaces as the lights of the scene light them, with shadows.
pub struct LightRenderer {
    pub camera: Camera,
    pub film: BasicFilm,
    pub solver: GeneralSolver,
    pub shader: Shader,
    pub sampler: JitterSampler,
    pub lights: Vec<Light>,
    pub ambient: [Param; 3],
}

/// The image `data` after the sample `s` of the pixel `(x, y)` was
/// rendered with lights: on a miss the filtered colour of the background is
/// added to the pixel, on a hit the filtered part of every light in turn.
pub open spec fn spec_light_sample(
    r: LightRenderer,
    data: Seq<int>,
    x: u32,
    y: u32,
    s: CameraSample,
) -> Seq<int> {
    let found = spec_found(r.camera, r.solver, x, y, s);
    let filters = r.film.spec_filters();
    if !found.hit {
        spec_added(
            data,
            x as int,
            y as int,
            spec_filter_chain(filters, spec_unlit_color(r.shader, found, x, y), filters.len() as int),
        )
    } else {
        spec_lights_added(
            r.solver,
            r.lights@,
            values_of(r.ambient),
            filters,
            found,
            r.shader.spec_surface(found),
            data,
            x as int,
            y as int,
            r.lights@.len() as int,
        )
    }
}

/// The image after the first `k` of the given samples were rendered with
/// lights, each for its pixel.
pub open spec fn spec_light_rendered(
    r: LightRenderer,
    start: Seq<int>,
    samples: Seq<CameraSample>,
    k: int,
) -> Seq<int>
    decreases k,
{
    if k <= 0 {
        start
    } else {
        spec_light_sample(
            r,
            spec_light_rendered(r, start, samples, k - 1),
            spec_sample_x(k - 1),
            spec_sample_y(k - 1),
            samples[k - 1],
        )
    }
}

/// What was rendered from the first samples does not depend on the
/// samples that follow.
proof fn lemma_light_rendered_prefix(
    r: LightRenderer,
    start: Seq<int>,
    samples: Seq<CameraSample>,
    more: Seq<CameraSample>,
    k: int,
)
    requires
        0 <= k <= samples.len(),
        samples.len() <= more.len(),
        forall|i: int| 0 <= i < samples.len() ==> samples[i] == more[i],
    ensures
        spec_light_rendered(r, start, more, k) == spec_light_rendered(r, start, samples, k),
    decreases k,
{
    if k > 0 {
        lemma_light_rendered_prefix(r, start, samples, more, k - 1);
    }
}

impl LightRenderer {
    pub fn new(
        camera: Camera,
        film: BasicFilm,
        solver: GeneralSolver,
        shader: Shader,
        sampler: JitterSampler,
        lights: Vec<Light>,
        ambient: [Param; 3],
    ) -> (r: LightRenderer)
        ensures
            r.camera == camera,
            r.film == film,
            r.solver == solver,
            r.shader == shader,
            r.sampler == sampler,
            r.lights == lights,
            r.ambient == ambient,
    {
        LightRenderer { camera, film, solver, shader, sampler, lights, ambient }
    }

    /// What one light adds to the pixel of the hit `i`.
    fn light_color(&self, l: &Light, i: &IntersectionInfo, surface: [Fixed; 3]) -> (r: [Fixed; 3])
        ensures
            point_of(r) == spec_light_color(
                self.solver,
                *l,
                values_of(self.ambient),
                i@,
                point_of(surface),
            ),
    {
        let offset: Fixed = self.solver.tunables.light_min_dist;
        let light_info: LightInfo = l.illuminate(i.position);
        let shadow_ray: Ray = Ray {
            direction: light_info.direction,
            origin: [
                i.position[0].add(i.normal[0].mul(offset)),
                i.position[1].add(i.normal[1].mul(offset)),
                i.position[2].add(i.normal[2].mul(offset)),
            ],
        };
        let i_simple: IntersectionInfoSimple = self.solver.solve_simple(
            shadow_ray,
            light_info.distance,
        );
        if !i_simple.hit {
            lit_color(i, surface, &light_info)
        } else {
            shadowed_color(surface, values(self.ambient))
        }
    }

    /// Adds to the pixel `(x, y)` what the ray of the sample `s` sees: on
    /// a miss the background, on a hit the part of every light in turn. The
    /// shader must wait for lights.
    pub fn render_sample(&mut self, x: u32, y: u32, s: CameraSample)
        requires
            old(self).shader.spec_is_lit(),
            old(self).film.spec_well_formed(),
            x < configuration::width,
            y < configuration::height,
        ensures
            final(self).film.spec_well_formed(),
            final(self).camera == old(self).camera,
            final(self).solver == old(self).solver,
            final(self).shader == old(self).shader,
            final(self).lights == old(self).lights,
            final(self).ambient == old(self).ambient,
            final(self).film.spec_filters() == old(self).film.spec_filters(),
            final(self).film.spec_post_processors() == old(self).film.spec_post_processors(),
            final(self).sampler == old(self).sampler,
            final(self).film@ == spec_light_sample(*old(self), old(self).film@, x, y, s),
    {
        let sample_inv: Fixed = sample_weight();
        let ray: Ray = self.camera.generate_ray(
            Fixed::from_int(x as i64),
            Fixed::from_int(y as i64),
            s,
        );
        let i: IntersectionInfo = self.solver.solve(ray);
        if !i.hit {
            let col: [Fixed; 3] = self.shader.miss_color(x, y, i);
            self.film.write_pixel(x, y, weighted(col, sample_inv));
        } else {
            let surface: SufraceProperties = self.shader.surface_props(x, y, &i);
            self.add_lights(x, y, &i, surface.color);
        }
    }

    /// Renders the image: for every pixel, column by column, the samples
    /// of the pixel are drawn and rendered one after the other. The shader
    /// must wait for lights.
    pub fn render(&mut self)
        requires
            old(self).shader.spec_is_lit(),
            old(self).film.spec_well_formed(),
        ensures
            final(self).film.spec_well_formed(),
            final(self).camera == old(self).camera,
            final(self).solver == old(self).solver,
            final(self).shader == old(self).shader,
            final(self).sampler == old(self).sampler,
            final(self).lights == old(self).lights,
            final(self).ambient == old(self).ambient,
            final(self).film.spec_filters() == old(self).film.spec_filters(),
            final(self).film.spec_post_processors() == old(self).film.spec_post_processors(),
            exists|samples: Seq<CameraSample>|
                samples.len() == spec_samples_per_image() && spec_image_drawn(
                    old(self).sampler.total_jitter@,
                    samples,
                    configuration::width * configuration::height,
                ) && final(self).film@ == #[trigger] spec_light_rendered(
                    *old(self),
                    old(self).film@,
                    samples,
                    spec_samples_per_image(),
                ),
    {
        let ghost r0 = *old(self);
        let ghost start = self.film@;
        let ghost jitter = self.sampler.total_jitter@;
        let ghost mut all: Seq<CameraSample> = Seq::empty();
        proof {
            assert(spec_samples_per_pixel() == 1) by (nonlinear_arith)
                requires
                    spec_samples_per_pixel() == configuration::samples * configuration::samples,
                    configuration::samples == 1,
            ;
        }
        let mut x: u32 = 0;
        while x < configuration::width
            invariant
                x <= configuration::width,
                spec_samples_per_pixel() == 1,
                r0 == *old(self),
                start == old(self).film@,
                self.shader.spec_is_lit(),
                self.film.spec_well_formed(),
                self.camera == r0.camera,
                self.solver == r0.solver,
                self.shader == r0.shader,
                self.sampler == r0.sampler,
                self.lights == r0.lights,
                self.ambient == r0.ambient,
                self.film.spec_filters() == r0.film.spec_filters(),
                self.film.spec_post_processors() == r0.film.spec_post_processors(),
                all.len() == x * configuration::height * spec_samples_per_pixel(),
                self.film@ == spec_light_rendered(r0, start, all, all.len() as int),
                jitter == r0.sampler.total_jitter@,
                spec_image_drawn(jitter, all, x * configuration::height),
            decreases configuration::width - x,
        {
            let mut y: u32 = 0;
            while y < configuration::height
                invariant
                    x < configuration::width,
                    y <= configuration::height,
                    spec_samples_per_pixel() == 1,
                    self.shader.spec_is_lit(),
                    self.film.spec_well_formed(),
                    self.camera == r0.camera,
                    self.solver == r0.solver,
                    self.shader == r0.shader,
                    self.sampler == r0.sampler,
                    self.lights == r0.lights,
                    self.ambient == r0.ambient,
                    self.film.spec_filters() == r0.film.spec_filters(),
                    self.film.spec_post_processors() == r0.film.spec_post_processors(),
                    all.len() == (x * configuration::height + y) * spec_samples_per_pixel(),
                    self.film@ == spec_light_rendered(r0, start, all, all.len() as int),
                    jitter == r0.sampler.total_jitter@,
                    spec_image_drawn(jitter, all, x * configuration::height + y),
                decreases configuration::height - y,
            {
                let samples: Vec<CameraSample> = self.sampler.generate_samples(x, y);
                let ghost base = all;
                assert(all =~= base + samples@.subrange(0, 0));
                let mut j: usize = 0;
                while j < samples.len()
                    invariant
                        x < configuration::width,
                        y < configuration::height,
                        j <= samples@.len(),
                        samples@.len() == spec_samples_per_pixel(),
                        spec_samples_per_pixel() == 1,
                        self.shader.spec_is_lit(),
                        self.film.spec_well_formed(),
                        self.camera == r0.camera,
                        self.solver == r0.solver,
                        self.shader == r0.shader,
                        self.sampler == r0.sampler,
                        self.lights == r0.lights,
                        self.ambient == r0.ambient,
                        self.film.spec_filters() == r0.film.spec_filters(),
                        self.film.spec_post_processors() == r0.film.spec_post_processors(),
                        all.len() == (x * configuration::height + y) * spec_samples_per_pixel()
                            + j,
                        self.film@ == spec_light_rendered(r0, start, all, all.len() as int),
                        all == base + samples@.subrange(0, j as int),
                    decreases samples.len() - j,
                {
                    let s: CameraSample = samples[j];
                    let ghost before = *self;
                    self.render_sample(x, y, s);
                    proof {
                        let more = all.push(s);
                        lemma_light_rendered_prefix(r0, start, all, more, all.len() as int);
                        lemma_sample_place(x as int, y as int, j as int);
                        assert(spec_light_sample(before, before.film@, x, y, s)
                            == spec_light_sample(r0, before.film@, x, y, s));
                        assert(more =~= base + samples@.subrange(0, j + 1));
                        all = more;
                    }
                    j = j + 1;
                }
                proof {
                    assert(samples@.subrange(0, samples@.len() as int) =~= samples@);
                    lemma_pixel_drawn(jitter, base, samples@, x * configuration::height + y);
                }
                y = y + 1;
            }
            assert(x * configuration::height + configuration::height == (x + 1)
                * configuration::height) by (nonlinear_arith);
            x = x + 1;
        }
        proof {
            assert(all.len() == spec_samples_per_image()) by (nonlinear_arith)
                requires
                    all.len() == x * configuration::height * spec_samples_per_pixel(),
                    x == configuration::width,
                    spec_samples_per_image() == configuration::width * configuration::height
                        * spec_samples_per_pixel(),
            ;
        }
    }

    /// Adds to the pixel `(x, y)` of the hit `i` the part of every light in turn.
    fn add_lights(&mut self, x: u32, y: u32, i: &IntersectionInfo, surface: [Fixed; 3])
        requires
            old(self).film.spec_well_formed(),
            x < configuration::width,
            y < configuration::height,
        ensures
            final(self).film.spec_well_formed(),
            final(self).camera == old(self).camera,
            final(self).solver == old(self).solver,
            final(self).shader == old(self).shader,
            final(self).lights == old(self).lights,
            final(self).ambient == old(self).ambient,
            final(self).sampler == old(self).sampler,
            final(self).film.spec_filters() == old(self).film.spec_filters(),
            final(self).film.spec_post_processors() == old(self).film.spec_post_processors(),
            final(self).film@ == spec_lights_added(
                old(self).solver,
                old(self).lights@,
                values_of(old(self).ambient),
                old(self).film.spec_filters(),
                i@,
                point_of(surface),
                old(self).film@,
                x as int,
                y as int,
                old(self).lights@.len() as int,
            ),
    {
        let ghost start = self.film@;
        let ghost filters = self.film.spec_filters();
        let mut k: usize = 0;
        while k < self.lights.len()
            invariant
                k <= self.lights.len(),
                x < configuration::width,
                y < configuration::height,
                self.film.spec_well_formed(),
                self.camera == old(self).camera,
                self.solver == old(self).solver,
                self.shader == old(self).shader,
                self.lights == old(self).lights,
                self.ambient == old(self).ambient,
                self.sampler == old(self).sampler,
                self.film.spec_filters() == filters,
                self.film.spec_post_processors() == old(self).film.spec_post_processors(),
                self.film@ == spec_lights_added(
                    self.solver,
                    self.lights@,
                    values_of(self.ambient),
                    filters,
                    i@,
                    point_of(surface),
                    start,
                    x as int,
                    y as int,
                    k as int,
                ),
            decreases self.lights.len() - k,
        {
            let l: Light = self.lights[k];
            let col: [Fixed; 3] = self.light_color(&l, i, surface);
            self.film.write_pixel(x, y, col);
            k = k + 1;
        }
    }

    /// Wipes the film.
    pub fn prepare_render(&mut self)
        requires
            old(self).film.spec_well_formed(),
        ensures
            final(self).film.spec_well_formed(),
            final(self).film@ == crate::film::spec_blank(),
            final(self).film.spec_filters() == old(self).film.spec_filters(),
            final(self).film.spec_post_processors() == old(self).film.spec_post_processors(),
            final(self).camera == old(self).camera,
            final(self).solver == old(self).solver,
            final(self).shader == old(self).shader,
            final(self).sampler == old(self).sampler,
            final(self).lights == old(self).lights,
            final(self).ambient == old(self).ambient,
    {
        self.film.prepare_render()
    }

    /// Refreshes the camera, the filters, the scene, the shader, the
    /// lights and the ambient light from `snapshot`.
    pub fn evaluate(&mut self, snapshot: &Snapshot)
        ensures
            old(self).camera.resolves_to(&final(self).camera, snapshot),
            old(self).shader.resolves_to(&final(self).shader, snapshot),
            final(self).shader.spec_is_lit() == old(self).shader.spec_is_lit(),
            final(self).film@ == old(self).film@,
            final(self).film.spec_well_formed() == old(self).film.spec_well_formed(),
            filters_resolve_to(
                old(self).film.spec_filters(),
                final(self).film.spec_filters(),
                snapshot,
            ),
            final(self).solver.primitives@.len() == old(self).solver.primitives@.len(),
            forall|i: int|
                0 <= i < old(self).solver.primitives@.len() ==> spec_evaluated(
                    #[trigger] old(self).solver.primitives@[i],
                    final(self).solver.primitives@[i],
                    snapshot,
                ),
            final(self).solver.tunables == old(self).solver.tunables,
            final(self).lights@.len() == old(self).lights@.len(),
            forall|i: int|
                0 <= i < old(self).lights@.len() ==> (#[trigger] old(self).lights@[i]).resolves_to(
                    &final(self).lights@[i],
                    snapshot,
                ),
            triple_resolves_to(old(self).ambient, final(self).ambient, snapshot),
            final(self).sampler == old(self).sampler,
    {
        self.camera.evaluate(snapshot);
        self.film.evaluate(snapshot);
        self.solver.evaluate(snapshot);
        self.shader.evaluate(snapshot);
        let ghost before = self.lights@;
        let mut k: usize = 0;
        while k < self.lights.len()
            invariant
                k <= self.lights.len(),
                self.lights@.len() == before.len(),
                before == old(self).lights@,
                old(self).camera.resolves_to(&self.camera, snapshot),
                old(self).shader.resolves_to(&self.shader, snapshot),
                self.shader.spec_is_lit() == old(self).shader.spec_is_lit(),
                self.film@ == old(self).film@,
                self.film.spec_well_formed() == old(self).film.spec_well_formed(),
                filters_resolve_to(old(self).film.spec_filters(), self.film.spec_filters(), snapshot),
                self.solver.primitives@.len() == old(self).solver.primitives@.len(),
                forall|i: int|
                    0 <= i < old(self).solver.primitives@.len() ==> spec_evaluated(
                        #[trigger] old(self).solver.primitives@[i],
                        self.solver.primitives@[i],
                        snapshot,
                    ),
                self.solver.tunables == old(self).solver.tunables,
                self.ambient == old(self).ambient,
                self.sampler == old(self).sampler,
                forall|j: int| k <= j < before.len() ==> self.lights@[j] == before[j],
                forall|j: int|
                    0 <= j < k ==> (#[trigger] before[j]).resolves_to(&self.lights@[j], snapshot),
            decreases self.lights.len() - k,
        {
            self.lights[k].evaluate(snapshot);
            k = k + 1;
        }
        self.ambient = resolve_triple(self.ambient, snapshot);
    }
}

/// A renderer of one of the three kinds.
pub enum Renderer {
    CameraRay(CameraRayRenderer),
    Solver(SolverRenderer),
    Light(LightRenderer),
}

impl Renderer {
    /// The film of the renderer.
    pub open spec fn spec_film(&self) -> BasicFilm {
        match self {
            Renderer::CameraRay(r) => r.film,
            Renderer::Solver(r) => r.film,
            Renderer::Light(r) => r.film,
        }
    }

    /// Whether the shader suits the renderer: lit for the renderer with
    /// lights, unlit for the renderer without.
    pub open spec fn spec_shader_suits(&self) -> bool {
        match self {
            Renderer::CameraRay(r) => true,
            Renderer::Solver(r) => !r.shader.spec_is_lit(),
            Renderer::Light(r) => r.shader.spec_is_lit(),
        }
    }

    /// Whether the shader suits the renderer.
    pub fn shader_suits(&self) -> (r: bool)
        ensures
            r == self.spec_shader_suits(),
    {
        match self {
            Renderer::CameraRay(r) => true,
            Renderer::Solver(r) => !r.shader.is_lit(),
            Renderer::Light(r) => r.shader.is_lit(),
        }
    }

    /// The film of the renderer.
    pub fn film(&self) -> (r: &BasicFilm)
        ensures
            *r == self.spec_film(),
    {
        match self {
            Renderer::CameraRay(r) => &r.film,
            Renderer::Solver(r) => &r.film,
            Renderer::Light(r) => &r.film,
        }
    }

    /// Renders the image onto the film, as the kind of the renderer does.
    pub fn render(&mut self)
        requires
            old(self).spec_shader_suits(),
            old(self).spec_film().spec_well_formed(),
        ensures
            final(self).spec_film().spec_well_formed(),
            final(self).spec_shader_suits(),
            match (*old(self), *final(self)) {
                (Renderer::CameraRay(a), Renderer::CameraRay(b)) => {
                    &&& b.camera == a.camera
                    &&& b.film@ == spec_camera_rays(
                        a.camera,
                        a.film,
                        a.film@,
                        configuration::width * configuration::height,
                    )
                },
                (Renderer::Solver(a), Renderer::Solver(b)) => exists|samples: Seq<CameraSample>|
                    samples.len() == spec_samples_per_image() && spec_image_drawn(
                        a.sampler.total_jitter@,
                        samples,
                        configuration::width * configuration::height,
                    ) && b.film@ == #[trigger] spec_solver_rendered(
                        a,
                        a.film@,
                        samples,
                        spec_samples_per_image(),
                    ),
                (Renderer::Light(a), Renderer::Light(b)) => exists|samples: Seq<CameraSample>|
                    samples.len() == spec_samples_per_image() && spec_image_drawn(
                        a.sampler.total_jitter@,
                        samples,
                        configuration::width * configuration::height,
                    ) && b.film@ == #[trigger] spec_light_rendered(
                        a,
                        a.film@,
                        samples,
                        spec_samples_per_image(),
                    ),
                _ => false,
            },
    {
        match self {
            Renderer::CameraRay(r) => r.render(),
            Renderer::Solver(r) => r.render(),
            Renderer::Light(r) => r.render(),
        }
    }

    /// Makes the film ready for an image: the renderer of camera rays
    /// leaves it as it is, the others wipe it.
    pub fn prepare_render(&mut self)
        requires
            old(self).spec_film().spec_well_formed(),
        ensures
            final(self).spec_film().spec_well_formed(),
            final(self).spec_shader_suits() == old(self).spec_shader_suits(),
            match (*old(self), *final(self)) {
                (Renderer::CameraRay(a), Renderer::CameraRay(b)) => b == a,
                (Renderer::Solver(a), Renderer::Solver(b)) => b.film@ == crate::film::spec_blank(),
                (Renderer::Light(a), Renderer::Light(b)) => b.film@ == crate::film::spec_blank(),
                _ => false,
            },
    {
        match self {
            Renderer::CameraRay(r) => r.prepare_render(),
            Renderer::Solver(r) => r.prepare_render(),
            Renderer::Light(r) => r.prepare_render(),
        }
    }

    /// Whether `new` is `self` refreshed from `snapshot`: the camera, the
    /// shader, the fields of the scene, the lights and the ambient light take
    /// their values from their slots; the kind of the renderer and the sampler
    /// stay as they are.
    pub open spec fn resolves_to(&self, new: &Renderer, snapshot: &Snapshot) -> bool {
        match (self, new) {
            (Renderer::CameraRay(a), Renderer::CameraRay(b)) => a.camera.resolves_to(
                &b.camera,
                snapshot,
            ),
            (Renderer::Solver(a), Renderer::Solver(b)) => {
                &&& a.camera.resolves_to(&b.camera, snapshot)
                &&& a.shader.resolves_to(&b.shader, snapshot)
                &&& b.sampler == a.sampler
                &&& b.solver.tunables == a.solver.tunables
                &&& b.solver.primitives@.len() == a.solver.primitives@.len()
                &&& forall|i: int|
                    0 <= i < a.solver.primitives@.len() ==> spec_evaluated(
                        #[trigger] a.solver.primitives@[i],
                        b.solver.primitives@[i],
                        snapshot,
                    )
            },
            (Renderer::Light(a), Renderer::Light(b)) => {
                &&& a.camera.resolves_to(&b.camera, snapshot)
                &&& a.shader.resolves_to(&b.shader, snapshot)
                &&& b.sampler == a.sampler
                &&& b.solver.tunables == a.solver.tunables
                &&& b.solver.primitives@.len() == a.solver.primitives@.len()
                &&& forall|i: int|
                    0 <= i < a.solver.primitives@.len() ==> spec_evaluated(
                        #[trigger] a.solver.primitives@[i],
                        b.solver.primitives@[i],
                        snapshot,
                    )
                &&& b.lights@.len() == a.lights@.len()
                &&& forall|i: int|
                    0 <= i < a.lights@.len() ==> (#[trigger] a.lights@[i]).resolves_to(
                        &b.lights@[i],
                        snapshot,
                    )
                &&& triple_resolves_to(a.ambient, b.ambient, snapshot)
            },
            _ => false,
        }
    }

    /// Refreshes everything that the renderer holds from `snapshot`. The
    /// image on the film stays as it is.
    pub fn evaluate(&mut self, snapshot: &Snapshot)
        ensures
            old(self).resolves_to(final(self), snapshot),
            final(self).spec_film().spec_well_formed() == old(self).spec_film().spec_well_formed(),
            final(self).spec_film()@ == old(self).spec_film()@,
            filters_resolve_to(
                old(self).spec_film().spec_filters(),
                final(self).spec_film().spec_filters(),
                snapshot,
            ),
            final(self).spec_shader_suits() == old(self).spec_shader_suits(),
    {
        match self {
            Renderer::CameraRay(r) => r.evaluate(snapshot),
            Renderer::Solver(r) => r.evaluate(snapshot),
            Renderer::Light(r) => r.evaluate(snapshot),
        }
    }
}

} // verus!
