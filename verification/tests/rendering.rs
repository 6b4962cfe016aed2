use raymarch::cameras::{upper_left, Camera, PinholeCamera};
use raymarch::configuration::{height, width};
use raymarch::film::BasicFilm;
use raymarch::filter::{ColorShift, ColorShiftMode, Filter};
use raymarch::fixed::{Fixed, SCALE};
use raymarch::helpers::mat_identity;
use raymarch::light::{DirectionalLight, Light, PointLight};
use raymarch::parameter::{Param, Snapshot};
use raymarch::primitive::{Material, Primitive, Sphere};
use raymarch::renderers::{
    generate_samples, CameraRayRenderer, LightRenderer, Renderer, SolverRenderer,
};
use raymarch::sampler::JitterSampler;
use raymarch::shader::{
    BackgroundColorShader, BackgroundShader, ColorShader, NormalShader, PhongShader, Shader,
};
use raymarch::solver::GeneralSolver;

fn fx(v: f64) -> Fixed {
    Fixed::from_raw((v * SCALE as f64).round() as i64)
}

fn fl(v: Fixed) -> f64 {
    v.raw() as f64 / SCALE as f64
}

fn v3(x: f64, y: f64, z: f64) -> [Fixed; 3] {
    [fx(x), fx(y), fx(z)]
}

fn c(v: f64) -> Param {
    Param::constant(fx(v))
}

fn c3(x: f64, y: f64, z: f64) -> [Param; 3] {
    [c(x), c(y), c(z)]
}

fn raws(v: [Fixed; 3]) -> [i64; 3] {
    [v[0].raw(), v[1].raw(), v[2].raw()]
}

fn camera() -> Camera {
    Camera::Pinhole(PinholeCamera::new(c3(0.0, 0.0, 5.0), upper_left(mat_identity()), None))
}

fn background() -> BackgroundShader {
    BackgroundShader::Color(BackgroundColorShader::new(v3(0.1, 0.2, 0.3)))
}

fn sphere(material: Option<Material>) -> Primitive {
    Primitive::Sphere(Sphere::new(c(1.0), mat_identity(), None, Vec::new(), material))
}

fn zero_sample() -> ((Fixed, Fixed), (Fixed, Fixed)) {
    ((fx(0.0), fx(0.0)), (fx(0.0), fx(0.0)))
}

#[test]
fn camera_rays_fill_the_whole_film() {
    let mut r = CameraRayRenderer::new(camera(), BasicFilm::new(Vec::new(), Vec::new()));
    r.render();
    assert_eq!(raws(r.film.pixel(width / 2, height / 2)), [0, 0, -SCALE]);
    let corner = r.film.pixel(0, 0);
    let (rx, ry) = (-0.75f64, 0.5f64);
    let len = (rx * rx + ry * ry + 1.0).sqrt();
    assert!((fl(corner[0]) - rx / len).abs() < 1e-8);
    assert!((fl(corner[1]) - ry / len).abs() < 1e-8);
    let last = r.film.pixel(width - 1, height - 1);
    assert!(last[0].raw() > 0 && last[1].raw() < 0 && last[2].raw() < 0);
    // a second time the directions add up
    r.render();
    assert_eq!(raws(r.film.pixel(width / 2, height / 2)), [0, 0, -2 * SCALE]);
    r.prepare_render();
    assert_eq!(raws(r.film.pixel(width / 2, height / 2)), [0, 0, -2 * SCALE]);
}

#[test]
fn solver_renderer_colours_hits_and_misses() {
    let shader = Shader::Color(ColorShader::new(v3(0.4, 0.5, 0.6), background()));
    let film = BasicFilm::new(
        vec![Filter::ColorShift(ColorShift::new(c3(2.0, 2.0, 2.0), ColorShiftMode::Mul))],
        Vec::new(),
    );
    let mut r = SolverRenderer::new(
        camera(),
        film,
        GeneralSolver::new(vec![sphere(None)]),
        shader,
        JitterSampler::new(fx(0.5)),
    );
    r.render_sample(width / 2, height / 2, zero_sample());
    assert_eq!(raws(r.film.pixel(width / 2, height / 2)), raws(v3(0.8, 1.0, 1.2)));
    r.render_sample(0, 0, zero_sample());
    assert_eq!(raws(r.film.pixel(0, 0)), raws(v3(0.2, 0.4, 0.6)));
    assert_eq!(raws(r.film.pixel(1, 0)), [0, 0, 0]);
    r.prepare_render();
    assert_eq!(raws(r.film.pixel(0, 0)), [0, 0, 0]);
}

#[test]
fn solver_renderer_shows_normals() {
    let shader = Shader::Normal(NormalShader::new(background()));
    let mut r = SolverRenderer::new(
        camera(),
        BasicFilm::new(Vec::new(), Vec::new()),
        GeneralSolver::new(vec![sphere(None)]),
        shader,
        JitterSampler::new(fx(0.5)),
    );
    r.render_sample(width / 2, height / 2, zero_sample());
    let p = r.film.pixel(width / 2, height / 2);
    // the normal (0, 0, 1) shows as (0.5, 0.5, 1)
    assert!((fl(p[0]) - 0.5).abs() < 1e-5);
    assert!((fl(p[1]) - 0.5).abs() < 1e-5);
    assert!((fl(p[2]) - 1.0).abs() < 1e-5);
}

fn lit(lights: Vec<Light>, scene: Vec<Primitive>) -> LightRenderer {
    LightRenderer::new(
        camera(),
        BasicFilm::new(Vec::new(), Vec::new()),
        GeneralSolver::new(scene),
        Shader::Phong(PhongShader::new(background())),
        JitterSampler::new(fx(0.0)),
        lights,
        c3(0.01, 0.02, 0.03),
    )
}

#[test]
fn light_renderer_adds_the_light_of_every_light() {
    let matt = Material::new(c(0.5), c(0.0), c(1.0), c(0.0));
    let towards = Light::Directional(DirectionalLight::new(c3(0.0, 0.0, -1.0), c3(1.0, 0.5, 0.25), c(2.0)));
    let mut r = lit(vec![towards, towards], vec![sphere(Some(matt))]);
    r.render_sample(width / 2, height / 2, zero_sample());
    let p = r.film.pixel(width / 2, height / 2);
    // the light comes along the normal: intensity * albedo, once for each light
    assert!((fl(p[0]) - 2.0).abs() < 1e-5);
    assert!((fl(p[1]) - 1.0).abs() < 1e-5);
    assert!((fl(p[2]) - 0.5).abs() < 1e-5);
}

#[test]
fn light_renderer_adds_a_highlight() {
    let shiny = Material::new(c(0.0), c(0.5), c(1.0), c(10.0));
    let towards = Light::Directional(DirectionalLight::new(c3(0.0, 0.0, -1.0), c3(1.0, 1.0, 1.0), c(2.0)));
    let mut r = lit(vec![towards], vec![sphere(Some(shiny))]);
    r.render_sample(width / 2, height / 2, zero_sample());
    // no diffuse part; the mirrored light runs along the light: 2 * 1^10 * 0.5
    assert!((fl(r.film.pixel(width / 2, height / 2)[0]) - 1.0).abs() < 1e-5);
}

#[test]
fn light_renderer_leaves_shadows_to_the_ambient_light() {
    let behind = Light::Point(PointLight::new(c3(0.0, 0.0, -9.0), c3(1.0, 1.0, 1.0), c(500.0)));
    let mut r = lit(vec![behind], vec![sphere(None)]);
    r.render_sample(width / 2, height / 2, zero_sample());
    // the sphere itself stands between its near side and the light
    assert_eq!(raws(r.film.pixel(width / 2, height / 2)), raws(v3(0.01, 0.02, 0.03)));
    r.render_sample(0, 0, zero_sample());
    assert_eq!(raws(r.film.pixel(0, 0)), raws(v3(0.1, 0.2, 0.3)));
    let mut dark = lit(Vec::new(), vec![sphere(None)]);
    dark.render_sample(width / 2, height / 2, zero_sample());
    assert_eq!(raws(dark.film.pixel(width / 2, height / 2)), [0, 0, 0]);
}

#[test]
fn renderers_follow_their_slots() {
    let moving = Primitive::Sphere(Sphere::new(Param::animated(0, fx(1.0)), mat_identity(), None, Vec::new(), None));
    let shader = Shader::Color(ColorShader::new(v3(0.4, 0.5, 0.6), background()));
    let mut r = SolverRenderer::new(
        camera(),
        BasicFilm::new(Vec::new(), Vec::new()),
        GeneralSolver::new(vec![moving]),
        shader,
        JitterSampler::new(fx(0.5)),
    );
    let x = width / 2 + 200;
    r.render_sample(x, height / 2, zero_sample());
    assert_eq!(raws(r.film.pixel(x, height / 2)), raws(v3(0.1, 0.2, 0.3)));
    r.prepare_render();
    r.evaluate(&Snapshot::new(vec![fx(3.0)], Vec::new()));
    r.render_sample(x, height / 2, zero_sample());
    // the sphere has grown into the ray
    assert_eq!(raws(r.film.pixel(x, height / 2)), raws(v3(0.4, 0.5, 0.6)));
}

#[test]
fn samples_lie_on_a_grid() {
    let grid = generate_samples();
    assert_eq!(grid.len(), 1);
    assert_eq!([grid[0][0].raw(), grid[0][1].raw()], [0, 0]);
}

#[test]
fn render_covers_every_pixel() {
    let shader = Shader::Color(ColorShader::new(v3(0.4, 0.5, 0.6), background()));
    let mut r = Renderer::Solver(SolverRenderer::new(
        camera(),
        BasicFilm::new(Vec::new(), Vec::new()),
        GeneralSolver::new(Vec::new()),
        shader,
        JitterSampler::new(fx(0.5)),
    ));
    assert!(r.shader_suits());
    r.prepare_render();
    r.render();
    // an empty scene: the background everywhere
    for (x, y) in [(0, 0), (width - 1, 0), (0, height - 1), (width - 1, height - 1), (width / 2, height / 2)] {
        assert_eq!(raws(r.film().pixel(x, y)), raws(v3(0.1, 0.2, 0.3)));
    }
    r.evaluate(&Snapshot::new(Vec::new(), Vec::new()));
    assert_eq!(raws(r.film().pixel(3, 3)), raws(v3(0.1, 0.2, 0.3)));
    let lit = Renderer::Solver(SolverRenderer::new(
        camera(),
        BasicFilm::new(Vec::new(), Vec::new()),
        GeneralSolver::new(Vec::new()),
        Shader::Phong(PhongShader::new(background())),
        JitterSampler::new(fx(0.5)),
    ));
    assert!(!lit.shader_suits());
}

#[test]
fn render_with_lights_covers_every_pixel() {
    let towards = Light::Directional(DirectionalLight::new(c3(0.0, 0.0, -1.0), c3(1.0, 0.5, 0.25), c(2.0)));
    let mut r = Renderer::Light(lit(vec![towards], Vec::new()));
    assert!(r.shader_suits());
    r.render();
    assert_eq!(raws(r.film().pixel(width - 1, height - 1)), raws(v3(0.1, 0.2, 0.3)));
    assert_eq!(raws(r.film().pixel(0, 0)), raws(v3(0.1, 0.2, 0.3)));
}
