use raymarch::cameras::{concentric_sample_disk, upper_left, Camera, PinholeCamera, ThinLensCamera};
use raymarch::configuration::{height, samples, width};
use raymarch::fixed::{Fixed, LIMIT, SCALE};
use raymarch::helpers::mat_identity;
use raymarch::light::{DirectionalLight, Light, PointLight};
use raymarch::parameter::{Param, Snapshot};
use raymarch::primitive::MaterialRaw;
use raymarch::sampler::JitterSampler;
use raymarch::shader::{
    BackgroundColorShader, BackgroundLinearXGradient, BackgroundLinearYGradient, BackgroundShader,
    ColorShader, FractalShader, NormalShader, PhongShader, Shader,
};
use raymarch::solver::IntersectionInfo;

fn fx(v: f64) -> Fixed {
    Fixed::from_raw((v * SCALE as f64).round() as i64)
}

fn fl(v: Fixed) -> f64 {
    v.raw() as f64 / SCALE as f64
}

fn v3(x: f64, y: f64, z: f64) -> [Fixed; 3] {
    [fx(x), fx(y), fx(z)]
}

fn c(v: f64) -> Param {
    Param::constant(fx(v))
}

fn c3(x: f64, y: f64, z: f64) -> [Param; 3] {
    [c(x), c(y), c(z)]
}

fn raws(v: [Fixed; 3]) -> [i64; 3] {
    [v[0].raw(), v[1].raw(), v[2].raw()]
}

fn hit(normal: [Fixed; 3], trap: f64, steps: u32) -> IntersectionInfo {
    IntersectionInfo {
        hit: true,
        dist: fx(1.0),
        steps,
        fractal_data: [fx(trap), fx(trap), fx(trap), fx(trap)],
        normal,
        position: v3(0.0, 0.0, 0.0),
        material: MaterialRaw { albedo: fx(1.0), specular: fx(0.0), diffuse: fx(1.0), n_specular: fx(0.0) },
    }
}

fn zero_sample() -> ((Fixed, Fixed), (Fixed, Fixed)) {
    ((fx(0.0), fx(0.0)), (fx(0.0), fx(0.0)))
}

#[test]
fn directional_light_is_infinitely_far() {
    let l = DirectionalLight::new(c3(0.0, -3.0, 4.0), c3(1.0, 0.5, 0.0), c(2.0));
    let info = l.illuminate(v3(7.0, 8.0, 9.0));
    assert_eq!(info.distance.raw(), LIMIT);
    assert_eq!(raws(info.direction), [0, 600_000_000, -800_000_000]);
    assert_eq!(raws(info.light_intensity), [2 * SCALE, SCALE, 0]);
    assert_eq!(Light::Directional(l).illuminate(v3(0.0, 0.0, 0.0)).distance.raw(), LIMIT);
}

#[test]
fn point_light_falls_off_with_the_square_of_the_distance() {
    let l = PointLight::new(c3(0.0, 3.0, 4.0), c3(1.0, 0.5, 0.0), c(100.0));
    let info = l.illuminate(v3(0.0, 0.0, 0.0));
    assert_eq!(info.distance.raw(), 5 * SCALE);
    assert_eq!(raws(info.direction), [0, 600_000_000, 800_000_000]);
    let mul = 1.0 / (4.0 * std::f64::consts::PI * 25.0);
    assert!((fl(info.light_intensity[0]) - 100.0 * mul).abs() < 1e-7);
    assert!((fl(info.light_intensity[1]) - 50.0 * mul).abs() < 1e-7);
    assert_eq!(info.light_intensity[2].raw(), 0);
    // at the light itself nothing divides by zero
    let at = Light::Point(l).illuminate(v3(0.0, 3.0, 4.0));
    assert_eq!(at.distance.raw(), 0);
    assert_eq!(raws(at.direction), [0, 0, 0]);
    assert_eq!(at.light_intensity[0].raw(), LIMIT);
}

#[test]
fn lights_follow_their_slots() {
    let mut l = Light::Point(PointLight::new([Param::animated(0, fx(0.0)), c(0.0), c(0.0)], c3(1.0, 1.0, 1.0), c(1.0)));
    l.evaluate(&Snapshot::new(vec![fx(2.0)], Vec::new()));
    assert_eq!(l.illuminate(v3(0.0, 0.0, 0.0)).distance.raw(), 2 * SCALE);
}

#[test]
fn backgrounds_blend_across_the_image() {
    let plain = BackgroundShader::Color(BackgroundColorShader::new(v3(0.1, 0.2, 0.3)));
    assert_eq!(raws(plain.shade(5, 7)), raws(v3(0.1, 0.2, 0.3)));
    let across = BackgroundShader::LinearX(BackgroundLinearXGradient::new(v3(0.0, 1.0, 0.5), v3(1.0, 0.0, 0.5)));
    assert_eq!(raws(across.shade(0, 99)), [0, SCALE, SCALE / 2]);
    assert_eq!(raws(across.shade(width / 2, 0)), [SCALE / 2, SCALE / 2, SCALE / 2]);
    assert_eq!(raws(across.shade(width / 4, 0)), [SCALE / 4, 3 * SCALE / 4, SCALE / 2]);
    let down = BackgroundShader::LinearY(BackgroundLinearYGradient::new(v3(0.0, 0.0, 0.0), v3(1.0, 2.0, 4.0)));
    assert_eq!(raws(down.shade(33, height / 2)), [SCALE / 2, SCALE, 2 * SCALE]);
    assert_eq!(raws(down.shade(33, 0)), [0, 0, 0]);
}

#[test]
fn shaders_colour_a_hit() {
    let back = BackgroundShader::Color(BackgroundColorShader::new(v3(0.1, 0.2, 0.3)));
    let i = hit(v3(0.0, 1.0, -1.0), 8.0, 15);
    let color = Shader::Color(ColorShader::new(v3(0.4, 0.5, 0.6), back));
    assert_eq!(raws(color.surface_props(1, 2, &i).color), raws(v3(0.4, 0.5, 0.6)));
    assert!(!color.is_lit());
    let normal = Shader::Normal(NormalShader::new(back));
    assert_eq!(raws(normal.surface_props(1, 2, &i).color), [SCALE / 2, SCALE, 0]);
    let phong = Shader::Phong(PhongShader::new(back));
    assert_eq!(raws(phong.surface_props(1, 2, &i).color), [SCALE, SCALE, SCALE]);
    assert!(phong.is_lit());
    assert_eq!(raws(phong.miss_color(1, 2, i)), raws(v3(0.1, 0.2, 0.3)));
    assert_eq!(raws(normal.miss_color(1, 2, i)), raws(v3(0.1, 0.2, 0.3)));
}

#[test]
fn fractal_shader_mixes_light_and_trap() {
    let back = BackgroundShader::Color(BackgroundColorShader::new(v3(0.0, 0.0, 0.0)));
    let s = FractalShader::new(c3(0.1, 0.1, 0.4), c3(0.2, 0.9, 0.8), c(30.0), c3(0.0, 1.0, 0.0), back);
    let i = hit(v3(0.0, 0.0, 1.0), 8.0, 15);
    // a = (0.5, 0.5, 1) . (0, 1, 0) = 0.5, b = 8 / 16 = 0.5, rim = 15 / 30
    let r = s.surface_props(0, 0, &i).color;
    assert_eq!(raws(r), [75_000_000, 250_000_000, 300_000_000]);
    let bright = FractalShader::new(c3(2.0, 0.0, 0.0), c3(0.0, 0.0, 0.0), c(1.0), c3(0.0, 9.0, 0.0), back);
    // both the weight and the mix are clamped to one; rim = 15
    assert_eq!(bright.surface_props(0, 0, &i).color[0].raw(), 15 * SCALE);
    let mut animated = Shader::Fractal(FractalShader::new(c3(0.1, 0.1, 0.4), c3(0.2, 0.9, 0.8), Param::animated(0, fx(30.0)), c3(0.0, 1.0, 0.0), back));
    animated.evaluate(&Snapshot::new(vec![fx(15.0)], Vec::new()));
    assert_eq!(animated.surface_props(0, 0, &i).color[0].raw(), 150_000_000);
}

#[test]
fn pinhole_looks_down_the_negative_z_axis() {
    let cam = PinholeCamera::new(c3(1.0, 2.0, 3.0), upper_left(mat_identity()), None);
    let centre = cam.generate_ray(fx(width as f64 / 2.0), fx(height as f64 / 2.0), zero_sample());
    assert_eq!(raws(centre.origin), raws(v3(1.0, 2.0, 3.0)));
    assert_eq!(raws(centre.direction), [0, 0, -SCALE]);
    let corner = cam.generate_ray(fx(0.0), fx(0.0), zero_sample());
    let rx = ((0.0 / 720.0 - 0.5) * 720.0) / 480.0;
    let ry = (1.0 - 0.0 / 480.0) - 0.5;
    let len = (rx * rx + ry * ry + 1.0f64).sqrt();
    assert!((fl(corner.direction[0]) - rx / len).abs() < 1e-8);
    assert!((fl(corner.direction[1]) - ry / len).abs() < 1e-8);
    assert!((fl(corner.direction[2]) + 1.0 / len).abs() < 1e-8);
}

#[test]
fn pinhole_follows_its_slots() {
    let mut quarter = mat_identity();
    quarter[0][0] = fx(0.0);
    quarter[0][1] = fx(1.0);
    quarter[1][0] = fx(-1.0);
    quarter[1][1] = fx(0.0);
    let mut cam = Camera::Pinhole(PinholeCamera::new([Param::animated(0, fx(0.0)), c(0.0), c(0.0)], upper_left(mat_identity()), Some(0)));
    cam.evaluate(&Snapshot::new(vec![fx(5.0)], vec![quarter]));
    let ray = cam.generate_ray(fx(width as f64 / 2.0), fx(0.0), zero_sample());
    assert_eq!(ray.origin[0].raw(), 5 * SCALE);
    // the direction (0, 0.5, -1) normalised, then turned a quarter about z
    let len = (0.25f64 + 1.0).sqrt();
    assert!((fl(ray.direction[0]) + 0.5 / len).abs() < 1e-8);
    assert!(fl(ray.direction[1]).abs() < 1e-8);
    assert!((fl(ray.direction[2]) + 1.0 / len).abs() < 1e-8);
}

#[test]
fn disk_samples_keep_their_radius() {
    assert_eq!(concentric_sample_disk(fx(0.5), fx(0.5)), (fx(0.0), fx(0.0)));
    let p = concentric_sample_disk(fx(1.0), fx(0.5));
    assert_eq!(p.0.raw(), SCALE);
    assert_eq!(p.1.raw(), 0);
    let q = concentric_sample_disk(fx(0.5), fx(0.0));
    // offset (0, -1): radius -1 at a quarter turn
    assert!(fl(q.0).abs() < 1e-8);
    assert!((fl(q.1) + 1.0).abs() < 1e-8);
    let d = concentric_sample_disk(fx(0.9), fx(0.7));
    let (ox, oy) = (0.8f64, 0.4f64);
    let theta = std::f64::consts::FRAC_PI_4 * (oy / ox);
    assert!((fl(d.0) - ox * theta.cos()).abs() < 1e-8);
    assert!((fl(d.1) - ox * theta.sin()).abs() < 1e-8);
}

#[test]
fn thin_lens_aims_at_the_focus() {
    let cam = ThinLensCamera::new(c(0.0), c(2.0), c3(0.0, 0.0, 0.0), mat_identity(), None);
    let ray = cam.generate_ray(fx(359.5), fx(239.5), zero_sample());
    // the middle of the image: the focus lies straight ahead of the lens
    assert_eq!(raws(ray.origin), [0, 0, 0]);
    assert_eq!(raws(ray.direction), [0, 0, -SCALE]);
    let wide = Camera::ThinLens(ThinLensCamera::new(c(0.5), c(2.0), c3(1.0, 0.0, 3.0), mat_identity(), None));
    let off = wide.generate_ray(fx(359.5), fx(239.5), ((fx(0.0), fx(0.0)), (fx(1.0), fx(0.5))));
    // the lens point (1, 0) times the radius moves the origin
    assert_eq!(raws(off.origin), [1_500_000_000, 1_500_000_000, 3 * SCALE]);
    let len = (0.25f64 + 4.0).sqrt();
    assert!((fl(off.direction[0]) - 0.5 / len).abs() < 1e-8);
    assert!(fl(off.direction[1]).abs() < 1e-8);
    assert!((fl(off.direction[2]) + 2.0 / len).abs() < 1e-8);
}

#[test]
fn sampler_moves_every_sample_by_its_random_numbers() {
    let s = JitterSampler::new(fx(0.5));
    assert_eq!(s.total_jitter.raw(), SCALE / 2);
    assert_eq!(JitterSampler::randoms_needed(), (4 * samples * samples) as usize);
    let out = s.jittered_samples(&vec![fx(0.5), fx(1.0), fx(0.0), fx(0.75)]);
    assert_eq!(out.len(), (samples * samples) as usize);
    assert_eq!(out[0].0 .0.raw(), 0);
    assert_eq!(out[0].0 .1.raw(), SCALE / 4);
    assert_eq!(out[0].1 .0.raw(), -SCALE / 4);
    assert_eq!(out[0].1 .1.raw(), SCALE / 8);
}

#[test]
fn drawn_samples_stay_within_the_jitter() {
    let s = JitterSampler::new(fx(0.5));
    let mut seen = Vec::new();
    for _ in 0..200 {
        let out = s.generate_samples(1, 2);
        assert_eq!(out.len(), (samples * samples) as usize);
        for v in [out[0].0 .0, out[0].0 .1, out[0].1 .0, out[0].1 .1] {
            assert!(v.raw() >= -SCALE / 4 && v.raw() < SCALE / 4);
            seen.push(v.raw());
        }
    }
    // the numbers are drawn, not made up: they differ
    assert!(seen.iter().any(|v| *v != seen[0]));
    let still = JitterSampler::new(fx(0.0)).generate_samples(0, 0);
    assert_eq!(still[0].0 .0.raw(), 0);
    assert_eq!(still[0].1 .1.raw(), 0);
}
