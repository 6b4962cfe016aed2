//! Shaders: the colour of a surface where a ray hit it, and of the
//! background where it did not.

use crate::configuration;
use crate::fixed::{saturate, spec_clamp, spec_div, spec_mix, spec_mul, Fixed, SCALE};
use crate::helpers::{point_of, spec_dot, vec3_dot, vec_clamp, vec_interpolate, Point};
use crate::light::{resolve_triple, triple_resolves_to, values, values_of};
use crate::parameter::{Param, Snapshot};
use crate::solver::{IntersectionInfo, IntersectionView, SufraceProperties};
use vstd::prelude::*;

verus! {

/// The blend of two colours at the pixel `pos` of `size`: the first colour
/// at pixel zero, the second at the far end.
pub open spec fn spec_gradient(c1: Point, c2: Point, pos: int, size: int) -> Point {
    let f = spec_div(saturate(pos * SCALE), saturate(size * SCALE));
    Point { x: spec_mix(c1.x, c2.x, f), y: spec_mix(c1.y, c2.y, f), z: spec_mix(c1.z, c2.z, f) }
}

/// The blend of two colours at the pixel `pos` of `size`.
fn gradient(c1: [Fixed; 3], c2: [Fixed; 3], pos: u32, size: u32) -> (r: [Fixed; 3])
    ensures
        point_of(r) == spec_gradient(point_of(c1), point_of(c2), pos as int, size as int),
{
    let f: Fixed = Fixed::from_int(pos as i64).div(Fixed::from_int(size as i64));
    let r: [Fixed; 3] = vec_interpolate(c1, c2, f);
    assert(r[0]@ == spec_mix(c1[0]@, c2[0]@, f@));
    assert(r[1]@ == spec_mix(c1[1]@, c2[1]@, f@));
    assert(r[2]@ == spec_mix(c1[2]@, c2[2]@, f@));
    r
}

/// A background of one colour.
#[derive(Clone, Copy, Debug)]
pub struct BackgroundColorShader {
    pub color: [Fixed; 3],
}

impl BackgroundColorShader {
    pub fn new(color: [Fixed; 3]) -> (r: BackgroundColorShader)
        ensures
            r.color == color,
    {
        BackgroundColorShader { color }
    }

    pub fn shade(&self, x: u32, y: u32) -> (r: [Fixed; 3])
        ensures
            r == self.color,
    {
        self.color
    }
}

/// A background that blends from one colour at the left to another at the right.
#[derive(Clone, Copy, Debug)]
pub struct BackgroundLinearXGradient {
    pub color1: [Fixed; 3],
    pub color2: [Fixed; 3],
}

impl BackgroundLinearXGradient {
    pub fn new(color1: [Fixed; 3], color2: [Fixed; 3]) -> (r: BackgroundLinearXGradient)
        ensures
            r.color1 == color1,
            r.color2 == color2,
    {
        BackgroundLinearXGradient { color1, color2 }
    }

    pub fn shade(&self, x: u32, y: u32) -> (r: [Fixed; 3])
        ensures
            point_of(r) == spec_gradient(
                point_of(self.color1),
                point_of(self.color2),
                x as int,
                configuration::width as int,
            ),
    {
        gradient(self.color1, self.color2, x, configuration::width)
    }
}

/// A background that blends from one colour at the top to another at the bottom.
#[derive(Clone, Copy, Debug)]
pub struct BackgroundLinearYGradient {
    pub color1: [Fixed; 3],
    pub color2: [Fixed; 3],
}

impl BackgroundLinearYGradient {
    pub fn new(color1: [Fixed; 3], color2: [Fixed; 3]) -> (r: BackgroundLinearYGradient)
        ensures
            r.color1 == color1,
            r.color2 == color2,
    {
        BackgroundLinearYGradient { color1, color2 }
    }

    pub fn shade(&self, x: u32, y: u32) -> (r: [Fixed; 3])
        ensures
            point_of(r) == spec_gradient(
                point_of(self.color1),
                point_of(self.color2),
                y as int,
                configuration::height as int,
            ),
    {
        gradient(self.color1, self.color2, y, configuration::height)
    }
}

/// The shader of the background.
#[derive(Clone, Copy, Debug)]
pub enum BackgroundShader {
    Color(BackgroundColorShader),
    LinearX(BackgroundLinearXGradient),
    LinearY(BackgroundLinearYGradient),
}

impl BackgroundShader {
    /// The colour of the background at the pixel `(x, y)`, in raw values.
    pub open spec fn spec_shade(&self, x: u32, y: u32) -> Point {
        match self {
            BackgroundShader::Color(s) => point_of(s.color),
            BackgroundShader::LinearX(s) => spec_gradient(
                point_of(s.color1),
                point_of(s.color2),
                x as int,
                configuration::width as int,
            ),
            BackgroundShader::LinearY(s) => spec_gradient(
                point_of(s.color1),
                point_of(s.color2),
                y as int,
                configuration::height as int,
            ),
        }
    }

    /// The colour of the background at the pixel `(x, y)`.
    pub fn shade(&self, x: u32, y: u32) -> (r: [Fixed; 3])
        ensures
            point_of(r) == self.spec_shade(x, y),
    {
        match self {
            BackgroundShader::Color(s) => s.shade(x, y),
            BackgroundShader::LinearX(s) => s.shade(x, y),
            BackgroundShader::LinearY(s) => s.shade(x, y),
        }
    }

    /// A background has no animated attribute: nothing changes.
    pub fn evaluate(&mut self, snapshot: &Snapshot)
        ensures
            *final(self) == *old(self),
    {
    }
}

/// The colour that shows a normal: every component mapped from
/// `-1 ..= 1` to `0 ..= 1`.
pub open spec fn spec_normal_color(n: Point) -> Point {
    Point {
        x: saturate(spec_mul(n.x, SCALE / 2) + SCALE / 2),
        y: saturate(spec_mul(n.y, SCALE / 2) + SCALE / 2),
        z: saturate(spec_mul(n.z, SCALE / 2) + SCALE / 2),
    }
}

/// The colour that shows a normal.
fn normal_color(n: [Fixed; 3]) -> (r: [Fixed; 3])
    ensures
        point_of(r) == spec_normal_color(point_of(n)),
{
    let half: Fixed = Fixed::from_raw(SCALE / 2);
    [n[0].mul(half).add(half), n[1].mul(half).add(half), n[2].mul(half).add(half)]
}

/// The colour of a fractal: the first colour weighted by how the surface
/// faces the light, the second by the orbit trap, together clamped to
/// `0 ..= 1` and darkened by the number of steps over `darkness`.
pub open spec fn spec_fractal_color(
    col1: Point,
    col2: Point,
    darkness: int,
    light_dir: Point,
    i: IntersectionView,
) -> Point {
    let a = spec_clamp(spec_dot(spec_normal_color(i.normal), light_dir), 0, SCALE as int);
    let b = spec_clamp(spec_div(i.fractal_data.0, 16 * SCALE), 0, SCALE as int);
    let rim = spec_div(saturate(i.steps * SCALE), darkness);
    Point {
        x: spec_mul(
            spec_clamp(saturate(spec_mul(a, col1.x) + spec_mul(b, col2.x)), 0, SCALE as int),
            rim,
        ),
        y: spec_mul(
            spec_clamp(saturate(spec_mul(a, col1.y) + spec_mul(b, col2.y)), 0, SCALE as int),
            rim,
        ),
        z: spec_mul(
            spec_clamp(saturate(spec_mul(a, col1.z) + spec_mul(b, col2.z)), 0, SCALE as int),
            rim,
        ),
    }
}

/// Gives every surface one colour.
#[derive(Clone, Copy, Debug)]
pub struct ColorShader {
    pub color: [Fixed; 3],
    pub background_shader: BackgroundShader,
}

impl ColorShader {
    pub fn new(color: [Fixed; 3], background_shader: BackgroundShader) -> (r: ColorShader)
        ensures
            r.color == color,
            r.background_shader == background_shader,
    {
        ColorShader { color, background_shader }
    }
}

/// Shows the normal of a surface as its colour.
#[derive(Clone, Copy, Debug)]
pub struct NormalShader {
    pub background_shader: BackgroundShader,
}

impl NormalShader {
    pub fn new(background_shader: BackgroundShader) -> (r: NormalShader)
        ensures
            r.background_shader == background_shader,
    {
        NormalShader { background_shader }
    }
}

/// Colours a fractal by its orbit trap and by how it faces a light.
#[derive(Clone, Copy, Debug)]
pub struct FractalShader {
    pub col1: [Param; 3],
    pub col2: [Param; 3],
    pub darkness: Param,
    pub light_dir: [Param; 3],
    pub background_shader: BackgroundShader,
}

impl FractalShader {
    pub fn new(
        col1: [Param; 3],
        col2: [Param; 3],
        darkness: Param,
        light_dir: [Param; 3],
        background_shader: BackgroundShader,
    ) -> (r: FractalShader)
        ensures
            r.col1 == col1,
            r.col2 == col2,
            r.darkness == darkness,
            r.light_dir == light_dir,
            r.background_shader == background_shader,
    {
        FractalShader { col1, col2, darkness, light_dir, background_shader }
    }

    pub fn surface_props(&self, x: u32, y: u32, i: &IntersectionInfo) -> (r: SufraceProperties)
        ensures
            point_of(r.color) == spec_fractal_color(
                values_of(self.col1),
                values_of(self.col2),
                self.darkness.value@,
                values_of(self.light_dir),
                i@,
            ),
    {
        let col1: [Fixed; 3] = values(self.col1);
        let col2: [Fixed; 3] = values(self.col2);
        let light_dir: [Fixed; 3] = values(self.light_dir);
        let zero: Fixed = Fixed::zero();
        let one: Fixed = Fixed::one();
        let a: Fixed = vec3_dot(normal_color(i.normal), light_dir).clamp(zero, one);
        let b: Fixed = i.fractal_data[0].div(Fixed::from_int(16)).clamp(zero, one);
        let color_mix: [Fixed; 3] = vec_clamp(
            [
                a.mul(col1[0]).add(b.mul(col2[0])),
                a.mul(col1[1]).add(b.mul(col2[1])),
                a.mul(col1[2]).add(b.mul(col2[2])),
            ],
            zero,
            one,
        );
        let rim: Fixed = Fixed::from_int(i.steps as i64).div(self.darkness.get());
        assert(color_mix[0]@ == spec_clamp(
            saturate(spec_mul(a@, col1[0]@) + spec_mul(b@, col2[0]@)),
            0,
            SCALE as int,
        ));
        assert(color_mix[1]@ == spec_clamp(
            saturate(spec_mul(a@, col1[1]@) + spec_mul(b@, col2[1]@)),
            0,
            SCALE as int,
        ));
        assert(color_mix[2]@ == spec_clamp(
            saturate(spec_mul(a@, col1[2]@) + spec_mul(b@, col2[2]@)),
            0,
            SCALE as int,
        ));
        SufraceProperties {
            color: [color_mix[0].mul(rim), color_mix[1].mul(rim), color_mix[2].mul(rim)],
        }
    }

    pub fn evaluate(&mut self, snapshot: &Snapshot)
        ensures
            triple_resolves_to(old(self).col1, final(self).col1, snapshot),
            triple_resolves_to(old(self).col2, final(self).col2, snapshot),
            triple_resolves_to(old(self).light_dir, final(self).light_dir, snapshot),
            final(self).darkness == old(self).darkness.resolved(snapshot),
            final(self).background_shader == old(self).background_shader,
    {
        self.col1 = resolve_triple(self.col1, snapshot);
        self.col2 = resolve_triple(self.col2, snapshot);
        self.light_dir = resolve_triple(self.light_dir, snapshot);
        self.darkness = self.darkness.resolve(snapshot);
    }
}

/// Leaves every surface white, for the lights to colour.
#[derive(Clone, Copy, Debug)]
pub struct PhongShader {
    pub background_shader: BackgroundShader,
}

impl PhongShader {
    pub fn new(background_shader: BackgroundShader) -> (r: PhongShader)
        ensures
            r.background_shader == background_shader,
    {
        PhongShader { background_shader }
    }
}

/// The shader of the surfaces of a scene.
#[derive(Clone, Copy, Debug)]
pub enum Shader {
    Color(ColorShader),
    Normal(NormalShader),
    Fractal(FractalShader),
    Phong(PhongShader),
}

impl Shader {
    /// The shader of the background behind the surfaces.
    pub open spec fn spec_background(&self) -> BackgroundShader {
        match self {
            Shader::Color(s) => s.background_shader,
            Shader::Normal(s) => s.background_shader,
            Shader::Fractal(s) => s.background_shader,
            Shader::Phong(s) => s.background_shader,
        }
    }

    /// The colour of the surface that a ray hit, in raw values.
    pub open spec fn spec_surface(&self, i: IntersectionView) -> Point {
        match self {
            Shader::Color(s) => point_of(s.color),
            Shader::Normal(s) => spec_normal_color(i.normal),
            Shader::Fractal(s) => spec_fractal_color(
                values_of(s.col1),
                values_of(s.col2),
                s.darkness.value@,
                values_of(s.light_dir),
                i,
            ),
            Shader::Phong(s) => Point { x: SCALE as int, y: SCALE as int, z: SCALE as int },
        }
    }

    /// Whether the surfaces wait for lights to colour them.
    pub open spec fn spec_is_lit(&self) -> bool {
        self is Phong
    }

    /// The colour of the surface that the ray of the pixel `(x, y)` hit.
    pub fn surface_props(&self, x: u32, y: u32, i: &IntersectionInfo) -> (r: SufraceProperties)
        ensures
            point_of(r.color) == self.spec_surface(i@),
    {
        match self {
            Shader::Color(s) => SufraceProperties { color: s.color },
            Shader::Normal(s) => SufraceProperties { color: normal_color(i.normal) },
            Shader::Fractal(s) => s.surface_props(x, y, i),
            Shader::Phong(s) => {
                let one: Fixed = Fixed::one();
                SufraceProperties { color: [one, one, one] }
            },
        }
    }

    /// The colour of the pixel `(x, y)` whose ray hit nothing: the background.
    pub fn miss_color(&self, x: u32, y: u32, i: IntersectionInfo) -> (r: [Fixed; 3])
        ensures
            point_of(r) == self.spec_background().spec_shade(x, y),
    {
        match self {
            Shader::Color(s) => s.background_shader.shade(x, y),
            Shader::Normal(s) => s.background_shader.shade(x, y),
            Shader::Fractal(s) => s.background_shader.shade(x, y),
            Shader::Phong(s) => s.background_shader.shade(x, y),
        }
    }

    /// Whether the surfaces wait for lights to colour them.
    pub fn is_lit(&self) -> (r: bool)
        ensures
            r == self.spec_is_lit(),
    {
        match self {
            Shader::Phong(_) => true,
            _ => false,
        }
    }

    /// Whether `new` is `self` refreshed from `snapshot`: the attributes
    /// of a fractal shader from their slots, any other shader as it was.
    pub open spec fn resolves_to(&self, new: &Shader, snapshot: &Snapshot) -> bool {
        match (self, new) {
            (Shader::Fractal(a), Shader::Fractal(b)) => {
                &&& triple_resolves_to(a.col1, b.col1, snapshot)
                &&& triple_resolves_to(a.col2, b.col2, snapshot)
                &&& triple_resolves_to(a.light_dir, b.light_dir, snapshot)
                &&& b.darkness == a.darkness.resolved(snapshot)
                &&& b.background_shader == a.background_shader
            },
            (Shader::Fractal(_), _) => false,
            (a, b) => a == b,
        }
    }

    /// Refreshes the attributes of the shader from `snapshot`.
    pub fn evaluate(&mut self, snapshot: &Snapshot)
        ensures
            old(self).resolves_to(final(self), snapshot),
            final(self).spec_is_lit() == old(self).spec_is_lit(),
            final(self).spec_background() == old(self).spec_background(),
    {
        match self {
            Shader::Fractal(s) => s.evaluate(snapshot),
            _ => {},
        }
    }
}

} // verus!
