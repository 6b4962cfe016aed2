//! Cameras: the ray that belongs to a point of the image.

use crate::configuration;
use crate::fixed::{saturate, spec_abs, spec_div, spec_mul, Fixed, SCALE};
use crate::helpers::{
    mat_dir_mul, mat_dir_mul3, point_of, spec_mat_dir_mul, spec_mat_dir_mul3, spec_normalized,
    vec3_normalized, Point,
};
use crate::light::{resolve_triple, triple_resolves_to, values, values_of};
use crate::math::{cos, sin, spec_cos, spec_sin, HALF_PI, QUARTER_PI};
use crate::matrix::{spec_to_radians, to_radians};
use crate::parameter::{Param, Snapshot};
use crate::solver::Ray;
use vstd::prelude::*;

verus! {

/// A point of the unit square.
pub type Sample = (Fixed, Fixed);

/// A point of the film and a point of the lens.
pub type CameraSample = (Sample, Sample);

/// A ray in raw values.
pub struct RayView {
    pub origin: Point,
    pub direction: Point,
}

impl View for Ray {
    type V = RayView;

    open spec fn view(&self) -> RayView {
        RayView { origin: point_of(self.origin), direction: point_of(self.direction) }
    }
}

/// The width of the image over its height.
pub open spec fn spec_aspect() -> int {
    spec_div(saturate(configuration::width * SCALE), saturate(configuration::height * SCALE))
}

/// Half the angle of view, in radians.
pub open spec fn spec_half_view() -> int {
    spec_to_radians(spec_mul(configuration::fov as int, SCALE / 2))
}

/// The width of the image over its height.
fn aspect() -> (r: Fixed)
    ensures
        r@ == spec_aspect(),
{
    Fixed::from_int(configuration::width as i64).div(Fixed::from_int(configuration::height as i64))
}

/// Half the angle of view, in radians.
fn half_view() -> (r: Fixed)
    ensures
        r@ == spec_half_view(),
{
    to_radians(Fixed::from_raw(configuration::fov).mul(Fixed::from_raw(SCALE / 2)))
}

/// The upper left 3x3 block of a 4x4 matrix.
pub fn upper_left(m: [[Fixed; 4]; 4]) -> (r: [[Fixed; 3]; 3])
    ensures
        forall|i: int, j: int| 0 <= i < 3 && 0 <= j < 3 ==> #[trigger] r[i][j] == m[i][j],
{
    [[m[0][0], m[0][1], m[0][2]], [m[1][0], m[1][1], m[1][2]], [m[2][0], m[2][1], m[2][2]]]
}

/// The direction through the point `(x, y)` of the image, before the
/// camera is turned: `x` is centred and measured in heights of the image,
/// `y` is centred and points up, and the image lies one unit ahead.
pub open spec fn spec_pinhole_direction(x: int, y: int) -> Point {
    let w = saturate(configuration::width * SCALE);
    let h = saturate(configuration::height * SCALE);
    let rx = spec_div(spec_mul(saturate(spec_div(x, w) - SCALE / 2), w), h);
    let ry = saturate(saturate(SCALE - spec_div(y, h)) - SCALE / 2);
    spec_normalized(Point { x: rx, y: ry, z: -SCALE })
}

/// A camera that sees through one point.
#[derive(Clone, Copy, Debug)]
pub struct PinholeCamera {
    pub pos: [Param; 3],
    pub pos_f64: [Fixed; 3],
    /// The inverse of the camera's rotation.
    pub mat_inv: [[Fixed; 3]; 3],
    /// The slot whose upper left block refreshes the inverse rotation.
    pub transform_slot: Option<usize>,
    pub ar: Fixed,
    pub scale: Fixed,
}

impl PinholeCamera {
    pub fn new(pos: [Param; 3], mat_inv: [[Fixed; 3]; 3], transform_slot: Option<usize>) -> (r:
        PinholeCamera)
        ensures
            r.pos == pos,
            point_of(r.pos_f64) == values_of(pos),
            r.mat_inv == mat_inv,
            r.transform_slot == transform_slot,
            r.ar@ == spec_aspect(),
            r.scale@ == spec_half_view(),
    {
        PinholeCamera {
            pos_f64: values(pos),
            pos,
            ar: aspect(),
            scale: half_view(),
            mat_inv,
            transform_slot,
        }
    }

    /// The ray through the point `(x, y)` of the image.
    pub open spec fn spec_generate_ray(&self, x: int, y: int) -> RayView {
        RayView {
            origin: point_of(self.pos_f64),
            direction: spec_mat_dir_mul3(self.mat_inv, spec_pinhole_direction(x, y)),
        }
    }

    pub fn generate_ray(&self, x: Fixed, y: Fixed, sample: CameraSample) -> (r: Ray)
        ensures
            r@ == self.spec_generate_ray(x@, y@),
    {
        let w: Fixed = Fixed::from_int(configuration::width as i64);
        let h: Fixed = Fixed::from_int(configuration::height as i64);
        let half: Fixed = Fixed::from_raw(SCALE / 2);
        let rx: Fixed = x.div(w).sub(half).mul(w).div(h);
        let ry: Fixed = Fixed::one().sub(y.div(h)).sub(half);
        let dir: [Fixed; 3] = vec3_normalized([rx, ry, Fixed::one().neg()]);
        Ray {
            direction: mat_dir_mul3(self.mat_inv, dir),
            origin: [self.pos_f64[0], self.pos_f64[1], self.pos_f64[2]],
        }
    }

    /// Whether `new` is `self` refreshed from `snapshot`: the position
    /// from its slots, and the inverse rotation from the upper left block of
    /// the transform in its slot.
    pub open spec fn resolves_to(&self, new: &PinholeCamera, snapshot: &Snapshot) -> bool {
        &&& triple_resolves_to(self.pos, new.pos, snapshot)
        &&& point_of(new.pos_f64) == values_of(new.pos)
        &&& new.transform_slot == self.transform_slot
        &&& new.ar == self.ar
        &&& new.scale == self.scale
        &&& match self.transform_slot {
            Some(slot) => if slot < snapshot.transforms@.len() {
                forall|i: int, j: int|
                    0 <= i < 3 && 0 <= j < 3 ==> #[trigger] new.mat_inv[i][j]
                        == snapshot.transforms@[slot as int][i][j]
            } else {
                new.mat_inv == self.mat_inv
            },
            None => new.mat_inv == self.mat_inv,
        }
    }

    /// Refreshes the position and the inverse rotation from `snapshot`.
    pub fn evaluate(&mut self, snapshot: &Snapshot)
        ensures
            old(self).resolves_to(final(self), snapshot),
    {
        self.pos = resolve_triple(self.pos, snapshot);
        self.pos_f64 = values(self.pos);
        match self.transform_slot {
            Some(slot) => {
                if slot < snapshot.transforms.len() {
                    self.mat_inv = upper_left(snapshot.transforms[slot]);
                }
            },
            None => {},
        }
    }
}

/// The point of the unit disk that belongs to the point `(sx, sy)` of
/// the unit square, where squares around the centre go to circles around
/// the centre.
pub open spec fn spec_concentric_sample_disk(sx: int, sy: int) -> (int, int) {
    let ox = saturate(spec_mul(2 * SCALE, sx) - SCALE);
    let oy = saturate(spec_mul(2 * SCALE, sy) - SCALE);
    if ox == 0 && oy == 0 {
        (0, 0)
    } else {
        let r = if spec_abs(ox) > spec_abs(oy) {
            ox
        } else {
            oy
        };
        let theta = if spec_abs(ox) > spec_abs(oy) {
            spec_mul(QUARTER_PI as int, spec_div(oy, ox))
        } else {
            saturate(HALF_PI - spec_mul(QUARTER_PI as int, spec_div(ox, oy)))
        };
        (spec_mul(r, spec_cos(theta)), spec_mul(r, spec_sin(theta)))
    }
}

/// The point of the unit disk that belongs to a point of the unit square.
pub fn concentric_sample_disk(sample_x: Fixed, sample_y: Fixed) -> (r: Sample)
    ensures
        (r.0@, r.1@) == spec_concentric_sample_disk(sample_x@, sample_y@),
{
    let two: Fixed = Fixed::from_int(2);
    let one: Fixed = Fixed::one();
    let offset_x: Fixed = two.mul(sample_x).sub(one);
    let offset_y: Fixed = two.mul(sample_y).sub(one);
    if offset_x.raw() == 0 && offset_y.raw() == 0 {
        return (Fixed::zero(), Fixed::zero());
    }
    let theta: Fixed;
    let r: Fixed;
    if offset_x.abs().gt(offset_y.abs()) {
        r = offset_x;
        theta = Fixed::from_raw(QUARTER_PI).mul(offset_y.div(offset_x));
    } else {
        r = offset_y;
        theta = Fixed::from_raw(HALF_PI).sub(
            Fixed::from_raw(QUARTER_PI).mul(offset_x.div(offset_y)),
        );
    }
    (r.mul(cos(theta)), r.mul(sin(theta)))
}

/// The direction through the point `(x, y)` of the image of a lens
/// camera, before the camera is turned.
pub open spec fn spec_lens_direction(x: int, y: int, ar: int, scale: int) -> Point {
    let w = saturate(configuration::width * SCALE);
    let h = saturate(configuration::height * SCALE);
    let half = SCALE / 2;
    let rx = spec_mul(
        spec_mul(saturate(spec_div(spec_mul(2 * SCALE, saturate(x + half)), w) - SCALE), ar),
        scale,
    );
    let ry = spec_mul(saturate(SCALE - spec_div(spec_mul(2 * SCALE, saturate(y + half)), h)), scale);
    spec_normalized(Point { x: rx, y: ry, z: -SCALE })
}

/// A camera with a lens of some width, sharp at one distance.
#[derive(Clone, Copy, Debug)]
pub struct ThinLensCamera {
    pub lens_radius: Param,
    pub focal_distance: Param,
    pub pos: [Param; 3],
    pub pos_f64: [Fixed; 3],
    /// The inverse of the camera's position and rotation.
    pub mat_inv: [[Fixed; 4]; 4],
    /// The slot that refreshes the inverse.
    pub transform_slot: Option<usize>,
    pub ar: Fixed,
    pub scale: Fixed,
}

impl ThinLensCamera {
    pub fn new(
        lens_radius: Param,
        focal_distance: Param,
        pos: [Param; 3],
        mat_inv: [[Fixed; 4]; 4],
        transform_slot: Option<usize>,
    ) -> (r: ThinLensCamera)
        ensures
            r.lens_radius == lens_radius,
            r.focal_distance == focal_distance,
            r.pos == pos,
            point_of(r.pos_f64) == values_of(pos),
            r.mat_inv == mat_inv,
            r.transform_slot == transform_slot,
            r.ar@ == spec_aspect(),
            r.scale@ == spec_half_view(),
    {
        ThinLensCamera {
            lens_radius,
            focal_distance,
            pos_f64: values(pos),
            pos,
            ar: aspect(),
            scale: half_view(),
            mat_inv,
            transform_slot,
        }
    }

    /// The ray through the point `(x, y)` of the image that leaves the
    /// lens at the point that belongs to `(lens_x, lens_y)`.
    pub open spec fn spec_generate_ray(&self, x: int, y: int, lens_x: int, lens_y: int) -> RayView {
        let dir = spec_lens_direction(x, y, self.ar@, self.scale@);
        let p_lens = spec_concentric_sample_disk(lens_x, lens_y);
        let ft = spec_div(self.focal_distance.value@, dir.z);
        let o0 = spec_mul(p_lens.0, self.lens_radius.value@);
        let o1 = spec_mul(p_lens.1, self.lens_radius.value@);
        let towards = spec_normalized(
            Point {
                x: saturate(o0 - spec_mul(dir.x, ft)),
                y: saturate(o1 - spec_mul(dir.y, ft)),
                z: -spec_mul(dir.z, ft),
            },
        );
        RayView {
            direction: spec_mat_dir_mul(self.mat_inv, towards),
            origin: Point {
                x: saturate(o0 + self.pos_f64[0]@),
                y: saturate(o0 + self.pos_f64[0]@),
                z: saturate(o1 + self.pos_f64[2]@),
            },
        }
    }

    pub fn generate_ray(&self, x: Fixed, y: Fixed, sample: CameraSample) -> (r: Ray)
        ensures
            r@ == self.spec_generate_ray(x@, y@, sample.1.0@, sample.1.1@),
    {
        let lens_radius: Fixed = self.lens_radius.get();
        let w: Fixed = Fixed::from_int(configuration::width as i64);
        let h: Fixed = Fixed::from_int(configuration::height as i64);
        let half: Fixed = Fixed::from_raw(SCALE / 2);
        let two: Fixed = Fixed::from_int(2);
        let one: Fixed = Fixed::one();
        let rx: Fixed = two.mul(x.add(half)).div(w).sub(one).mul(self.ar).mul(self.scale);
        let ry: Fixed = one.sub(two.mul(y.add(half)).div(h)).mul(self.scale);
        let dir: [Fixed; 3] = vec3_normalized([rx, ry, one.neg()]);
        let p_lens: Sample = concentric_sample_disk(sample.1.0, sample.1.1);
        let ft: Fixed = self.focal_distance.get().div(dir[2]);
        let ray_o: [Fixed; 3] = [p_lens.0.mul(lens_radius), p_lens.1.mul(lens_radius), Fixed::zero()];
        let focus: [Fixed; 3] = [dir[0].mul(ft), dir[1].mul(ft), dir[2].mul(ft)];
        Ray {
            direction: mat_dir_mul(
                self.mat_inv,
                vec3_normalized([ray_o[0].sub(focus[0]), ray_o[1].sub(focus[1]), focus[2].neg()]),
            ),
            origin: [
                ray_o[0].add(self.pos_f64[0]),
                ray_o[0].add(self.pos_f64[0]),
                ray_o[1].add(self.pos_f64[2]),
            ],
        }
    }

    /// Whether `new` is `self` refreshed from `snapshot`.
    pub open spec fn resolves_to(&self, new: &ThinLensCamera, snapshot: &Snapshot) -> bool {
        &&& new.lens_radius == self.lens_radius.resolved(snapshot)
        &&& new.focal_distance == self.focal_distance.resolved(snapshot)
        &&& triple_resolves_to(self.pos, new.pos, snapshot)
        &&& point_of(new.pos_f64) == values_of(new.pos)
        &&& new.mat_inv == snapshot.spec_transform(self.transform_slot, self.mat_inv)
        &&& new.transform_slot == self.transform_slot
        &&& new.ar == self.ar
        &&& new.scale == self.scale
    }

    /// Refreshes the lens, the position and the inverse from `snapshot`.
    pub fn evaluate(&mut self, snapshot: &Snapshot)
        ensures
            old(self).resolves_to(final(self), snapshot),
    {
        self.lens_radius = self.lens_radius.resolve(snapshot);
        self.focal_distance = self.focal_distance.resolve(snapshot);
        self.pos = resolve_triple(self.pos, snapshot);
        self.pos_f64 = values(self.pos);
        self.mat_inv = snapshot.transform(self.transform_slot, self.mat_inv);
    }
}

/// The camera of a scene.
#[derive(Clone, Copy, Debug)]
pub enum Camera {
    Pinhole(PinholeCamera),
    ThinLens(ThinLensCamera),
}

impl Camera {
    /// The ray through the point `(x, y)` of the image, in raw values.
    pub open spec fn spec_generate_ray(&self, x: int, y: int, lens_x: int, lens_y: int) -> RayView {
        match self {
            Camera::Pinhole(c) => c.spec_generate_ray(x, y),
            Camera::ThinLens(c) => c.spec_generate_ray(x, y, lens_x, lens_y),
        }
    }

    /// The ray through the point `(x, y)` of the image.
    pub fn generate_ray(&self, x: Fixed, y: Fixed, sample: CameraSample) -> (r: Ray)
        ensures
            r@ == self.spec_generate_ray(x@, y@, sample.1.0@, sample.1.1@),
    {
        match self {
            Camera::Pinhole(c) => c.generate_ray(x, y, sample),
            Camera::ThinLens(c) => c.generate_ray(x, y, sample),
        }
    }

    /// Whether `new` is `self` refreshed from `snapshot`.
    pub open spec fn resolves_to(&self, new: &Camera, snapshot: &Snapshot) -> bool {
        match (self, new) {
            (Camera::Pinhole(a), Camera::Pinhole(b)) => a.resolves_to(b, snapshot),
            (Camera::ThinLens(a), Camera::ThinLens(b)) => a.resolves_to(b, snapshot),
            _ => false,
        }
    }

    /// Refreshes the camera from `snapshot`.
    pub fn evaluate(&mut self, snapshot: &Snapshot)
        ensures
            old(self).resolves_to(final(self), snapshot),
    {
        match self {
            Camera::Pinhole(c) => c.evaluate(snapshot),
            Camera::ThinLens(c) => c.evaluate(snapshot),
        }
    }
}

} // verus!
