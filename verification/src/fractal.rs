//! Escape-time fractals as distance fields.
//!
//! A fractal has no exact distance. Each field here iterates the point
//! until it escapes or the iterations run out, keeps track of how fast the
//! iteration stretches space, and estimates the distance from the two. Where
//! the estimate would divide by zero or take the logarithm of zero, the
//! distance is reported as infinite.

use crate::fixed::{
    saturate, spec_abs, spec_div, spec_min, spec_mul, spec_sqrt, Fixed, LIMIT, SCALE,
};
use crate::helpers::{
    min_f64, point_of, quad_of, spec_dot4, spec_len, vec3_len, vec4_dot, Point,
};
use crate::math::{
    acos, atan2, cos, ln, powf, sin, spec_acos, spec_atan2, spec_cos, spec_ln, spec_powf,
    spec_sin,
};
use crate::modifier::PosModifier;
use crate::parameter::{Param, Snapshot};
use crate::primitive::{
    get_primitive_data, spec_direct_material, Material, MaterialRaw, PrimitiveData,
    PrimitiveResult, Sample,
};
use vstd::prelude::*;

verus! {

/// The most iterations that the bulb takes.
pub const BULB_ITERATIONS: u32 = 15;

/// The most iterations that the Julia set takes.
pub const JULIA_ITERATIONS: u32 = 11;

/// The point `z` of length `r` raised to the raw power `pow` in spherical
/// form and moved by `pos`: the polar angle and the azimuth are multiplied by
/// the power, and the length is raised to it.
pub open spec fn spec_bulb_power(pos: Point, pow: int, z: Point, r: int) -> Point {
    let theta = spec_mul(spec_acos(spec_div(z.z, r)), pow);
    let phi = spec_mul(spec_atan2(z.y, z.x), pow);
    let zr = spec_powf(r, pow);
    Point {
        x: saturate(spec_mul(spec_mul(spec_sin(theta), spec_cos(phi)), zr) + pos.x),
        y: saturate(spec_mul(spec_mul(spec_sin(phi), spec_sin(theta)), zr) + pos.y),
        z: saturate(spec_mul(spec_cos(theta), zr) + pos.z),
    }
}

/// The running derivative after one more iteration at the length `r`:
/// `r^(pow - 1) * pow * dr + 1`.
pub open spec fn spec_bulb_derivative(pow: int, dr: int, r: int) -> int {
    saturate(spec_mul(spec_mul(spec_powf(r, saturate(pow - SCALE)), pow), dr) + SCALE)
}

/// Where the iteration of the bulb ends, from the point `z` with the
/// derivative `dr` at iteration `i`: the length at the last test, the
/// derivative, and the number of the last iteration. The iteration stops where
/// the length is over two, and after the last iteration.
pub open spec fn spec_bulb_run(pos: Point, pow: int, z: Point, dr: int, i: int) -> (int, int, int)
    decreases BULB_ITERATIONS - i,
{
    let r = spec_len(z);
    if r > 2 * SCALE || i >= BULB_ITERATIONS {
        (r, dr, i)
    } else if i == BULB_ITERATIONS - 1 {
        (r, spec_bulb_derivative(pow, dr, r), i)
    } else {
        spec_bulb_run(
            pos,
            pow,
            spec_bulb_power(pos, pow, z, r),
            spec_bulb_derivative(pow, dr, r),
            i + 1,
        )
    }
}

/// The distance estimate of the bulb: `ln(r) * r / (2 dr)`, and infinite
/// where the length or the derivative is zero.
pub open spec fn spec_bulb_distance(r: int, dr: int) -> int {
    if r <= 0 || dr == 0 {
        LIMIT as int
    } else {
        spec_div(spec_mul(spec_mul(SCALE / 2, spec_ln(r)), r), dr)
    }
}

/// The bulb: the set of points that stay bounded under `z -> z^n + p`,
/// taken in spherical coordinates.
pub struct Mandelbulb {
    pub primtive_data: PrimitiveData,
    pub power: Param,
    pub material: Material,
    pub material_raw: MaterialRaw,
}

impl Mandelbulb {
    pub fn new(
        power: Param,
        mat_inv: [[Fixed; 4]; 4],
        transform_slot: Option<usize>,
        pos_modifier: Vec<PosModifier>,
    ) -> (r: Mandelbulb)
        ensures
            r.power == power,
            r.primtive_data.mat_inv == mat_inv,
            r.primtive_data.transform_slot == transform_slot,
            r.primtive_data.pos_modifier == pos_modifier,
            r.material.spec_raw() == spec_direct_material(),
            r.material.is_constant(),
            r.material_raw@ == spec_direct_material(),
    {
        let m: Material = Material::new_direct();
        Mandelbulb {
            primtive_data: get_primitive_data(mat_inv, transform_slot, pos_modifier),
            power,
            material_raw: m.snapshot(),
            material: m,
        }
    }

    /// The answer at the point `p` of the bulb's own frame. The number of
    /// the last iteration is reported in every component of the trap.
    pub open spec fn spec_sample(&self, p: Point) -> Sample {
        let end = spec_bulb_run(p, self.power.value@, p, SCALE as int, 0);
        let n = end.2 * SCALE;
        Sample {
            distance: spec_bulb_distance(end.0, end.1),
            fractal_data: (n, n, n, n),
            material: self.material_raw@,
        }
    }

    /// Whether `new` is `self` refreshed from `snapshot`.
    pub open spec fn resolves_to(&self, new: &Mandelbulb, snapshot: &Snapshot) -> bool {
        &&& new.power == self.power.resolved(snapshot)
        &&& self.primtive_data.resolves_to(&new.primtive_data, snapshot)
        &&& new.material == self.material.resolved(snapshot)
        &&& new.material_raw@ == new.material.spec_raw()
    }

    pub fn _map_primitive(&self, pos: [Fixed; 3]) -> (r: PrimitiveResult)
        ensures
            r@ == self.spec_sample(point_of(pos)),
    {
        let pow: Fixed = self.power.get();
        let one: Fixed = Fixed::one();
        let two: Fixed = Fixed::from_int(2);
        let mut z: [Fixed; 3] = [pos[0], pos[1], pos[2]];
        let mut dr: Fixed = one;
        let mut r: Fixed = vec3_len(z);
        let mut iterations: u32 = 0;
        let ghost end = spec_bulb_run(point_of(pos), pow@, point_of(pos), SCALE as int, 0);
        loop
            invariant_except_break
                r@ == spec_len(point_of(z)),
                end == spec_bulb_run(point_of(pos), pow@, point_of(z), dr@, iterations as int),
            invariant
                iterations < BULB_ITERATIONS,
                one@ == SCALE,
                two@ == 2 * SCALE,
                end == spec_bulb_run(point_of(pos), pow@, point_of(pos), SCALE as int, 0),
            ensures
                end == (r@, dr@, iterations as int),
            decreases BULB_ITERATIONS - iterations,
        {
            if r.gt(two) {
                break ;
            }
            let theta: Fixed = acos(z[2].div(r)).mul(pow);
            let phi: Fixed = atan2(z[1], z[0]).mul(pow);
            dr = powf(r, pow.sub(one)).mul(pow).mul(dr).add(one);
            if iterations == BULB_ITERATIONS - 1 {
                break ;
            }
            let zr: Fixed = powf(r, pow);
            z =
            [
                sin(theta).mul(cos(phi)).mul(zr).add(pos[0]),
                sin(phi).mul(sin(theta)).mul(zr).add(pos[1]),
                cos(theta).mul(zr).add(pos[2]),
            ];
            r = vec3_len(z);
            iterations = iterations + 1;
        }
        let distance: Fixed = if r.raw() <= 0 || dr.raw() == 0 {
            Fixed::infinity()
        } else {
            Fixed::from_raw(SCALE / 2).mul(ln(r)).mul(r).div(dr)
        };
        let n: Fixed = Fixed::from_int(iterations as i64);
        PrimitiveResult { distance, fractal_data: [n, n, n, n], material: self.material_raw }
    }

    pub fn get_primitive_data(&self) -> (r: &PrimitiveData)
        ensures
            *r == self.primtive_data,
    {
        &self.primtive_data
    }

    /// Refreshes the power.
    pub fn _evaluate(&mut self, snapshot: &Snapshot)
        ensures
            final(self).power == old(self).power.resolved(snapshot),
            final(self).material == old(self).material.resolved(snapshot),
            final(self).material_raw@ == final(self).material.spec_raw(),
            final(self).primtive_data == old(self).primtive_data,
    {
        self.power = self.power.resolve(snapshot);
        self.material = self.material.resolve(snapshot);
        self.material_raw = self.material.snapshot();
    }

    pub fn _use_raw_position(&self) -> (r: bool)
        ensures
            !r,
    {
        false
    }
}

/// The square of the quaternion `z`, moved by `c`.
pub open spec fn spec_julia_square(z: (int, int, int, int), c: (int, int, int, int)) -> (
    int,
    int,
    int,
    int,
) {
    let scalar = saturate(
        saturate(saturate(spec_mul(z.0, z.0) - spec_mul(z.1, z.1)) - spec_mul(z.2, z.2)) - spec_mul(
            z.3,
            z.3,
        ),
    );
    let twice = spec_mul(2 * SCALE, z.0);
    (
        saturate(scalar + c.0),
        saturate(spec_mul(twice, z.1) + c.1),
        saturate(spec_mul(twice, z.2) + c.2),
        saturate(spec_mul(twice, z.3) + c.3),
    )
}

/// The trap after the point `z` was visited: component by component the
/// smallest magnitude seen so far, and in the last place the smallest square
/// of the length.
pub open spec fn spec_julia_trap(trap: (int, int, int, int), z: (int, int, int, int)) -> (
    int,
    int,
    int,
    int,
) {
    (
        spec_min(trap.0, spec_abs(z.0)),
        spec_min(trap.1, spec_abs(z.1)),
        spec_min(trap.2, spec_abs(z.2)),
        spec_min(trap.3, spec_dot4(z, z)),
    )
}

/// What the iteration of the Julia set keeps from step to step.
pub struct JuliaState {
    pub z: (int, int, int, int),
    /// The square of the running derivative.
    pub md2: int,
    /// The square of the length of `z`.
    pub mz2: int,
    pub trap: (int, int, int, int),
}

/// One iteration: the derivative grows by `4 |z|^2`, the point is squared
/// and moved by `c`, and the trap and the length follow.
pub open spec fn spec_julia_step(c: (int, int, int, int), s: JuliaState) -> JuliaState {
    let z = spec_julia_square(s.z, c);
    JuliaState {
        z,
        md2: spec_mul(s.md2, spec_mul(4 * SCALE, s.mz2)),
        mz2: spec_dot4(z, z),
        trap: spec_julia_trap(s.trap, z),
    }
}

/// Where the iteration of the Julia set ends, from the state `s` at
/// iteration `i`: it stops where the square of the length is over four, and
/// after the last iteration.
pub open spec fn spec_julia_run(c: (int, int, int, int), s: JuliaState, i: int) -> JuliaState
    decreases JULIA_ITERATIONS - i,
{
    if i >= JULIA_ITERATIONS {
        s
    } else {
        let next = spec_julia_step(c, s);
        if next.mz2 > 4 * SCALE {
            next
        } else {
            spec_julia_run(c, next, i + 1)
        }
    }
}

/// The state that the iteration starts from at the point `p`.
pub open spec fn spec_julia_start(p: Point) -> JuliaState {
    let z = (p.x, p.y, p.z, 0int);
    let mz2 = spec_dot4(z, z);
    JuliaState { z, md2: SCALE as int, mz2, trap: (spec_abs(p.x), spec_abs(p.y), spec_abs(p.z), mz2) }
}

/// The distance estimate of the Julia set: `sqrt(mz2 / md2) * ln(mz2) / 4`,
/// and infinite where the derivative or the length is zero.
pub open spec fn spec_julia_distance(mz2: int, md2: int) -> int {
    if md2 == 0 || mz2 <= 0 {
        LIMIT as int
    } else {
        spec_mul(spec_mul(SCALE / 4, spec_sqrt(spec_div(mz2, md2))), spec_ln(mz2))
    }
}

/// A Julia set of the quaternions: the points that stay bounded under
/// `z -> z^2 + c`.
pub struct Julia {
    pub primtive_data: PrimitiveData,
    pub power: [Param; 4],
    pub material: Material,
    pub material_raw: MaterialRaw,
}

impl Julia {
    pub fn new(
        power: [Param; 4],
        mat_inv: [[Fixed; 4]; 4],
        transform_slot: Option<usize>,
        pos_modifier: Vec<PosModifier>,
    ) -> (r: Julia)
        ensures
            r.power == power,
            r.primtive_data.mat_inv == mat_inv,
            r.primtive_data.transform_slot == transform_slot,
            r.primtive_data.pos_modifier == pos_modifier,
            r.material.spec_raw() == spec_direct_material(),
            r.material.is_constant(),
            r.material_raw@ == spec_direct_material(),
    {
        let m: Material = Material::new_direct();
        Julia {
            primtive_data: get_primitive_data(mat_inv, transform_slot, pos_modifier),
            power,
            material_raw: m.snapshot(),
            material: m,
        }
    }

    /// The constant `c` of the iteration, in raw values.
    pub open spec fn spec_constant(&self) -> (int, int, int, int) {
        (self.power[0].value@, self.power[1].value@, self.power[2].value@, self.power[3].value@)
    }

    /// The answer at the point `p` of the set's own frame.
    pub open spec fn spec_sample(&self, p: Point) -> Sample {
        let end = spec_julia_run(self.spec_constant(), spec_julia_start(p), 0);
        Sample {
            distance: spec_julia_distance(end.mz2, end.md2),
            fractal_data: end.trap,
            material: self.material_raw@,
        }
    }

    /// Whether `new` is `self` refreshed from `snapshot`.
    pub open spec fn resolves_to(&self, new: &Julia, snapshot: &Snapshot) -> bool {
        &&& new.power[0] == self.power[0].resolved(snapshot)
        &&& new.power[1] == self.power[1].resolved(snapshot)
        &&& new.power[2] == self.power[2].resolved(snapshot)
        &&& new.power[3] == self.power[3].resolved(snapshot)
        &&& self.primtive_data.resolves_to(&new.primtive_data, snapshot)
        &&& new.material == self.material.resolved(snapshot)
        &&& new.material_raw@ == new.material.spec_raw()
    }

    pub fn _map_primitive(&self, pos: [Fixed; 3]) -> (r: PrimitiveResult)
        ensures
            r@ == self.spec_sample(point_of(pos)),
    {
        let mut z: [Fixed; 4] = [pos[0], pos[1], pos[2], Fixed::zero()];
        let mut md2: Fixed = Fixed::one();
        let mut mz2: Fixed = vec4_dot(z, z);
        let mut trap: [Fixed; 4] = [z[0].abs(), z[1].abs(), z[2].abs(), mz2];
        let power: [Fixed; 4] = [
            self.power[0].get(),
            self.power[1].get(),
            self.power[2].get(),
            self.power[3].get(),
        ];
        let two: Fixed = Fixed::from_int(2);
        let four: Fixed = Fixed::from_int(4);
        let ghost c = self.spec_constant();
        let ghost end = spec_julia_run(c, spec_julia_start(point_of(pos)), 0);
        let mut i: u32 = 0;
        while i < JULIA_ITERATIONS
            invariant_except_break
                end == spec_julia_run(
                    c,
                    JuliaState { z: quad_of(z), md2: md2@, mz2: mz2@, trap: quad_of(trap) },
                    i as int,
                ),
            invariant
                i <= JULIA_ITERATIONS,
                two@ == 2 * SCALE,
                four@ == 4 * SCALE,
                c == quad_of(power),
            ensures
                end == (JuliaState { z: quad_of(z), md2: md2@, mz2: mz2@, trap: quad_of(trap) }),
            decreases JULIA_ITERATIONS - i,
        {
            md2 = md2.mul(four.mul(mz2));
            let twice: Fixed = two.mul(z[0]);
            z =
            [
                z[0].mul(z[0]).sub(z[1].mul(z[1])).sub(z[2].mul(z[2])).sub(z[3].mul(z[3])).add(
                    power[0],
                ),
                twice.mul(z[1]).add(power[1]),
                twice.mul(z[2]).add(power[2]),
                twice.mul(z[3]).add(power[3]),
            ];
            mz2 = vec4_dot(z, z);
            trap =
            [
                min_f64(trap[0], z[0].abs()),
                min_f64(trap[1], z[1].abs()),
                min_f64(trap[2], z[2].abs()),
                min_f64(trap[3], mz2),
            ];
            if mz2.gt(four) {
                break ;
            }
            i = i + 1;
        }
        let distance: Fixed = if md2.raw() == 0 || mz2.raw() <= 0 {
            Fixed::infinity()
        } else {
            Fixed::from_raw(SCALE / 4).mul(mz2.div(md2).sqrt()).mul(ln(mz2))
        };
        PrimitiveResult { distance, fractal_data: trap, material: self.material_raw }
    }

    pub fn get_primitive_data(&self) -> (r: &PrimitiveData)
        ensures
            *r == self.primtive_data,
    {
        &self.primtive_data
    }

    /// Refreshes the constant of the iteration.
    pub fn _evaluate(&mut self, snapshot: &Snapshot)
        ensures
            final(self).power[0] == old(self).power[0].resolved(snapshot),
            final(self).power[1] == old(self).power[1].resolved(snapshot),
            final(self).power[2] == old(self).power[2].resolved(snapshot),
            final(self).power[3] == old(self).power[3].resolved(snapshot),
            final(self).material == old(self).material.resolved(snapshot),
            final(self).material_raw@ == final(self).material.spec_raw(),
            final(self).primtive_data == old(self).primtive_data,
    {
        self.power =
        [
            self.power[0].resolve(snapshot),
            self.power[1].resolve(snapshot),
            self.power[2].resolve(snapshot),
            self.power[3].resolve(snapshot),
        ];
        self.material = self.material.resolve(snapshot);
        self.material_raw = self.material.snapshot();
    }

    pub fn _use_raw_position(&self) -> (r: bool)
        ensures
            !r,
    {
        false
    }
}

} // verus!
