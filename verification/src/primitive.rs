//! Distance fields: the analytic leaves, the rules that combine fields, and
//! the tree of fields that a scene is made of.
//!
//! A field answers one question: how far is this point from my surface? The
//! answer is negative inside the surface. A leaf first carries the point into
//! its own frame, through the inverse of its transform and its chain of
//! warps; a group hands the point to its children as it is and folds their
//! answers from the first child to the last.

use crate::fixed::{
    isqrt, lemma_isqrt_bracket, lemma_isqrt_monotonic, lemma_isqrt_unique, lemma_mul_bounds,
    saturate, spec_abs,
    spec_clamp, spec_div, spec_max, spec_min, spec_mix, spec_mul, Fixed, LIMIT, SCALE,
};
use crate::fractal::{Julia, Mandelbulb};
use crate::helpers::{
    hypot, lemma_identity_transform, lemma_square_sum_nonneg, mat_identity, mat_vec_mul, max_f64,
    min_f64, mix, point_of, spec_len3, spec_mat_vec_mul, vec3_len, vec_f_max, Point,
};
use crate::modifier::{
    chain_resolves_to, evaluate_chain, lemma_chain_refresh_idempotent, modify_chain,
    spec_modify_chain, PosModifier,
};
use crate::parameter::{Param, Snapshot};
use vstd::prelude::*;

verus! {

/// The rule by which a group combines its children.
#[derive(Clone, Copy, Debug, PartialEq, Eq, Structural)]
pub enum GroupModifierType {
    Union,
    Subtraction,
    Intersection,
    SmoothUnion,
    SmoothSubtraction,
    SmoothIntersection,
}

/// The raw values of a material.
pub struct MaterialView {
    pub albedo: int,
    pub specular: int,
    pub diffuse: int,
    pub n_specular: int,
}

/// What a field answers at a point, in raw values.
pub struct Sample {
    pub distance: int,
    pub fractal_data: (int, int, int, int),
    pub material: MaterialView,
}

/// The material that a field without shading of its own reports.
pub open spec fn spec_direct_material() -> MaterialView {
    MaterialView { albedo: SCALE as int, specular: 0, diffuse: SCALE as int, n_specular: 0 }
}

/// The answer of "nothing here": infinitely far, with the direct material.
pub open spec fn spec_nothing() -> Sample {
    Sample {
        distance: LIMIT as int,
        fractal_data: (0, 0, 0, 0),
        material: spec_direct_material(),
    }
}

/// The attributes of a material, each of which may be animated.
#[derive(Clone, Copy, Debug)]
pub struct Material {
    pub albedo: Param,
    pub specular: Param,
    pub diffuse: Param,
    pub n_specular: Param,
}

/// A material as plain values, taken from a `Material` at one instant.
#[derive(Clone, Copy, Debug)]
pub struct MaterialRaw {
    pub albedo: Fixed,
    pub specular: Fixed,
    pub diffuse: Fixed,
    pub n_specular: Fixed,
}

impl View for MaterialRaw {
    type V = MaterialView;

    open spec fn view(&self) -> MaterialView {
        MaterialView {
            albedo: self.albedo@,
            specular: self.specular@,
            diffuse: self.diffuse@,
            n_specular: self.n_specular@,
        }
    }
}

impl MaterialRaw {
    /// The present values of four attributes.
    pub fn new(albedo: Param, specular: Param, diffuse: Param, n_specular: Param) -> (r:
        MaterialRaw)
        ensures
            r.albedo == albedo.value,
            r.specular == specular.value,
            r.diffuse == diffuse.value,
            r.n_specular == n_specular.value,
    {
        MaterialRaw {
            albedo: albedo.get(),
            diffuse: diffuse.get(),
            n_specular: n_specular.get(),
            specular: specular.get(),
        }
    }
}

impl Material {
    pub fn new(albedo: Param, specular: Param, diffuse: Param, n_specular: Param) -> (r: Material)
        ensures
            r.albedo == albedo,
            r.specular == specular,
            r.diffuse == diffuse,
            r.n_specular == n_specular,
    {
        Material { albedo, specular, diffuse, n_specular }
    }

    /// A matt grey: albedo 0.18, specular 0.2, diffuse 0.8, exponent 10.
    pub fn new_base() -> (r: Material)
        ensures
            r.spec_raw() == (MaterialView {
                albedo: 180_000_000,
                specular: 200_000_000,
                diffuse: 800_000_000,
                n_specular: 10_000_000_000,
            }),
            r.is_constant(),
    {
        Material {
            albedo: Param::constant(Fixed::from_raw(180_000_000)),
            specular: Param::constant(Fixed::from_raw(200_000_000)),
            diffuse: Param::constant(Fixed::from_raw(800_000_000)),
            n_specular: Param::constant(Fixed::from_raw(10_000_000_000)),
        }
    }

    /// The material of a field without shading: albedo 1, specular 0,
    /// diffuse 1, exponent 0.
    pub fn new_direct() -> (r: Material)
        ensures
            r.spec_raw() == spec_direct_material(),
            r.is_constant(),
    {
        Material {
            albedo: Param::constant(Fixed::one()),
            specular: Param::constant(Fixed::zero()),
            diffuse: Param::constant(Fixed::one()),
            n_specular: Param::constant(Fixed::zero()),
        }
    }

    /// The present raw values of the four attributes.
    pub open spec fn spec_raw(&self) -> MaterialView {
        MaterialView {
            albedo: self.albedo.value@,
            specular: self.specular.value@,
            diffuse: self.diffuse.value@,
            n_specular: self.n_specular.value@,
        }
    }

    /// Whether no attribute is animated.
    pub open spec fn is_constant(&self) -> bool {
        &&& self.albedo.slot.is_none()
        &&& self.specular.slot.is_none()
        &&& self.diffuse.slot.is_none()
        &&& self.n_specular.slot.is_none()
    }

    /// The material with every attribute refreshed from `snapshot`.
    pub open spec fn resolved(&self, snapshot: &Snapshot) -> Material {
        Material {
            albedo: self.albedo.resolved(snapshot),
            specular: self.specular.resolved(snapshot),
            diffuse: self.diffuse.resolved(snapshot),
            n_specular: self.n_specular.resolved(snapshot),
        }
    }

    /// The material with every attribute refreshed from `snapshot`.
    pub fn resolve(&self, snapshot: &Snapshot) -> (r: Material)
        ensures
            r == self.resolved(snapshot),
    {
        Material {
            albedo: self.albedo.resolve(snapshot),
            specular: self.specular.resolve(snapshot),
            diffuse: self.diffuse.resolve(snapshot),
            n_specular: self.n_specular.resolve(snapshot),
        }
    }

    /// The present values as a plain material.
    pub fn snapshot(&self) -> (r: MaterialRaw)
        ensures
            r@ == self.spec_raw(),
    {
        MaterialRaw::new(self.albedo, self.specular, self.diffuse, self.n_specular)
    }
}

/// What a field answers at a point: the signed distance, the orbit trap of
/// a fractal (zero for any other field), and the material.
#[derive(Clone, Copy, Debug)]
pub struct PrimitiveResult {
    pub distance: Fixed,
    pub fractal_data: [Fixed; 4],
    pub material: MaterialRaw,
}

impl View for PrimitiveResult {
    type V = Sample;

    open spec fn view(&self) -> Sample {
        Sample {
            distance: self.distance@,
            fractal_data: (
                self.fractal_data[0]@,
                self.fractal_data[1]@,
                self.fractal_data[2]@,
                self.fractal_data[3]@,
            ),
            material: self.material@,
        }
    }
}

impl PrimitiveResult {
    /// The answer of "nothing here": infinitely far, with the given material.
    pub fn nothing(material: MaterialRaw) -> (r: PrimitiveResult)
        ensures
            r@ == (Sample { distance: LIMIT as int, fractal_data: (0, 0, 0, 0), material: material@ }),
    {
        let z: Fixed = Fixed::zero();
        PrimitiveResult { distance: Fixed::infinity(), fractal_data: [z, z, z, z], material }
    }
}

/// What every leaf has: the inverse of its transform, the slot that
/// refreshes it, and the chain of warps.
pub struct PrimitiveData {
    pub mat_inv: [[Fixed; 4]; 4],
    pub transform_slot: Option<usize>,
    pub pos_modifier: Vec<PosModifier>,
}

impl PrimitiveData {
    /// The point `p` of the parent's frame, seen in the leaf's own frame:
    /// through the inverse transform, then through every warp in order.
    pub open spec fn spec_local(&self, p: Point) -> Point {
        spec_modify_chain(
            self.pos_modifier@,
            spec_mat_vec_mul(self.mat_inv, p),
            self.pos_modifier@.len() as int,
        )
    }

    /// Whether `new` is `self` refreshed from `snapshot`.
    pub open spec fn resolves_to(&self, new: &PrimitiveData, snapshot: &Snapshot) -> bool {
        &&& new.mat_inv == snapshot.spec_transform(self.transform_slot, self.mat_inv)
        &&& new.transform_slot == self.transform_slot
        &&& chain_resolves_to(self.pos_modifier@, new.pos_modifier@, snapshot)
    }

    /// The point `pos` of the parent's frame, seen in the leaf's own frame.
    pub fn to_local(&self, pos: [Fixed; 3]) -> (r: [Fixed; 3])
        ensures
            point_of(r) == self.spec_local(point_of(pos)),
    {
        let transformed: [Fixed; 3] = mat_vec_mul(self.mat_inv, pos);
        modify_chain(&self.pos_modifier, transformed)
    }

    /// Takes the inverse transform and the attributes of the warps from `snapshot`.
    pub fn evaluate(&mut self, snapshot: &Snapshot)
        ensures
            old(self).resolves_to(final(self), snapshot),
    {
        self.mat_inv = snapshot.transform(self.transform_slot, self.mat_inv);
        evaluate_chain(&mut self.pos_modifier, snapshot);
    }
}

/// The data of a leaf with the inverse transform `mat_inv`, refreshed from
/// `transform_slot` where that is bound.
pub fn get_primitive_data(
    mat_inv: [[Fixed; 4]; 4],
    transform_slot: Option<usize>,
    pos_modifier: Vec<PosModifier>,
) -> (r: PrimitiveData)
    ensures
        r.mat_inv == mat_inv,
        r.transform_slot == transform_slot,
        r.pos_modifier == pos_modifier,
{
    PrimitiveData { mat_inv, transform_slot, pos_modifier }
}

/// Raw distance from the point `p` to the sphere of raw radius `rad`
/// around the origin: `|p| - rad`.
pub open spec fn spec_sphere_distance(p: Point, rad: int) -> int {
    saturate(spec_len3(p.x, p.y, p.z) - rad)
}

/// Raw distance from `p` to the torus around the y axis with ring radius
/// `rad` and tube radius `ring_rad`.
pub open spec fn spec_torus_distance(p: Point, rad: int, ring_rad: int) -> int {
    let l = saturate(spec_len3(p.x, p.z, 0) - rad);
    saturate(spec_len3(l, p.y, 0) - ring_rad)
}

/// Raw distance from `p` to the box of half extents `(bx, by, bz)`:
/// with `d = |p| - b`, it is `min(max(d.x, d.y, d.z), 0) + |max(d, 0)|`.
pub open spec fn spec_cube_distance(p: Point, bx: int, by: int, bz: int) -> int {
    let dx = saturate(crate::fixed::spec_abs(p.x) - bx);
    let dy = saturate(crate::fixed::spec_abs(p.y) - by);
    let dz = saturate(crate::fixed::spec_abs(p.z) - bz);
    let inside = spec_min(spec_max(dx, spec_max(dy, dz)), 0);
    let outside = spec_len3(spec_max(dx, 0), spec_max(dy, 0), spec_max(dz, 0));
    saturate(inside + outside)
}

/// The blending weight of a smooth rule: `clamp(1/2 + sign * (t / 2) / k, 0, 1)`.
pub open spec fn spec_blend_weight(t: int, k: int, sign: int) -> int {
    let q = spec_div(spec_mul(SCALE / 2, t), k);
    spec_clamp(saturate(SCALE / 2 + sign * q), 0, SCALE as int)
}

/// The rounding term of a smooth rule: `k * h * (1 - h)`.
pub open spec fn spec_blend_bulge(k: int, h: int) -> int {
    spec_mul(spec_mul(k, h), saturate(SCALE - h))
}

/// Smooth union of the raw distances `acc` and `child` with raw factor `k`:
/// `h = clamp(1/2 + (child - acc) / 2k, 0, 1)`, then
/// `mix(child, acc, h) - k h (1 - h)`.
pub open spec fn spec_smooth_union(acc: int, child: int, k: int) -> int {
    let h = spec_blend_weight(saturate(child - acc), k, 1);
    saturate(spec_mix(child, acc, h) - spec_blend_bulge(k, h))
}

/// Smooth subtraction: `h = clamp(1/2 - (child + acc) / 2k, 0, 1)`, then
/// `mix(child, -acc, h) + k h (1 - h)`.
pub open spec fn spec_smooth_subtraction(acc: int, child: int, k: int) -> int {
    let h = spec_blend_weight(saturate(child + acc), k, -1);
    saturate(spec_mix(child, -acc, h) + spec_blend_bulge(k, h))
}

/// Smooth intersection: `h = clamp(1/2 - (child - acc) / 2k, 0, 1)`, then
/// `mix(child, acc, h) + k h (1 - h)`.
pub open spec fn spec_smooth_intersection(acc: int, child: int, k: int) -> int {
    let h = spec_blend_weight(saturate(child - acc), k, -1);
    saturate(spec_mix(child, acc, h) + spec_blend_bulge(k, h))
}

/// What the fold of a group starts from: the answer of the first child, with
/// its distance negated where the rule is the subtraction.
pub open spec fn spec_seed(kind: GroupModifierType, first: Sample) -> Sample {
    match kind {
        GroupModifierType::Subtraction => Sample {
            distance: -first.distance,
            fractal_data: first.fractal_data,
            material: first.material,
        },
        _ => first,
    }
}

/// One step of the fold: the running answer `acc` combined with the answer
/// of the next child. Under a sharp rule the whole answer of the winner is
/// kept, the running one on a tie; under a smooth rule the distance is the
/// blend and everything else is the child's.
pub open spec fn spec_combine(kind: GroupModifierType, k: int, acc: Sample, child: Sample) -> Sample {
    match kind {
        GroupModifierType::Union => if child.distance < acc.distance {
            child
        } else {
            acc
        },
        GroupModifierType::Subtraction => if child.distance > acc.distance {
            child
        } else {
            acc
        },
        GroupModifierType::Intersection => if child.distance > acc.distance {
            child
        } else {
            acc
        },
        GroupModifierType::SmoothUnion => Sample {
            distance: spec_smooth_union(acc.distance, child.distance, k),
            fractal_data: child.fractal_data,
            material: child.material,
        },
        GroupModifierType::SmoothSubtraction => Sample {
            distance: spec_smooth_subtraction(acc.distance, child.distance, k),
            fractal_data: child.fractal_data,
            material: child.material,
        },
        GroupModifierType::SmoothIntersection => Sample {
            distance: spec_smooth_intersection(acc.distance, child.distance, k),
            fractal_data: child.fractal_data,
            material: child.material,
        },
    }
}

/// The blending weight of a smooth rule.
fn blend_weight(t: Fixed, k: Fixed, positive: bool) -> (h: Fixed)
    ensures
        h@ == spec_blend_weight(t@, k@, if positive { 1 } else { -1 }),
        0 <= h@ <= SCALE,
{
    let half: Fixed = Fixed::from_raw(SCALE / 2);
    let q: Fixed = half.mul(t).div(k);
    let sum: Fixed = if positive {
        half.add(q)
    } else {
        half.sub(q)
    };
    sum.clamp(Fixed::zero(), Fixed::one())
}

/// The rounding term of a smooth rule.
fn blend_bulge(k: Fixed, h: Fixed) -> (r: Fixed)
    ensures
        r@ == spec_blend_bulge(k@, h@),
{
    k.mul(h).mul(Fixed::one().sub(h))
}

/// Smooth union of two distances with the smoothing factor `k`.
pub fn smooth_union(acc: Fixed, child: Fixed, k: Fixed) -> (r: Fixed)
    ensures
        r@ == spec_smooth_union(acc@, child@, k@),
{
    let h: Fixed = blend_weight(child.sub(acc), k, true);
    mix(child, acc, h).sub(blend_bulge(k, h))
}

/// Smooth subtraction of two distances with the smoothing factor `k`.
pub fn smooth_subtraction(acc: Fixed, child: Fixed, k: Fixed) -> (r: Fixed)
    ensures
        r@ == spec_smooth_subtraction(acc@, child@, k@),
{
    let h: Fixed = blend_weight(child.add(acc), k, false);
    mix(child, acc.neg(), h).add(blend_bulge(k, h))
}

/// Smooth intersection of two distances with the smoothing factor `k`.
pub fn smooth_intersection(acc: Fixed, child: Fixed, k: Fixed) -> (r: Fixed)
    ensures
        r@ == spec_smooth_intersection(acc@, child@, k@),
{
    let h: Fixed = blend_weight(child.sub(acc), k, false);
    mix(child, acc, h).add(blend_bulge(k, h))
}

/// What the fold of a group starts from.
pub fn seed(kind: GroupModifierType, first: PrimitiveResult) -> (r: PrimitiveResult)
    ensures
        r@ == spec_seed(kind, first@),
{
    match kind {
        GroupModifierType::Subtraction => PrimitiveResult {
            distance: first.distance.neg(),
            fractal_data: first.fractal_data,
            material: first.material,
        },
        _ => first,
    }
}

/// One step of the fold of a group.
pub fn combine(
    kind: GroupModifierType,
    factor: Fixed,
    acc: PrimitiveResult,
    child: PrimitiveResult,
) -> (r: PrimitiveResult)
    ensures
        r@ == spec_combine(kind, factor@, acc@, child@),
{
    match kind {
        GroupModifierType::Union => if child.distance.lt(acc.distance) {
            child
        } else {
            acc
        },
        GroupModifierType::Subtraction => if child.distance.gt(acc.distance) {
            child
        } else {
            acc
        },
        GroupModifierType::Intersection => if child.distance.gt(acc.distance) {
            child
        } else {
            acc
        },
        GroupModifierType::SmoothUnion => PrimitiveResult {
            distance: smooth_union(acc.distance, child.distance, factor),
            fractal_data: child.fractal_data,
            material: child.material,
        },
        GroupModifierType::SmoothSubtraction => PrimitiveResult {
            distance: smooth_subtraction(acc.distance, child.distance, factor),
            fractal_data: child.fractal_data,
            material: child.material,
        },
        GroupModifierType::SmoothIntersection => PrimitiveResult {
            distance: smooth_intersection(acc.distance, child.distance, factor),
            fractal_data: child.fractal_data,
            material: child.material,
        },
    }
}

/// A sphere around the origin of its own frame.
pub struct Sphere {
    pub primtive_data: PrimitiveData,
    pub rad: Param,
    pub material: Material,
    pub material_raw: MaterialRaw,
}

impl Sphere {
    pub fn new(
        rad: Param,
        mat_inv: [[Fixed; 4]; 4],
        transform_slot: Option<usize>,
        pos_modifier: Vec<PosModifier>,
        material: Option<Material>,
    ) -> (r: Sphere)
        ensures
            r.rad == rad,
            r.primtive_data.mat_inv == mat_inv,
            r.primtive_data.transform_slot == transform_slot,
            r.primtive_data.pos_modifier == pos_modifier,
            r.material_raw@ == r.material.spec_raw(),
            match material {
                Some(m) => r.material == m,
                None => r.material.spec_raw() == spec_direct_material() && r.material.is_constant(),
            },
    {
        let m: Material = match material {
            Some(m) => m,
            None => Material::new_direct(),
        };
        Sphere {
            rad,
            primtive_data: get_primitive_data(mat_inv, transform_slot, pos_modifier),
            material_raw: m.snapshot(),
            material: m,
        }
    }

    /// The answer at the point `p` of the sphere's own frame.
    pub open spec fn spec_sample(&self, p: Point) -> Sample {
        Sample {
            distance: spec_sphere_distance(p, self.rad.value@),
            fractal_data: (0, 0, 0, 0),
            material: self.material_raw@,
        }
    }

    /// Whether `new` is `self` refreshed from `snapshot`.
    pub open spec fn resolves_to(&self, new: &Sphere, snapshot: &Snapshot) -> bool {
        &&& new.rad == self.rad.resolved(snapshot)
        &&& self.primtive_data.resolves_to(&new.primtive_data, snapshot)
        &&& new.material == self.material.resolved(snapshot)
        &&& new.material_raw@ == new.material.spec_raw()
    }

    pub fn _map_primitive(&self, pos: [Fixed; 3]) -> (r: PrimitiveResult)
        ensures
            r@ == self.spec_sample(point_of(pos)),
    {
        let z: Fixed = Fixed::zero();
        let distance: Fixed = vec3_len(pos).sub(self.rad.get());
        PrimitiveResult { distance, fractal_data: [z, z, z, z], material: self.material_raw }
    }

    pub fn get_primitive_data(&self) -> (r: &PrimitiveData)
        ensures
            *r == self.primtive_data,
    {
        &self.primtive_data
    }

    /// Refreshes the radius and the material.
    pub fn _evaluate(&mut self, snapshot: &Snapshot)
        ensures
            final(self).rad == old(self).rad.resolved(snapshot),
            final(self).material == old(self).material.resolved(snapshot),
            final(self).material_raw@ == final(self).material.spec_raw(),
            final(self).primtive_data == old(self).primtive_data,
    {
        self.rad = self.rad.resolve(snapshot);
        self.material = self.material.resolve(snapshot);
        self.material_raw = self.material.snapshot();
    }

    pub fn _use_raw_position(&self) -> (r: bool)
        ensures
            !r,
    {
        false
    }
}

/// A torus around the y axis of its own frame.
pub struct Torus {
    pub primtive_data: PrimitiveData,
    pub rad: Param,
    pub ring_rad: Param,
    pub material: Material,
    pub material_raw: MaterialRaw,
}

impl Torus {
    pub fn new(
        rad: Param,
        ring_rad: Param,
        mat_inv: [[Fixed; 4]; 4],
        transform_slot: Option<usize>,
        pos_modifier: Vec<PosModifier>,
        material: Option<Material>,
    ) -> (r: Torus)
        ensures
            r.rad == rad,
            r.ring_rad == ring_rad,
            r.primtive_data.mat_inv == mat_inv,
            r.primtive_data.transform_slot == transform_slot,
            r.primtive_data.pos_modifier == pos_modifier,
            r.material_raw@ == r.material.spec_raw(),
            match material {
                Some(m) => r.material == m,
                None => r.material.spec_raw() == spec_direct_material() && r.material.is_constant(),
            },
    {
        let m: Material = match material {
            Some(m) => m,
            None => Material::new_direct(),
        };
        Torus {
            ring_rad,
            rad,
            primtive_data: get_primitive_data(mat_inv, transform_slot, pos_modifier),
            material_raw: m.snapshot(),
            material: m,
        }
    }

    /// The answer at the point `p` of the torus's own frame.
    pub open spec fn spec_sample(&self, p: Point) -> Sample {
        Sample {
            distance: spec_torus_distance(p, self.rad.value@, self.ring_rad.value@),
            fractal_data: (0, 0, 0, 0),
            material: self.material_raw@,
        }
    }

    /// Whether `new` is `self` refreshed from `snapshot`.
    pub open spec fn resolves_to(&self, new: &Torus, snapshot: &Snapshot) -> bool {
        &&& new.rad == self.rad.resolved(snapshot)
        &&& new.ring_rad == self.ring_rad.resolved(snapshot)
        &&& self.primtive_data.resolves_to(&new.primtive_data, snapshot)
        &&& new.material == self.material.resolved(snapshot)
        &&& new.material_raw@ == new.material.spec_raw()
    }

    pub fn _map_primitive(&self, pos: [Fixed; 3]) -> (r: PrimitiveResult)
        ensures
            r@ == self.spec_sample(point_of(pos)),
    {
        let z: Fixed = Fixed::zero();
        let l: Fixed = hypot(pos[0], pos[2]).sub(self.rad.get());
        let distance: Fixed = hypot(l, pos[1]).sub(self.ring_rad.get());
        PrimitiveResult { distance, fractal_data: [z, z, z, z], material: self.material_raw }
    }

    pub fn get_primitive_data(&self) -> (r: &PrimitiveData)
        ensures
            *r == self.primtive_data,
    {
        &self.primtive_data
    }

    /// Refreshes the two radii and the material.
    pub fn _evaluate(&mut self, snapshot: &Snapshot)
        ensures
            final(self).rad == old(self).rad.resolved(snapshot),
            final(self).ring_rad == old(self).ring_rad.resolved(snapshot),
            final(self).material == old(self).material.resolved(snapshot),
            final(self).material_raw@ == final(self).material.spec_raw(),
            final(self).primtive_data == old(self).primtive_data,
    {
        self.rad = self.rad.resolve(snapshot);
        self.ring_rad = self.ring_rad.resolve(snapshot);
        self.material = self.material.resolve(snapshot);
        self.material_raw = self.material.snapshot();
    }

    pub fn _use_raw_position(&self) -> (r: bool)
        ensures
            !r,
    {
        false
    }
}

/// A box around the origin of its own frame, given by its half extents.
pub struct Cube {
    pub primtive_data: PrimitiveData,
    pub bounds: [Param; 3],
    pub material: Material,
    pub material_raw: MaterialRaw,
}

impl Cube {
    pub fn new(
        bounds: [Param; 3],
        mat_inv: [[Fixed; 4]; 4],
        transform_slot: Option<usize>,
        pos_modifier: Vec<PosModifier>,
        material: Option<Material>,
    ) -> (r: Cube)
        ensures
            r.bounds == bounds,
            r.primtive_data.mat_inv == mat_inv,
            r.primtive_data.transform_slot == transform_slot,
            r.primtive_data.pos_modifier == pos_modifier,
            r.material_raw@ == r.material.spec_raw(),
            match material {
                Some(m) => r.material == m,
                None => r.material.spec_raw() == spec_direct_material() && r.material.is_constant(),
            },
    {
        let m: Material = match material {
            Some(m) => m,
            None => Material::new_direct(),
        };
        Cube {
            bounds,
            primtive_data: get_primitive_data(mat_inv, transform_slot, pos_modifier),
            material_raw: m.snapshot(),
            material: m,
        }
    }

    /// The answer at the point `p` of the box's own frame.
    pub open spec fn spec_sample(&self, p: Point) -> Sample {
        Sample {
            distance: spec_cube_distance(
                p,
                self.bounds[0].value@,
                self.bounds[1].value@,
                self.bounds[2].value@,
            ),
            fractal_data: (0, 0, 0, 0),
            material: self.material_raw@,
        }
    }

    /// Whether `new` is `self` refreshed from `snapshot`.
    pub open spec fn resolves_to(&self, new: &Cube, snapshot: &Snapshot) -> bool {
        &&& new.bounds[0] == self.bounds[0].resolved(snapshot)
        &&& new.bounds[1] == self.bounds[1].resolved(snapshot)
        &&& new.bounds[2] == self.bounds[2].resolved(snapshot)
        &&& self.primtive_data.resolves_to(&new.primtive_data, snapshot)
        &&& new.material == self.material.resolved(snapshot)
        &&& new.material_raw@ == new.material.spec_raw()
    }

    pub fn _map_primitive(&self, pos: [Fixed; 3]) -> (r: PrimitiveResult)
        ensures
            r@ == self.spec_sample(point_of(pos)),
    {
        let z: Fixed = Fixed::zero();
        let dist_vec: [Fixed; 3] = [
            pos[0].abs().sub(self.bounds[0].get()),
            pos[1].abs().sub(self.bounds[1].get()),
            pos[2].abs().sub(self.bounds[2].get()),
        ];
        let inside: Fixed = min_f64(max_f64(dist_vec[0], max_f64(dist_vec[1], dist_vec[2])), z);
        let distance: Fixed = inside.add(vec3_len(vec_f_max(dist_vec, z)));
        PrimitiveResult { distance, fractal_data: [z, z, z, z], material: self.material_raw }
    }

    pub fn get_primitive_data(&self) -> (r: &PrimitiveData)
        ensures
            *r == self.primtive_data,
    {
        &self.primtive_data
    }

    /// Refreshes the half extents and the material.
    pub fn _evaluate(&mut self, snapshot: &Snapshot)
        ensures
            final(self).bounds[0] == old(self).bounds[0].resolved(snapshot),
            final(self).bounds[1] == old(self).bounds[1].resolved(snapshot),
            final(self).bounds[2] == old(self).bounds[2].resolved(snapshot),
            final(self).material == old(self).material.resolved(snapshot),
            final(self).material_raw@ == final(self).material.spec_raw(),
            final(self).primtive_data == old(self).primtive_data,
    {
        self.bounds = [
            self.bounds[0].resolve(snapshot),
            self.bounds[1].resolve(snapshot),
            self.bounds[2].resolve(snapshot),
        ];
        self.material = self.material.resolve(snapshot);
        self.material_raw = self.material.snapshot();
    }

    pub fn _use_raw_position(&self) -> (r: bool)
        ensures
            !r,
    {
        false
    }
}

/// A group of fields combined by one rule, folded from the first child to
/// the last. It has no transform of its own.
pub struct GroupPrimitive {
    pub primtive_data: PrimitiveData,
    pub group_primitive_type: GroupModifierType,
    pub prims: Vec<Primitive>,
    pub factor_f: Param,
    pub factor: Fixed,
}

/// A field: a leaf or a group of fields.
pub enum Primitive {
    Sphere(Sphere),
    Torus(Torus),
    Cube(Cube),
    Mandelbulb(Mandelbulb),
    Julia(Julia),
    Group(GroupPrimitive),
}

/// The answer of a field at the point `p` of its parent's frame.
pub open spec fn spec_query(node: Primitive, p: Point) -> Sample
    decreases node, 0int,
{
    match node {
        Primitive::Sphere(s) => s.spec_sample(s.primtive_data.spec_local(p)),
        Primitive::Torus(s) => s.spec_sample(s.primtive_data.spec_local(p)),
        Primitive::Cube(s) => s.spec_sample(s.primtive_data.spec_local(p)),
        Primitive::Mandelbulb(s) => s.spec_sample(s.primtive_data.spec_local(p)),
        Primitive::Julia(s) => s.spec_sample(s.primtive_data.spec_local(p)),
        Primitive::Group(g) => spec_fold(
            g.group_primitive_type,
            g.factor@,
            g.prims@,
            p,
            g.prims@.len() as int,
        ),
    }
}

/// The running answer of a group after its first `n` children: nothing for
/// no child, the seed for one, and one more step of the fold for each more.
pub open spec fn spec_fold(
    kind: GroupModifierType,
    k: int,
    prims: Seq<Primitive>,
    p: Point,
    n: int,
) -> Sample
    decreases prims, n,
{
    if n <= 0 || n > prims.len() {
        spec_nothing()
    } else if n == 1 {
        spec_seed(kind, spec_query(prims[0], p))
    } else {
        spec_combine(kind, k, spec_fold(kind, k, prims, p, n - 1), spec_query(prims[n - 1], p))
    }
}

/// Whether the field `new` is the field `old` refreshed from `snapshot`:
/// the same tree, every attribute taken from its slot.
pub open spec fn spec_evaluated(old: Primitive, new: Primitive, snapshot: &Snapshot) -> bool
    decreases old,
{
    match (old, new) {
        (Primitive::Sphere(a), Primitive::Sphere(b)) => a.resolves_to(&b, snapshot),
        (Primitive::Torus(a), Primitive::Torus(b)) => a.resolves_to(&b, snapshot),
        (Primitive::Cube(a), Primitive::Cube(b)) => a.resolves_to(&b, snapshot),
        (Primitive::Mandelbulb(a), Primitive::Mandelbulb(b)) => a.resolves_to(&b, snapshot),
        (Primitive::Julia(a), Primitive::Julia(b)) => a.resolves_to(&b, snapshot),
        (Primitive::Group(a), Primitive::Group(b)) => {
            &&& b.group_primitive_type == a.group_primitive_type
            &&& b.factor_f == a.factor_f.resolved(snapshot)
            &&& b.factor == b.factor_f.value
            &&& a.primtive_data.resolves_to(&b.primtive_data, snapshot)
            &&& b.prims@.len() == a.prims@.len()
            &&& forall|i: int|
                0 <= i < a.prims@.len() ==> spec_evaluated(
                    #[trigger] a.prims@[i],
                    b.prims@[i],
                    snapshot,
                )
        },
        _ => false,
    }
}

impl GroupPrimitive {
    fn with_rule(kind: GroupModifierType, prims: Vec<Primitive>, factor: Param) -> (r:
        GroupPrimitive)
        ensures
            r.group_primitive_type == kind,
            r.prims == prims,
            r.factor_f == factor,
            r.factor == factor.value,
            r.primtive_data.transform_slot.is_none(),
            r.primtive_data.pos_modifier@.len() == 0,
    {
        GroupPrimitive {
            group_primitive_type: kind,
            prims,
            primtive_data: get_primitive_data(mat_identity(), None, Vec::new()),
            factor: factor.get(),
            factor_f: factor,
        }
    }

    /// The union of the fields: the nearest of them.
    pub fn new_union(prims: Vec<Primitive>) -> (r: GroupPrimitive)
        ensures
            r.group_primitive_type == GroupModifierType::Union,
            r.prims == prims,
            r.factor@ == 0,
            r.factor_f.slot.is_none(),
    {
        Self::with_rule(GroupModifierType::Union, prims, Param::constant(Fixed::zero()))
    }

    /// The later fields that lie outside the first.
    pub fn new_subtraction(prims: Vec<Primitive>) -> (r: GroupPrimitive)
        ensures
            r.group_primitive_type == GroupModifierType::Subtraction,
            r.prims == prims,
            r.factor@ == 0,
            r.factor_f.slot.is_none(),
    {
        Self::with_rule(GroupModifierType::Subtraction, prims, Param::constant(Fixed::zero()))
    }

    /// What all the fields have in common.
    pub fn new_intersection(prims: Vec<Primitive>) -> (r: GroupPrimitive)
        ensures
            r.group_primitive_type == GroupModifierType::Intersection,
            r.prims == prims,
            r.factor@ == 0,
            r.factor_f.slot.is_none(),
    {
        Self::with_rule(GroupModifierType::Intersection, prims, Param::constant(Fixed::zero()))
    }

    /// The union, rounded where the fields meet.
    pub fn new_union_smooth(prims: Vec<Primitive>, factor: Param) -> (r: GroupPrimitive)
        ensures
            r.group_primitive_type == GroupModifierType::SmoothUnion,
            r.prims == prims,
            r.factor_f == factor,
            r.factor == factor.value,
    {
        Self::with_rule(GroupModifierType::SmoothUnion, prims, factor)
    }

    /// The subtraction, rounded where the fields meet.
    pub fn new_subtraction_smooth(prims: Vec<Primitive>, factor: Param) -> (r: GroupPrimitive)
        ensures
            r.group_primitive_type == GroupModifierType::SmoothSubtraction,
            r.prims == prims,
            r.factor_f == factor,
            r.factor == factor.value,
    {
        Self::with_rule(GroupModifierType::SmoothSubtraction, prims, factor)
    }

    /// The intersection, rounded where the fields meet.
    pub fn new_intersection_smooth(prims: Vec<Primitive>, factor: Param) -> (r: GroupPrimitive)
        ensures
            r.group_primitive_type == GroupModifierType::SmoothIntersection,
            r.prims == prims,
            r.factor_f == factor,
            r.factor == factor.value,
    {
        Self::with_rule(GroupModifierType::SmoothIntersection, prims, factor)
    }

    /// The answer of the group at the point `p`.
    pub open spec fn spec_sample(&self, p: Point) -> Sample {
        spec_fold(
            self.group_primitive_type,
            self.factor@,
            self.prims@,
            p,
            self.prims@.len() as int,
        )
    }

    pub fn _map_primitive(&self, pos: [Fixed; 3]) -> (r: PrimitiveResult)
        ensures
            r@ == self.spec_sample(point_of(pos)),
        decreases self, 0int,
    {
        if self.prims.len() == 0 {
            return PrimitiveResult::nothing(Material::new_direct().snapshot());
        }
        let mut distance: PrimitiveResult = seed(
            self.group_primitive_type,
            self.prims[0].map_primitive(pos),
        );
        let mut p: usize = 1;
        while p < self.prims.len()
            invariant
                1 <= p <= self.prims.len(),
                distance@ == spec_fold(
                    self.group_primitive_type,
                    self.factor@,
                    self.prims@,
                    point_of(pos),
                    p as int,
                ),
            decreases self.prims.len() - p,
        {
            let cur_dist: PrimitiveResult = self.prims[p].map_primitive(pos);
            distance = combine(self.group_primitive_type, self.factor, distance, cur_dist);
            p = p + 1;
        }
        distance
    }

    pub fn get_primitive_data(&self) -> (r: &PrimitiveData)
        ensures
            *r == self.primtive_data,
    {
        &self.primtive_data
    }

    pub fn _use_raw_position(&self) -> (r: bool)
        ensures
            r,
    {
        true
    }

    /// Refreshes every child and then the smoothing factor.
    pub fn _evaluate(&mut self, snapshot: &Snapshot)
        ensures
            final(self).group_primitive_type == old(self).group_primitive_type,
            final(self).factor_f == old(self).factor_f.resolved(snapshot),
            final(self).factor == final(self).factor_f.value,
            final(self).primtive_data == old(self).primtive_data,
            final(self).prims@.len() == old(self).prims@.len(),
            forall|i: int|
                0 <= i < old(self).prims@.len() ==> spec_evaluated(
                    #[trigger] old(self).prims@[i],
                    final(self).prims@[i],
                    snapshot,
                ),
        decreases *old(self), 0int,
    {
        let ghost before = self.prims@;
        let mut p: usize = 0;
        while p < self.prims.len()
            invariant
                p <= self.prims.len(),
                before == old(self).prims@,
                self.prims@.len() == before.len(),
                self.group_primitive_type == old(self).group_primitive_type,
                self.factor_f == old(self).factor_f,
                self.primtive_data == old(self).primtive_data,
                forall|j: int| p <= j < before.len() ==> self.prims@[j] == before[j],
                forall|j: int|
                    0 <= j < p ==> spec_evaluated(#[trigger] before[j], self.prims@[j], snapshot),
            decreases self.prims.len() - p,
        {
            assert(self.prims@[p as int] == before[p as int]);
            assert(decreases_to!(*old(self) => self.prims@[p as int]));
            self.prims[p].evaluate(snapshot);
            p = p + 1;
        }
        self.factor_f = self.factor_f.resolve(snapshot);
        self.factor = self.factor_f.get();
    }
}

impl Primitive {
    /// Whether the field takes points of its parent's frame as they are.
    pub open spec fn spec_use_raw_position(&self) -> bool {
        self is Group
    }

    pub fn _use_raw_position(&self) -> (r: bool)
        ensures
            r == self.spec_use_raw_position(),
    {
        match self {
            Primitive::Sphere(s) => s._use_raw_position(),
            Primitive::Torus(s) => s._use_raw_position(),
            Primitive::Cube(s) => s._use_raw_position(),
            Primitive::Mandelbulb(s) => s._use_raw_position(),
            Primitive::Julia(s) => s._use_raw_position(),
            Primitive::Group(g) => g._use_raw_position(),
        }
    }

    /// The transform and warps of the field.
    pub open spec fn spec_primitive_data(&self) -> PrimitiveData {
        match self {
            Primitive::Sphere(s) => s.primtive_data,
            Primitive::Torus(s) => s.primtive_data,
            Primitive::Cube(s) => s.primtive_data,
            Primitive::Mandelbulb(s) => s.primtive_data,
            Primitive::Julia(s) => s.primtive_data,
            Primitive::Group(g) => g.primtive_data,
        }
    }

    pub fn get_primitive_data(&self) -> (r: &PrimitiveData)
        ensures
            *r == self.spec_primitive_data(),
    {
        match self {
            Primitive::Sphere(s) => s.get_primitive_data(),
            Primitive::Torus(s) => s.get_primitive_data(),
            Primitive::Cube(s) => s.get_primitive_data(),
            Primitive::Mandelbulb(s) => s.get_primitive_data(),
            Primitive::Julia(s) => s.get_primitive_data(),
            Primitive::Group(g) => g.get_primitive_data(),
        }
    }

    /// The answer at the point `p`, taken as a point of the field's own frame.
    pub open spec fn spec_mapped(&self, p: Point) -> Sample {
        match self {
            Primitive::Sphere(s) => s.spec_sample(p),
            Primitive::Torus(s) => s.spec_sample(p),
            Primitive::Cube(s) => s.spec_sample(p),
            Primitive::Mandelbulb(s) => s.spec_sample(p),
            Primitive::Julia(s) => s.spec_sample(p),
            Primitive::Group(g) => g.spec_sample(p),
        }
    }

    /// The answer at `pos`, taken as a point of the field's own frame.
    pub fn _map_primitive(&self, pos: [Fixed; 3]) -> (r: PrimitiveResult)
        ensures
            r@ == self.spec_mapped(point_of(pos)),
        decreases self, 1int,
    {
        match self {
            Primitive::Sphere(s) => s._map_primitive(pos),
            Primitive::Torus(s) => s._map_primitive(pos),
            Primitive::Cube(s) => s._map_primitive(pos),
            Primitive::Mandelbulb(s) => s._map_primitive(pos),
            Primitive::Julia(s) => s._map_primitive(pos),
            Primitive::Group(g) => g._map_primitive(pos),
        }
    }

    /// The answer at `pos`, which is already in the field's own frame: no
    /// transform and no warp is applied.
    pub fn map_primitive_mapped(&self, pos: [Fixed; 3]) -> (r: PrimitiveResult)
        ensures
            r@ == self.spec_mapped(point_of(pos)),
    {
        self._map_primitive(pos)
    }

    /// The answer at the point `pos` of the parent's frame.
    pub fn map_primitive(&self, pos: [Fixed; 3]) -> (r: PrimitiveResult)
        ensures
            r@ == spec_query(*self, point_of(pos)),
        decreases self, 2int,
    {
        if !self._use_raw_position() {
            let transformed_pos: [Fixed; 3] = self.get_primitive_data().to_local(pos);
            return self._map_primitive(transformed_pos);
        }
        self._map_primitive(pos)
    }

    /// Refreshes the field and everything below it from `snapshot`: the
    /// inverse transforms, the warps, and the attributes of every leaf and
    /// group. The tree itself stays as it is.
    pub fn evaluate(&mut self, snapshot: &Snapshot)
        ensures
            spec_evaluated(*old(self), *final(self), snapshot),
        decreases *old(self), 1int,
    {
        match self {
            Primitive::Sphere(s) => {
                s.primtive_data.evaluate(snapshot);
                s._evaluate(snapshot);
            },
            Primitive::Torus(s) => {
                s.primtive_data.evaluate(snapshot);
                s._evaluate(snapshot);
            },
            Primitive::Cube(s) => {
                s.primtive_data.evaluate(snapshot);
                s._evaluate(snapshot);
            },
            Primitive::Mandelbulb(s) => {
                s.primtive_data.evaluate(snapshot);
                s._evaluate(snapshot);
            },
            Primitive::Julia(s) => {
                s.primtive_data.evaluate(snapshot);
                s._evaluate(snapshot);
            },
            Primitive::Group(g) => {
                g._evaluate(snapshot);
                g.primtive_data.evaluate(snapshot);
            },
        }
    }
}

/// The distance of a sphere is exact: the distance and the radius add up to
/// the length of the point's position, rounded down to a raw unit. This holds
/// of every point and radius for which neither the length nor the distance
/// leaves the range of the numbers.
pub proof fn lemma_sphere_distance_exact(p: Point, rad: int)
    requires
        p.x * p.x + p.y * p.y + p.z * p.z <= LIMIT * LIMIT,
        -LIMIT <= rad <= LIMIT,
        isqrt(p.x * p.x + p.y * p.y + p.z * p.z) - rad <= LIMIT,
    ensures
        ({
            let len = spec_sphere_distance(p, rad) + rad;
            let square = p.x * p.x + p.y * p.y + p.z * p.z;
            &&& len >= 0
            &&& len * len <= square < (len + 1) * (len + 1)
        }),
{
    let square = p.x * p.x + p.y * p.y + p.z * p.z;
    lemma_square_sum_nonneg(p.x, p.y, p.z);
    lemma_isqrt_bracket(square);
    lemma_isqrt_monotonic(square, LIMIT * LIMIT);
    lemma_isqrt_unique(LIMIT * LIMIT, LIMIT as int);
}

/// What a sphere answers through its transform is exact too, where the
/// transform is the identity and there is no warp; its trap is zero and
/// its material is the sphere's own.
pub proof fn lemma_sphere_query_exact(s: Sphere, p: Point)
    requires
        forall|i: int, j: int|
            0 <= i < 4 && 0 <= j < 4 ==> (#[trigger] s.primtive_data.mat_inv[i][j])@ == (if i == j {
                SCALE as int
            } else {
                0
            }),
        s.primtive_data.pos_modifier@.len() == 0,
        p.x * p.x + p.y * p.y + p.z * p.z <= LIMIT * LIMIT,
        isqrt(p.x * p.x + p.y * p.y + p.z * p.z) - s.rad.value@ <= LIMIT,
    ensures
        ({
            let len = spec_query(Primitive::Sphere(s), p).distance + s.rad.value@;
            let square = p.x * p.x + p.y * p.y + p.z * p.z;
            &&& len >= 0
            &&& len * len <= square < (len + 1) * (len + 1)
        }),
        spec_query(Primitive::Sphere(s), p).fractal_data == (0int, 0int, 0int, 0int),
        spec_query(Primitive::Sphere(s), p).material == s.material_raw@,
{
    lemma_square_sum_nonneg(p.x, p.y, p.z);
    lemma_within(p.x, p.x * p.x);
    lemma_within(p.y, p.y * p.y);
    lemma_within(p.z, p.z * p.z);
    lemma_identity_transform(s.primtive_data.mat_inv, p);
    s.rad.value.lemma_bounded();
    lemma_sphere_distance_exact(p, s.rad.value@);
}

/// A number whose square is within the square of the limit is within the
/// limit.
proof fn lemma_within(x: int, square: int)
    requires
        square == x * x,
        square <= LIMIT * LIMIT,
    ensures
        -LIMIT <= x <= LIMIT,
{
    assert(-LIMIT <= x <= LIMIT) by (nonlinear_arith)
        requires
            x * x <= LIMIT * LIMIT,
    ;
}

/// The algebra of the sharp rules on two fields: the union is as far as
/// the nearer of the two, the intersection as far as the farther, and the
/// subtraction as far as the farther of the second and the first turned
/// inside out.
pub proof fn lemma_group_of_two(kind: GroupModifierType, k: int, prims: Seq<Primitive>, p: Point)
    requires
        prims.len() == 2,
    ensures
        ({
            let a = spec_query(prims[0], p).distance;
            let b = spec_query(prims[1], p).distance;
            let d = spec_fold(kind, k, prims, p, 2).distance;
            &&& kind == GroupModifierType::Union ==> d == spec_min(a, b)
            &&& kind == GroupModifierType::Intersection ==> d == spec_max(a, b)
            &&& kind == GroupModifierType::Subtraction ==> d == spec_max(-a, b)
            &&& kind == GroupModifierType::SmoothUnion ==> d == spec_smooth_union(a, b, k)
            &&& kind == GroupModifierType::SmoothIntersection ==> d == spec_smooth_intersection(
                a,
                b,
                k,
            )
            &&& kind == GroupModifierType::SmoothSubtraction ==> d == spec_smooth_subtraction(
                a,
                b,
                k,
            )
        }),
{
    assert(spec_fold(kind, k, prims, p, 1) == spec_seed(kind, spec_query(prims[0], p)));
}

/// A blend of two values with a weight between zero and one lies between
/// the two, up to the one raw unit that rounding may take.
pub proof fn lemma_mix_between(a: int, b: int, h: int)
    requires
        -LIMIT <= a <= LIMIT,
        -LIMIT <= b <= LIMIT,
        0 <= h <= SCALE,
    ensures
        spec_min(a, b) - 1 <= spec_mix(a, b, h) <= spec_max(a, b),
{
    let s = SCALE as int;
    let lo = spec_min(a, b);
    let hi = spec_max(a, b);
    let x = a * (s - h);
    let y = b * h;
    assert(lo * s <= x + y <= hi * s) by (nonlinear_arith)
        requires
            x == a * (s - h),
            y == b * h,
            lo <= a <= hi,
            lo <= b <= hi,
            0 <= h <= s,
    ;
    lemma_mul_bounds(a, s - h, LIMIT as int, s);
    lemma_mul_bounds(b, h, LIMIT as int, s);
    assert(LIMIT * s / s == LIMIT) by (nonlinear_arith)
        requires
            s == SCALE,
    ;
    assert(-(LIMIT * s) / s == -LIMIT) by (nonlinear_arith)
        requires
            s == SCALE,
    ;
    assert(saturate(s - h) == s - h);
    assert(spec_mul(a, s - h) == x / s);
    assert(spec_mul(b, h) == y / s);
}

/// The rounding term of a smooth rule is at least zero and at most the factor.
pub proof fn lemma_bulge_bounds(k: int, h: int)
    requires
        0 <= k <= LIMIT,
        0 <= h <= SCALE,
    ensures
        0 <= spec_blend_bulge(k, h) <= k,
{
    let s = SCALE as int;
    let v = k * h / s;
    assert(0 <= k * h <= k * s) by (nonlinear_arith)
        requires
            0 <= k,
            0 <= h <= s,
    ;
    assert(k * s / s == k) by (nonlinear_arith)
        requires
            s == SCALE,
    ;
    assert(0 <= v <= k);
    assert(spec_mul(k, h) == v);
    assert(0 <= v * (s - h) <= v * s) by (nonlinear_arith)
        requires
            0 <= v,
            0 <= h <= s,
    ;
    assert(v * s / s == v) by (nonlinear_arith)
        requires
            s == SCALE,
    ;
}

/// Smoothing is continuous: the smooth union of two distances with the
/// factor `k` differs from their union, the smaller of the two, by at most
/// `k` and the one raw unit that rounding may take. With a factor of zero
/// the two agree up to that unit.
pub proof fn lemma_smooth_union_near_union(a: int, c: int, k: int)
    requires
        -LIMIT / 2 <= a <= LIMIT / 2,
        -LIMIT / 2 <= c <= LIMIT / 2,
        0 <= k <= LIMIT,
    ensures
        spec_min(a, c) - k - 1 <= spec_smooth_union(a, c, k) <= spec_min(a, c) + k + 1,
{
    let s = SCALE as int;
    let half = s / 2;
    let t = c - a;
    assert(saturate(c - a) == t);
    let u = spec_mul(half, t);
    assert(half * t / s == t / 2) by (nonlinear_arith)
        requires
            half == 500_000_000,
            s == 1_000_000_000,
    ;
    assert(u == t / 2);
    let q = spec_div(u, k);
    let h = spec_blend_weight(t, k, 1);
    assert(h == spec_clamp(saturate(half + q), 0, s));
    assert(0 <= h <= s);
    lemma_mix_between(c, a, h);
    lemma_bulge_bounds(k, h);
    let m = spec_mix(c, a, h);
    let b = spec_blend_bulge(k, h);
    assert(spec_smooth_union(a, c, k) == saturate(m - b));
    if h == s {
        assert(q >= half);
        assert(u > 0) by {
            if k > 0 && u <= 0 {
                assert(u * s / k <= 0) by (nonlinear_arith)
                    requires
                        u <= 0,
                        k > 0,
                        s > 0,
                ;
            }
        }
        assert(c > a);
        assert(c * (s - h) == 0) by (nonlinear_arith)
            requires
                h == s,
        ;
        assert(a * s / s == a) by (nonlinear_arith)
            requires
                s == SCALE,
        ;
        assert(m == a);
        assert(k * h / s == k) by (nonlinear_arith)
            requires
                h == s,
                s == SCALE,
        ;
        assert(k * (s - h) == 0) by (nonlinear_arith)
            requires
                h == s,
        ;
        assert(b == 0);
    } else if h == 0 {
        assert(q <= -half);
        assert(u < 0) by {
            if k > 0 && u >= 0 {
                assert(u * s / k >= 0) by (nonlinear_arith)
                    requires
                        u >= 0,
                        k > 0,
                        s > 0,
                ;
            }
        }
        assert(c < a);
        assert(a * h == 0) by (nonlinear_arith)
            requires
                h == 0,
        ;
        assert(c * s / s == c) by (nonlinear_arith)
            requires
                s == SCALE,
        ;
        assert(m == c);
        assert(k * h == 0) by (nonlinear_arith)
            requires
                h == 0,
        ;
        assert(b == 0) by {
            assert(spec_mul(k, h) == 0);
            assert(0 * (s - h) == 0);
        }
    } else {
        assert(-half < q < half);
        if k == 0 {
            assert(u == 0);
        } else {
            let w = u * s / k;
            assert(q == saturate(w));
            assert(-half < w < half);
            assert(-k <= 2 * u <= k) by (nonlinear_arith)
                requires
                    w == u * s / k,
                    -half < w < half,
                    half * 2 == s,
                    k > 0,
                    s > 0,
            ;
        }
        assert(-k - 1 <= t <= k + 1);
    }
}

/// The smooth union does not lie above the sharp one, but for what
/// rounding adds: at most three raw units and a billionth of the factor.
pub proof fn lemma_smooth_union_below_union(a: int, c: int, k: int)
    requires
        -LIMIT / 2 <= a <= LIMIT / 2,
        -LIMIT / 2 <= c <= LIMIT / 2,
        0 <= k <= LIMIT,
    ensures
        spec_smooth_union(a, c, k) <= spec_min(a, c) + k / (SCALE as int) + 3,
{
    let s = SCALE as int;
    let half = s / 2;
    let t = c - a;
    assert(saturate(c - a) == t);
    let u = spec_mul(half, t);
    assert(half * t / s == t / 2) by (nonlinear_arith)
        requires
            half == 500_000_000,
            s == 1_000_000_000,
    ;
    assert(u == t / 2);
    let q = spec_div(u, k);
    let h = spec_blend_weight(t, k, 1);
    assert(h == spec_clamp(saturate(half + q), 0, s));
    let d = s - h;
    assert(saturate(s - h) == d);
    // the two products of the blend, and the two of the rounding term
    let x1 = c * d;
    let x2 = a * h;
    let y = k * h;
    lemma_mul_bounds(c, d, LIMIT / 2, s);
    lemma_mul_bounds(a, h, LIMIT / 2, s);
    lemma_mul_bounds(k, h, LIMIT as int, s);
    assert(0 <= y) by (nonlinear_arith)
        requires
            y == k * h,
            k >= 0,
            h >= 0,
    ;
    let m1 = x1 / s;
    let m2 = x2 / s;
    let p = y / s;
    assert(spec_mul(c, d) == m1);
    assert(spec_mul(a, h) == m2);
    assert(spec_mul(k, h) == p);
    let z = p * d;
    lemma_mul_bounds(p, d, LIMIT as int, s);
    assert(0 <= z) by (nonlinear_arith)
        requires
            z == p * d,
            p >= 0,
            d >= 0,
    ;
    let b = z / s;
    assert(spec_blend_bulge(k, h) == b);
    let m = m1 + m2;
    assert(spec_mix(c, a, h) == m);
    let r = spec_smooth_union(a, c, k);
    assert(r == saturate(m - b));
    assert(x1 + x2 == a * s + t * d) by (nonlinear_arith)
        requires
            x1 == c * d,
            x2 == a * h,
            c == a + t,
            d == s - h,
    ;
    assert(x1 + x2 == c * s - t * h) by (nonlinear_arith)
        requires
            x1 == c * d,
            x2 == a * h,
            c == a + t,
            d == s - h,
    ;
    let td = t * d;
    let th = t * h;
    // s * m <= x1 + x2, so s (m - a) <= t d and s (m - c) <= -t h
    assert(s * z >= (y - s) * d) by (nonlinear_arith)
        requires
            z == p * d,
            s * p >= y - s,
            d >= 0,
            s > 0,
    ;
    let yd = y * d;
    assert((y - s) * d == yd - s * d) by (nonlinear_arith)
        requires
            yd == y * d,
    ;
    // s s b >= y d - s d - s s
    if h == s || h == 0 || k == 0 {
        if h == s {
            assert(q >= half);
            assert(u > 0) by {
                if k > 0 && u <= 0 {
                    assert(u * s / k <= 0) by (nonlinear_arith)
                        requires
                            u <= 0,
                            k > 0,
                            s > 0,
                    ;
                }
            }
            assert(td == 0) by (nonlinear_arith)
                requires
                    td == t * d,
                    d == 0,
            ;
        } else if h == 0 {
            assert(q <= -half);
            assert(u < 0) by {
                if k > 0 && u >= 0 {
                    assert(u * s / k >= 0) by (nonlinear_arith)
                        requires
                            u >= 0,
                            k > 0,
                            s > 0,
                    ;
                }
            }
            assert(th == 0) by (nonlinear_arith)
                requires
                    th == t * h,
                    h == 0,
            ;
        } else {
            assert(q == 0);
            assert(u == 0);
            assert(h == half);
            assert(td == t * half);
        }
    } else {
        let w = u * s / k;
        assert(q == saturate(w));
        assert(-half < w < half);
        assert(k * w <= u * s < k * w + k) by (nonlinear_arith)
            requires
                w == u * s / k,
                k > 0,
        ;
        let kq = k * q;
        assert(y == k * half + kq) by (nonlinear_arith)
            requires
                y == k * h,
                h == half + q,
                kq == k * q,
        ;
        assert(-k <= 2 * u <= k) by (nonlinear_arith)
            requires
                k * w <= u * s < k * w + k,
                -half < w < half,
                half * 2 == s,
                k > 0,
                s > 0,
        ;
        if t >= 0 {
            // 2 (s t - y) < s + 2 k
            let x = s * t - y;
            assert(q == w);
            assert(kq <= k * half - k) by (nonlinear_arith)
                requires
                    kq == k * q,
                    q <= half - 1,
                    k > 0,
            ;
            assert(2 * u < k);
            assert(t <= k);
            assert(2 * x < s + 2 * k);
            let dx = d * x;
            assert(2 * dx < s * (s + 2 * k)) by (nonlinear_arith)
                requires
                    dx == d * x,
                    0 < d < s,
                    2 * x < s + 2 * k,
                    s > 0,
                    k > 0,
            ;
            assert(s * td - yd == dx) by (nonlinear_arith)
                requires
                    td == t * d,
                    yd == y * d,
                    dx == d * x,
                    x == s * t - y,
            ;
            let g = m - a - b;
            assert(s * s * g <= s * td - yd + s * d + s * s) by (nonlinear_arith)
                requires
                    g == m - a - b,
                    s * (m - a) <= td,
                    s * b >= z - s,
                    s * z >= yd - s * d,
                    s > 0,
            ;
            assert(g <= k / s + 3) by (nonlinear_arith)
                requires
                    s * s * g <= dx + s * d + s * s,
                    2 * dx < s * (s + 2 * k),
                    d < s,
                    s == 1_000_000_000,
                    k >= 0,
            ;
        } else {
            // s (-t) - k d <= 0
            assert(y == k * s - k * d) by (nonlinear_arith)
                requires
                    y == k * h,
                    d == s - h,
            ;
            let kd = k * d;
            assert(kd == k * half - kq) by (nonlinear_arith)
                requires
                    kd == k * d,
                    d == half - q,
                    kq == k * q,
            ;
            let x = s * (-t) - kd;
            assert(q == w);
            assert(-t <= k);
            assert(2 * x <= 0);
            let hx = h * x;
            assert(hx <= 0) by (nonlinear_arith)
                requires
                    hx == h * x,
                    h > 0,
                    x <= 0,
            ;
            assert(s * (-th) - yd == hx - 0) by (nonlinear_arith)
                requires
                    th == t * h,
                    yd == y * d,
                    y == k * h,
                    hx == h * x,
                    x == s * (-t) - kd,
                    kd == k * d,
            ;
            let g = m - c - b;
            assert(s * s * g <= s * (-th) - yd + s * d + s * s) by (nonlinear_arith)
                requires
                    g == m - c - b,
                    s * (m - c) <= -th,
                    s * b >= z - s,
                    s * z >= yd - s * d,
                    s > 0,
            ;
            assert(g <= 2) by (nonlinear_arith)
                requires
                    s * s * g <= hx + s * d + s * s,
                    hx <= 0,
                    d < s,
                    s == 1_000_000_000,
            ;
        }
    }
}

/// Outside the band of the blend the smooth union is the sharp one: where
/// half the difference of the two distances, rounded down to a raw unit, is
/// not zero and at least half the factor, the weight is zero or one and the
/// smooth union is exactly the smaller of the two.
pub proof fn lemma_smooth_union_outside_band(a: int, c: int, k: int)
    requires
        -LIMIT <= a <= LIMIT,
        -LIMIT <= c <= LIMIT,
        0 <= k <= LIMIT,
        saturate(c - a) / 2 != 0,
        2 * spec_abs(saturate(c - a) / 2) >= k,
    ensures
        spec_smooth_union(a, c, k) == spec_min(a, c),
{
    let s = SCALE as int;
    let t = saturate(c - a);
    let u = t / 2;
    assert(spec_mul(s / 2, t) == u) by {
        assert((s / 2) * t / s == t / 2) by (nonlinear_arith)
            requires
                s == 1_000_000_000,
        ;
    }
    let q = spec_div(u, k);
    let h = spec_blend_weight(t, k, 1);
    assert(h == spec_clamp(saturate(s / 2 + q), 0, s));
    if u > 0 {
        assert(c > a);
        if k > 0 {
            assert(u * s / k >= s / 2) by (nonlinear_arith)
                requires
                    2 * u >= k,
                    k > 0,
                    s == 1_000_000_000,
            ;
        }
        assert(q >= s / 2);
        assert(h == s);
        assert(spec_mul(c, 0) == 0);
        assert(spec_mul(a, s) == a) by {
            assert(a * s / s == a) by (nonlinear_arith)
                requires
                    s == 1_000_000_000,
            ;
        }
        assert(spec_mix(c, a, h) == a);
        assert(spec_mul(spec_mul(k, s), 0) == 0) by {
            assert(spec_mul(k, s) * 0 == 0);
        }
        assert(spec_blend_bulge(k, h) == 0);
    } else {
        assert(u < 0);
        assert(c < a);
        if k > 0 {
            assert(u * s / k <= -(s / 2)) by (nonlinear_arith)
                requires
                    -2 * u >= k,
                    k > 0,
                    s == 1_000_000_000,
            ;
        }
        assert(q <= -(s / 2));
        assert(h == 0);
        assert(spec_mul(a, 0) == 0);
        assert(spec_mul(c, s) == c) by {
            assert(c * s / s == c) by (nonlinear_arith)
                requires
                    s == 1_000_000_000,
            ;
        }
        assert(spec_mix(c, a, h) == c);
        assert(spec_mul(k, 0) == 0);
        assert(spec_mul(0, s) == 0);
        assert(spec_blend_bulge(k, h) == 0);
    }
}

/// Two distances that differ by the factor and two raw units or more lie
/// outside the band of the blend: their smooth union is the smaller of
/// the two.
pub proof fn lemma_smooth_union_far_apart(a: int, c: int, k: int)
    requires
        -LIMIT <= a <= LIMIT,
        -LIMIT <= c <= LIMIT,
        0 <= k <= LIMIT,
        c - a >= k + 2 || a - c >= k + 2,
    ensures
        spec_smooth_union(a, c, k) == spec_min(a, c),
{
    lemma_smooth_union_outside_band(a, c, k);
}

/// The union of any number of fields is as far as the nearest of them:
/// no child is nearer than the union, and one child is exactly as far.
pub proof fn lemma_union_is_nearest(prims: Seq<Primitive>, p: Point, k: int, n: int)
    requires
        1 <= n <= prims.len(),
    ensures
        forall|i: int|
            0 <= i < n ==> spec_fold(GroupModifierType::Union, k, prims, p, n).distance
                <= #[trigger] spec_query(prims[i], p).distance,
        exists|i: int|
            0 <= i < n && spec_fold(GroupModifierType::Union, k, prims, p, n) == #[trigger] spec_query(
                prims[i],
                p,
            ),
    decreases n,
{
    if n == 1 {
        assert(spec_fold(GroupModifierType::Union, k, prims, p, 1) == spec_query(prims[0], p));
    } else {
        lemma_union_is_nearest(prims, p, k, n - 1);
        let before = spec_fold(GroupModifierType::Union, k, prims, p, n - 1);
        let witness = choose|i: int| 0 <= i < n - 1 && before == #[trigger] spec_query(prims[i], p);
        let cur = spec_query(prims[n - 1], p);
        if cur.distance < before.distance {
            assert(spec_fold(GroupModifierType::Union, k, prims, p, n) == spec_query(
                prims[n - 1],
                p,
            ));
        } else {
            assert(spec_fold(GroupModifierType::Union, k, prims, p, n) == spec_query(
                prims[witness],
                p,
            ));
        }
    }
}

/// The data of a leaf refreshed twice from one snapshot carries points as
/// the data refreshed once.
pub proof fn lemma_data_refresh_idempotent(
    a: PrimitiveData,
    b: PrimitiveData,
    c: PrimitiveData,
    snapshot: &Snapshot,
    p: Point,
)
    requires
        a.resolves_to(&b, snapshot),
        b.resolves_to(&c, snapshot),
    ensures
        c.spec_local(p) == b.spec_local(p),
{
    assert(c.mat_inv == b.mat_inv);
    lemma_chain_refresh_idempotent(
        a.pos_modifier@,
        b.pos_modifier@,
        c.pos_modifier@,
        snapshot,
        spec_mat_vec_mul(b.mat_inv, p),
        a.pos_modifier@.len() as int,
    );
}

/// Refreshing a field is idempotent: a field refreshed twice from one
/// snapshot answers every point as the field refreshed once.
pub proof fn lemma_evaluate_idempotent(
    a: Primitive,
    b: Primitive,
    c: Primitive,
    snapshot: &Snapshot,
    p: Point,
)
    requires
        spec_evaluated(a, b, snapshot),
        spec_evaluated(b, c, snapshot),
    ensures
        spec_query(c, p) == spec_query(b, p),
    decreases a,
{
    match (a, b, c) {
        (Primitive::Sphere(x), Primitive::Sphere(y), Primitive::Sphere(z)) => {
            lemma_data_refresh_idempotent(
                x.primtive_data,
                y.primtive_data,
                z.primtive_data,
                snapshot,
                p,
            );
        },
        (Primitive::Torus(x), Primitive::Torus(y), Primitive::Torus(z)) => {
            lemma_data_refresh_idempotent(
                x.primtive_data,
                y.primtive_data,
                z.primtive_data,
                snapshot,
                p,
            );
        },
        (Primitive::Cube(x), Primitive::Cube(y), Primitive::Cube(z)) => {
            lemma_data_refresh_idempotent(
                x.primtive_data,
                y.primtive_data,
                z.primtive_data,
                snapshot,
                p,
            );
        },
        (Primitive::Mandelbulb(x), Primitive::Mandelbulb(y), Primitive::Mandelbulb(z)) => {
            lemma_data_refresh_idempotent(
                x.primtive_data,
                y.primtive_data,
                z.primtive_data,
                snapshot,
                p,
            );
        },
        (Primitive::Julia(x), Primitive::Julia(y), Primitive::Julia(z)) => {
            lemma_data_refresh_idempotent(
                x.primtive_data,
                y.primtive_data,
                z.primtive_data,
                snapshot,
                p,
            );
        },
        (Primitive::Group(x), Primitive::Group(y), Primitive::Group(z)) => {
            assert(z.factor == y.factor);
            lemma_fold_refresh_idempotent(
                a,
                x.prims@,
                y.prims@,
                z.prims@,
                snapshot,
                y.group_primitive_type,
                y.factor@,
                p,
                x.prims@.len() as int,
            );
        },
        _ => {},
    }
}

/// The fold over children that were refreshed twice is the fold over the
/// children refreshed once.
proof fn lemma_fold_refresh_idempotent(
    parent: Primitive,
    a: Seq<Primitive>,
    b: Seq<Primitive>,
    c: Seq<Primitive>,
    snapshot: &Snapshot,
    kind: GroupModifierType,
    k: int,
    p: Point,
    n: int,
)
    requires
        parent matches Primitive::Group(g) && g.prims@ == a,
        a.len() == b.len() == c.len(),
        forall|i: int| 0 <= i < a.len() ==> spec_evaluated(#[trigger] a[i], b[i], snapshot),
        forall|i: int| 0 <= i < b.len() ==> spec_evaluated(#[trigger] b[i], c[i], snapshot),
        0 <= n <= a.len(),
    ensures
        spec_fold(kind, k, c, p, n) == spec_fold(kind, k, b, p, n),
    decreases parent, n,
{
    if n >= 1 {
        lemma_fold_refresh_idempotent(parent, a, b, c, snapshot, kind, k, p, n - 1);
        assert(spec_evaluated(a[n - 1], b[n - 1], snapshot));
        assert(spec_evaluated(b[n - 1], c[n - 1], snapshot));
        lemma_evaluate_idempotent(a[n - 1], b[n - 1], c[n - 1], snapshot, p);
        if n > 1 {
            assert(spec_evaluated(a[0], b[0], snapshot));
        }
    }
}

} // verus!
