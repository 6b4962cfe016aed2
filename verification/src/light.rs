//! Lights: what reaches a point, from where, and from how far.

use crate::fixed::{saturate, spec_div, spec_mul, Fixed, LIMIT, SCALE};
use crate::helpers::{
    point_of, spec_dot, spec_normalized, vec3_normalized, vec3_square_len, Point,
};
use crate::math::PI;
use crate::parameter::{Param, Snapshot};
use vstd::prelude::*;

verus! {

/// What a light sends to a point: the distance to the light, the unit
/// direction towards it, and the intensity per colour channel.
#[derive(Clone, Copy, Debug)]
pub struct LightInfo {
    pub distance: Fixed,
    pub direction: [Fixed; 3],
    pub light_intensity: [Fixed; 3],
}

/// What a light sends to a point, in raw values.
pub struct LightView {
    pub distance: int,
    pub direction: Point,
    pub light_intensity: Point,
}

impl View for LightInfo {
    type V = LightView;

    open spec fn view(&self) -> LightView {
        LightView {
            distance: self.distance@,
            direction: point_of(self.direction),
            light_intensity: point_of(self.light_intensity),
        }
    }
}

/// The raw values of three attributes.
pub open spec fn values_of(p: [Param; 3]) -> Point {
    Point { x: p[0].value@, y: p[1].value@, z: p[2].value@ }
}

/// Whether `new` holds the three attributes `old`, refreshed from `snapshot`.
pub open spec fn triple_resolves_to(old: [Param; 3], new: [Param; 3], snapshot: &Snapshot) -> bool {
    &&& new[0] == old[0].resolved(snapshot)
    &&& new[1] == old[1].resolved(snapshot)
    &&& new[2] == old[2].resolved(snapshot)
}

/// Three attributes, refreshed from `snapshot`.
pub fn resolve_triple(p: [Param; 3], snapshot: &Snapshot) -> (r: [Param; 3])
    ensures
        triple_resolves_to(p, r, snapshot),
{
    [p[0].resolve(snapshot), p[1].resolve(snapshot), p[2].resolve(snapshot)]
}

/// The present values of three attributes.
pub fn values(p: [Param; 3]) -> (r: [Fixed; 3])
    ensures
        point_of(r) == values_of(p),
{
    [p[0].get(), p[1].get(), p[2].get()]
}

/// A colour times an intensity, channel by channel.
pub open spec fn spec_scaled(color: Point, factor: int) -> Point {
    Point {
        x: spec_mul(color.x, factor),
        y: spec_mul(color.y, factor),
        z: spec_mul(color.z, factor),
    }
}

/// What a light from one direction sends anywhere: it is infinitely far,
/// lies against its direction, and keeps its full intensity.
pub open spec fn spec_directional(direction: Point, color: Point, intensity: int) -> LightView {
    LightView {
        distance: LIMIT as int,
        direction: spec_normalized(Point { x: -direction.x, y: -direction.y, z: -direction.z }),
        light_intensity: spec_scaled(color, intensity),
    }
}

/// What a light at a position sends to `point`: its intensity falls off
/// with `4 pi` times the square of the distance.
pub open spec fn spec_point_light(position: Point, color: Point, intensity: int, point: Point) -> LightView {
    let towards = Point {
        x: saturate(position.x - point.x),
        y: saturate(position.y - point.y),
        z: saturate(position.z - point.z),
    };
    let r2 = spec_dot(towards, towards);
    let falloff = spec_div(SCALE as int, spec_mul(spec_mul(4 * SCALE, PI as int), r2));
    LightView {
        distance: crate::helpers::spec_len(towards),
        direction: spec_normalized(towards),
        light_intensity: spec_scaled(spec_scaled(color, intensity), falloff),
    }
}

/// A light that shines along one direction from infinitely far.
#[derive(Clone, Copy, Debug)]
pub struct DirectionalLight {
    pub direction: [Param; 3],
    pub color: [Param; 3],
    pub intensity: Param,
}

impl DirectionalLight {
    pub fn new(direction: [Param; 3], color: [Param; 3], intensity: Param) -> (r: DirectionalLight)
        ensures
            r.direction == direction,
            r.color == color,
            r.intensity == intensity,
    {
        DirectionalLight { direction, color, intensity }
    }

    pub fn illuminate(&self, point: [Fixed; 3]) -> (r: LightInfo)
        ensures
            r@ == spec_directional(
                values_of(self.direction),
                values_of(self.color),
                self.intensity.value@,
            ),
    {
        let d: [Fixed; 3] = values(self.direction);
        let c: [Fixed; 3] = values(self.color);
        let i: Fixed = self.intensity.get();
        LightInfo {
            distance: Fixed::infinity(),
            direction: vec3_normalized([d[0].neg(), d[1].neg(), d[2].neg()]),
            light_intensity: [c[0].mul(i), c[1].mul(i), c[2].mul(i)],
        }
    }

    pub fn evaluate(&mut self, snapshot: &Snapshot)
        ensures
            triple_resolves_to(old(self).direction, final(self).direction, snapshot),
            triple_resolves_to(old(self).color, final(self).color, snapshot),
            final(self).intensity == old(self).intensity.resolved(snapshot),
    {
        self.direction = resolve_triple(self.direction, snapshot);
        self.color = resolve_triple(self.color, snapshot);
        self.intensity = self.intensity.resolve(snapshot);
    }
}

/// A light that shines from one point in every direction.
#[derive(Clone, Copy, Debug)]
pub struct PointLight {
    pub position: [Param; 3],
    pub color: [Param; 3],
    pub intensity: Param,
}

impl PointLight {
    pub fn new(position: [Param; 3], color: [Param; 3], intensity: Param) -> (r: PointLight)
        ensures
            r.position == position,
            r.color == color,
            r.intensity == intensity,
    {
        PointLight { position, color, intensity }
    }

    pub fn illuminate(&self, point: [Fixed; 3]) -> (r: LightInfo)
        ensures
            r@ == spec_point_light(
                values_of(self.position),
                values_of(self.color),
                self.intensity.value@,
                point_of(point),
            ),
    {
        let p: [Fixed; 3] = values(self.position);
        let c: [Fixed; 3] = values(self.color);
        let i: Fixed = self.intensity.get();
        let light_dir: [Fixed; 3] = [p[0].sub(point[0]), p[1].sub(point[1]), p[2].sub(point[2])];
        let r2: Fixed = vec3_square_len(light_dir);
        let distance: Fixed = crate::helpers::vec3_len(light_dir);
        let mul: Fixed = Fixed::one().div(Fixed::from_int(4).mul(Fixed::from_raw(PI)).mul(r2));
        LightInfo {
            distance,
            direction: vec3_normalized(light_dir),
            light_intensity: [c[0].mul(i).mul(mul), c[1].mul(i).mul(mul), c[2].mul(i).mul(mul)],
        }
    }

    pub fn evaluate(&mut self, snapshot: &Snapshot)
        ensures
            triple_resolves_to(old(self).position, final(self).position, snapshot),
            triple_resolves_to(old(self).color, final(self).color, snapshot),
            final(self).intensity == old(self).intensity.resolved(snapshot),
    {
        self.position = resolve_triple(self.position, snapshot);
        self.color = resolve_triple(self.color, snapshot);
        self.intensity = self.intensity.resolve(snapshot);
    }
}

/// A light of a scene.
#[derive(Clone, Copy, Debug)]
pub enum Light {
    Directional(DirectionalLight),
    Point(PointLight),
}

impl Light {
    /// What the light sends to the point `p`, in raw values.
    pub open spec fn spec_illuminate(&self, p: Point) -> LightView {
        match self {
            Light::Directional(l) => spec_directional(
                values_of(l.direction),
                values_of(l.color),
                l.intensity.value@,
            ),
            Light::Point(l) => spec_point_light(
                values_of(l.position),
                values_of(l.color),
                l.intensity.value@,
                p,
            ),
        }
    }

    /// What the light sends to `point`.
    pub fn illuminate(&self, point: [Fixed; 3]) -> (r: LightInfo)
        ensures
            r@ == self.spec_illuminate(point_of(point)),
    {
        match self {
            Light::Directional(l) => l.illuminate(point),
            Light::Point(l) => l.illuminate(point),
        }
    }

    /// Whether `new` is `self` refreshed from `snapshot`.
    pub open spec fn resolves_to(&self, new: &Light, snapshot: &Snapshot) -> bool {
        match (self, new) {
            (Light::Directional(a), Light::Directional(b)) => {
                &&& triple_resolves_to(a.direction, b.direction, snapshot)
                &&& triple_resolves_to(a.color, b.color, snapshot)
                &&& b.intensity == a.intensity.resolved(snapshot)
            },
            (Light::Point(a), Light::Point(b)) => {
                &&& triple_resolves_to(a.position, b.position, snapshot)
                &&& triple_resolves_to(a.color, b.color, snapshot)
                &&& b.intensity == a.intensity.resolved(snapshot)
            },
            _ => false,
        }
    }

    /// Refreshes the attributes of the light from `snapshot`.
    pub fn evaluate(&mut self, snapshot: &Snapshot)
        ensures
            old(self).resolves_to(final(self), snapshot),
    {
        match self {
            Light::Directional(l) => l.evaluate(snapshot),
            Light::Point(l) => l.evaluate(snapshot),
        }
    }
}

} // verus!
