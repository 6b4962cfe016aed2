//! Point warps applied before a distance function is evaluated, and
//! modifiers of a distance.

use crate::fixed::{
    saturate, spec_abs, spec_clamp, spec_div, spec_mul, spec_rem, spec_trunc, Fixed, SCALE,
};
use crate::helpers::{point_of, round, Point};
use crate::math::{cos, sin, spec_cos, spec_sin};
use crate::parameter::{Param, Snapshot};
use vstd::prelude::*;

verus! {

/// One raw coordinate folded into the cell of width `period` around the origin:
/// `((x + period / 2) rem period) - period / 2`.
pub open spec fn spec_repeat(x: int, period: int) -> int {
    let half = spec_mul(SCALE / 2, period);
    saturate(spec_rem(saturate(x + half), period) - half)
}

/// One raw coordinate folded into the nearest cell of width `period`, of
/// which there are `limit` to either side of the origin:
/// `x - period * clamp(trunc(x / period), -limit, limit)`.
pub open spec fn spec_repeat_limited(x: int, period: int, limit: int) -> int {
    saturate(x - spec_mul(period, spec_clamp(spec_trunc(spec_div(x, period)), -limit, limit)))
}

/// The offset that a distortion adds to every coordinate of `p`: the product
/// of one sine per axis, of `freq * coordinate + offset`, times `factor`.
pub open spec fn spec_distort_offset(p: Point, factor: int, offset: Point, freq: int) -> int {
    let sx = spec_sin(saturate(spec_mul(freq, p.x) + offset.x));
    let sy = spec_sin(saturate(spec_mul(freq, p.y) + offset.y));
    let sz = spec_sin(saturate(spec_mul(freq, p.z) + offset.z));
    spec_mul(spec_mul(spec_mul(sx, sy), sz), factor)
}

/// The pair `(u, v)` turned by `angle`: `(cos u - sin v, sin u + cos v)`.
pub open spec fn spec_turned(u: int, v: int, angle: int) -> (int, int) {
    let c = spec_cos(angle);
    let s = spec_sin(angle);
    (saturate(spec_mul(c, u) - spec_mul(s, v)), saturate(spec_mul(s, u) + spec_mul(c, v)))
}

/// The pair `(u, v)` turned by `angle`.
fn turned(u: Fixed, v: Fixed, angle: Fixed) -> (r: (Fixed, Fixed))
    ensures
        (r.0@, r.1@) == spec_turned(u@, v@, angle@),
{
    let c: Fixed = cos(angle);
    let s: Fixed = sin(angle);
    (c.mul(u).sub(s.mul(v)), s.mul(u).add(c.mul(v)))
}

/// Ripples space: every coordinate is moved by the same sinusoidal offset.
#[derive(Clone, Copy, Debug)]
pub struct Distort {
    pub factor: Param,
    pub offset: [Param; 3],
    pub freq: Param,
}

impl Distort {
    pub fn new(factor: Param, offset: [Param; 3], freq: Param) -> (r: Distort)
        ensures
            r.factor == factor,
            r.offset == offset,
            r.freq == freq,
    {
        Distort { factor, offset, freq }
    }

    pub open spec fn spec_modify(&self, p: Point) -> Point {
        let m = spec_distort_offset(
            p,
            self.factor.value@,
            Point { x: self.offset[0].value@, y: self.offset[1].value@, z: self.offset[2].value@ },
            self.freq.value@,
        );
        Point { x: saturate(p.x + m), y: saturate(p.y + m), z: saturate(p.z + m) }
    }

    /// Whether `new` is `self` refreshed from `snapshot`.
    pub open spec fn resolves_to(&self, new: &Distort, snapshot: &Snapshot) -> bool {
        &&& new.factor == self.factor.resolved(snapshot)
        &&& new.freq == self.freq.resolved(snapshot)
        &&& new.offset[0] == self.offset[0].resolved(snapshot)
        &&& new.offset[1] == self.offset[1].resolved(snapshot)
        &&& new.offset[2] == self.offset[2].resolved(snapshot)
    }

    pub fn modify(&self, pos: [Fixed; 3]) -> (r: [Fixed; 3])
        ensures
            point_of(r) == self.spec_modify(point_of(pos)),
    {
        let freq: Fixed = self.freq.get();
        let m: Fixed = sin(freq.mul(pos[0]).add(self.offset[0].get())).mul(
            sin(freq.mul(pos[1]).add(self.offset[1].get())),
        ).mul(sin(freq.mul(pos[2]).add(self.offset[2].get()))).mul(self.factor.get());
        [pos[0].add(m), pos[1].add(m), pos[2].add(m)]
    }

    pub fn evaluate(&mut self, snapshot: &Snapshot)
        ensures
            old(self).resolves_to(final(self), snapshot),
    {
        self.factor = self.factor.resolve(snapshot);
        self.freq = self.freq.resolve(snapshot);
        self.offset =
        [
            self.offset[0].resolve(snapshot),
            self.offset[1].resolve(snapshot),
            self.offset[2].resolve(snapshot),
        ];
    }
}

/// Twists space: the x and z coordinates are turned by an angle that grows
/// with y, and what was y comes out last.
#[derive(Clone, Copy, Debug)]
pub struct Twist {
    pub power: Param,
}

impl Twist {
    pub fn new(power: Param) -> (r: Twist)
        ensures
            r.power == power,
    {
        Twist { power }
    }

    pub open spec fn spec_modify(&self, p: Point) -> Point {
        let t = spec_turned(p.x, p.z, spec_mul(self.power.value@, p.y));
        Point { x: t.0, y: t.1, z: p.y }
    }

    pub open spec fn resolved(&self, snapshot: &Snapshot) -> Twist {
        Twist { power: self.power.resolved(snapshot) }
    }

    pub fn modify(&self, pos: [Fixed; 3]) -> (r: [Fixed; 3])
        ensures
            point_of(r) == self.spec_modify(point_of(pos)),
    {
        let t = turned(pos[0], pos[2], self.power.get().mul(pos[1]));
        [t.0, t.1, pos[1]]
    }

    pub fn evaluate(&mut self, snapshot: &Snapshot)
        ensures
            *final(self) == old(self).resolved(snapshot),
    {
        self.power = self.power.resolve(snapshot);
    }
}

/// Bends space: the x and y coordinates are turned by an angle that grows
/// with x.
#[derive(Clone, Copy, Debug)]
pub struct Bend {
    pub power: Param,
}

impl Bend {
    pub fn new(power: Param) -> (r: Bend)
        ensures
            r.power == power,
    {
        Bend { power }
    }

    pub open spec fn spec_modify(&self, p: Point) -> Point {
        let t = spec_turned(p.x, p.y, spec_mul(self.power.value@, p.x));
        Point { x: t.0, y: t.1, z: p.z }
    }

    pub open spec fn resolved(&self, snapshot: &Snapshot) -> Bend {
        Bend { power: self.power.resolved(snapshot) }
    }

    pub fn modify(&self, pos: [Fixed; 3]) -> (r: [Fixed; 3])
        ensures
            point_of(r) == self.spec_modify(point_of(pos)),
    {
        let t = turned(pos[0], pos[1], self.power.get().mul(pos[0]));
        [t.0, t.1, pos[2]]
    }

    pub fn evaluate(&mut self, snapshot: &Snapshot)
        ensures
            *final(self) == old(self).resolved(snapshot),
    {
        self.power = self.power.resolve(snapshot);
    }
}

/// Repeats space without end, with the same period along every axis.
#[derive(Clone, Copy, Debug)]
pub struct Repetition {
    pub repetition_period: Param,
}

impl Repetition {
    pub fn new(repetition_period: Param) -> (r: Repetition)
        ensures
            r.repetition_period == repetition_period,
    {
        Repetition { repetition_period }
    }

    pub open spec fn spec_modify(&self, p: Point) -> Point {
        let period = self.repetition_period.value@;
        Point {
            x: spec_repeat(p.x, period),
            y: spec_repeat(p.y, period),
            z: spec_repeat(p.z, period),
        }
    }

    pub open spec fn resolved(&self, snapshot: &Snapshot) -> Repetition {
        Repetition { repetition_period: self.repetition_period.resolved(snapshot) }
    }

    pub fn modify(&self, pos: [Fixed; 3]) -> (r: [Fixed; 3])
        ensures
            point_of(r) == self.spec_modify(point_of(pos)),
    {
        let period: Fixed = self.repetition_period.get();
        let half: Fixed = Fixed::from_raw(SCALE / 2).mul(period);
        [
            pos[0].add(half).rem(period).sub(half),
            pos[1].add(half).rem(period).sub(half),
            pos[2].add(half).rem(period).sub(half),
        ]
    }

    pub fn evaluate(&mut self, snapshot: &Snapshot)
        ensures
            *final(self) == old(self).resolved(snapshot),
    {
        self.repetition_period = self.repetition_period.resolve(snapshot);
    }
}

/// Repeats space with a period, a limited number of times along each axis.
#[derive(Clone, Copy, Debug)]
pub struct RepetitionLimited {
    pub repetition_period: Param,
    pub limiter: [Param; 3],
}

impl RepetitionLimited {
    pub fn new(repetition_period: Param, limiter: [Param; 3]) -> (r: RepetitionLimited)
        ensures
            r.repetition_period == repetition_period,
            r.limiter == limiter,
    {
        RepetitionLimited { repetition_period, limiter }
    }

    pub open spec fn spec_modify(&self, p: Point) -> Point {
        let period = self.repetition_period.value@;
        Point {
            x: spec_repeat_limited(p.x, period, self.limiter[0].value@),
            y: spec_repeat_limited(p.y, period, self.limiter[1].value@),
            z: spec_repeat_limited(p.z, period, self.limiter[2].value@),
        }
    }

    /// Whether `new` is `self` refreshed from `snapshot`.
    pub open spec fn resolves_to(&self, new: &RepetitionLimited, snapshot: &Snapshot) -> bool {
        &&& new.repetition_period == self.repetition_period.resolved(snapshot)
        &&& new.limiter[0] == self.limiter[0].resolved(snapshot)
        &&& new.limiter[1] == self.limiter[1].resolved(snapshot)
        &&& new.limiter[2] == self.limiter[2].resolved(snapshot)
    }

    pub fn modify(&self, pos: [Fixed; 3]) -> (r: [Fixed; 3])
        ensures
            point_of(r) == self.spec_modify(point_of(pos)),
    {
        let period: Fixed = self.repetition_period.get();
        let l0: Fixed = self.limiter[0].get();
        let l1: Fixed = self.limiter[1].get();
        let l2: Fixed = self.limiter[2].get();
        [
            pos[0].sub(period.mul(round(pos[0].div(period)).clamp(l0.neg(), l0))),
            pos[1].sub(period.mul(round(pos[1].div(period)).clamp(l1.neg(), l1))),
            pos[2].sub(period.mul(round(pos[2].div(period)).clamp(l2.neg(), l2))),
        ]
    }

    pub fn evaluate(&mut self, snapshot: &Snapshot)
        ensures
            old(self).resolves_to(final(self), snapshot),
    {
        self.repetition_period = self.repetition_period.resolve(snapshot);
        self.limiter = [
            self.limiter[0].resolve(snapshot),
            self.limiter[1].resolve(snapshot),
            self.limiter[2].resolve(snapshot),
        ];
    }
}

/// Turns a solid into a shell: the distance to the surface, less a thickness.
#[derive(Clone, Copy, Debug)]
pub struct Round {
    pub thickness: Fixed,
}

impl Round {
    pub fn new(thickness: Fixed) -> (r: Round)
        ensures
            r.thickness == thickness,
    {
        Round { thickness }
    }

    pub fn modify(&self, dist: Fixed) -> (r: Fixed)
        ensures
            r@ == saturate(spec_abs(dist@) - self.thickness@),
    {
        dist.abs().sub(self.thickness)
    }

    /// A shell has no animated attribute: nothing changes.
    pub fn evaluate(&mut self, snapshot: &Snapshot)
        ensures
            *final(self) == *old(self),
    {
    }
}

/// A point warp: one of the ways to bend space before a distance is taken.
#[derive(Clone, Copy, Debug)]
pub enum PosModifier {
    Distort(Distort),
    Twist(Twist),
    Bend(Bend),
    Repetition(Repetition),
    RepetitionLimited(RepetitionLimited),
}

impl PosModifier {
    pub open spec fn spec_modify(&self, p: Point) -> Point {
        match self {
            PosModifier::Distort(m) => m.spec_modify(p),
            PosModifier::Twist(m) => m.spec_modify(p),
            PosModifier::Bend(m) => m.spec_modify(p),
            PosModifier::Repetition(m) => m.spec_modify(p),
            PosModifier::RepetitionLimited(m) => m.spec_modify(p),
        }
    }

    /// Whether `new` is `self` refreshed from `snapshot`.
    pub open spec fn resolves_to(&self, new: &PosModifier, snapshot: &Snapshot) -> bool {
        match (self, new) {
            (PosModifier::Distort(a), PosModifier::Distort(b)) => a.resolves_to(b, snapshot),
            (PosModifier::Twist(a), PosModifier::Twist(b)) => *b == a.resolved(snapshot),
            (PosModifier::Bend(a), PosModifier::Bend(b)) => *b == a.resolved(snapshot),
            (PosModifier::Repetition(a), PosModifier::Repetition(b)) => *b == a.resolved(snapshot),
            (PosModifier::RepetitionLimited(a), PosModifier::RepetitionLimited(b)) => a.resolves_to(
                b,
                snapshot,
            ),
            _ => false,
        }
    }

    /// The warped point.
    pub fn modify(&self, pos: [Fixed; 3]) -> (r: [Fixed; 3])
        ensures
            point_of(r) == self.spec_modify(point_of(pos)),
    {
        match self {
            PosModifier::Distort(m) => m.modify(pos),
            PosModifier::Twist(m) => m.modify(pos),
            PosModifier::Bend(m) => m.modify(pos),
            PosModifier::Repetition(m) => m.modify(pos),
            PosModifier::RepetitionLimited(m) => m.modify(pos),
        }
    }

    /// Refreshes the attributes of the warp from `snapshot`.
    pub fn evaluate(&mut self, snapshot: &Snapshot)
        ensures
            old(self).resolves_to(final(self), snapshot),
    {
        match self {
            PosModifier::Distort(m) => m.evaluate(snapshot),
            PosModifier::Twist(m) => m.evaluate(snapshot),
            PosModifier::Bend(m) => m.evaluate(snapshot),
            PosModifier::Repetition(m) => m.evaluate(snapshot),
            PosModifier::RepetitionLimited(m) => m.evaluate(snapshot),
        }
    }
}

/// The point after the first `k` warps of a chain, applied in order.
pub open spec fn spec_modify_chain(chain: Seq<PosModifier>, p: Point, k: int) -> Point
    decreases k,
{
    if k <= 0 {
        p
    } else {
        chain[k - 1].spec_modify(spec_modify_chain(chain, p, k - 1))
    }
}

/// Whether `new` is the chain `old` with every warp refreshed from `snapshot`.
pub open spec fn chain_resolves_to(
    old: Seq<PosModifier>,
    new: Seq<PosModifier>,
    snapshot: &Snapshot,
) -> bool {
    &&& new.len() == old.len()
    &&& forall|i: int| 0 <= i < old.len() ==> (#[trigger] old[i]).resolves_to(&new[i], snapshot)
}

/// Applies every warp of the chain, in order.
pub fn modify_chain(chain: &Vec<PosModifier>, pos: [Fixed; 3]) -> (r: [Fixed; 3])
    ensures
        point_of(r) == spec_modify_chain(chain@, point_of(pos), chain@.len() as int),
{
    let mut cur: [Fixed; 3] = pos;
    let mut i: usize = 0;
    while i < chain.len()
        invariant
            i <= chain.len(),
            point_of(cur) == spec_modify_chain(chain@, point_of(pos), i as int),
        decreases chain.len() - i,
    {
        cur = chain[i].modify(cur);
        i = i + 1;
    }
    cur
}

/// Refreshes every warp of the chain from `snapshot`.
pub fn evaluate_chain(chain: &mut Vec<PosModifier>, snapshot: &Snapshot)
    ensures
        chain_resolves_to(old(chain)@, final(chain)@, snapshot),
{
    let ghost before = chain@;
    let mut i: usize = 0;
    while i < chain.len()
        invariant
            i <= chain.len(),
            chain@.len() == before.len(),
            forall|j: int| i <= j < before.len() ==> chain@[j] == before[j],
            forall|j: int| 0 <= j < i ==> (#[trigger] before[j]).resolves_to(&chain@[j], snapshot),
        decreases chain.len() - i,
    {
        chain[i].evaluate(snapshot);
        i = i + 1;
    }
}

/// A warp refreshed twice from one snapshot warps as the warp refreshed once.
pub proof fn lemma_modifier_refresh_idempotent(
    a: PosModifier,
    b: PosModifier,
    c: PosModifier,
    snapshot: &Snapshot,
    p: Point,
)
    requires
        a.resolves_to(&b, snapshot),
        b.resolves_to(&c, snapshot),
    ensures
        c.spec_modify(p) == b.spec_modify(p),
{
}

/// A chain refreshed twice from one snapshot warps as the chain refreshed once.
pub proof fn lemma_chain_refresh_idempotent(
    a: Seq<PosModifier>,
    b: Seq<PosModifier>,
    c: Seq<PosModifier>,
    snapshot: &Snapshot,
    p: Point,
    k: int,
)
    requires
        chain_resolves_to(a, b, snapshot),
        chain_resolves_to(b, c, snapshot),
        0 <= k <= a.len(),
    ensures
        spec_modify_chain(c, p, k) == spec_modify_chain(b, p, k),
    decreases k,
{
    if k > 0 {
        lemma_chain_refresh_idempotent(a, b, c, snapshot, p, k - 1);
        assert(a[k - 1].resolves_to(&b[k - 1], snapshot));
        assert(b[k - 1].resolves_to(&c[k - 1], snapshot));
        lemma_modifier_refresh_idempotent(
            a[k - 1],
            b[k - 1],
            c[k - 1],
            snapshot,
            spec_modify_chain(b, p, k - 1),
        );
    }
}

} // verus!
