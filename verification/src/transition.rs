//! Easing curves: maps of the unit interval that shape how an animated
//! value travels from its start to its end.

use crate::fixed::{saturate, spec_mul, Fixed, SCALE};
use vstd::prelude::*;

verus! {

/// `t * t * (3 - 2 t)`, on raw values.
pub open spec fn spec_smoothstep_cubic(t: int) -> int {
    spec_mul(spec_mul(t, t), saturate(3 * SCALE - spec_mul(2 * SCALE, t)))
}

/// `t * t * t * (t * (t * 6 - 15) + 10)`, on raw values.
pub open spec fn spec_smoothstep_quintic(t: int) -> int {
    let inner = saturate(spec_mul(t, saturate(spec_mul(t, 6 * SCALE) - 15 * SCALE)) + 10 * SCALE);
    spec_mul(spec_mul(spec_mul(t, t), t), inner)
}

/// `t^4 * (25 - 48 t + t^2 * (25 - t^4))`, on raw values.
pub open spec fn spec_smoothstep_septic(t: int) -> int {
    let xsq = spec_mul(t, t);
    let xsqsq = spec_mul(xsq, xsq);
    let inner = saturate(
        saturate(25 * SCALE - spec_mul(48 * SCALE, t)) + spec_mul(xsq, saturate(25 * SCALE - xsqsq)),
    );
    spec_mul(xsqsq, inner)
}

/// The Catmull-Rom spline through `p1` at `t = 0` and `p2` at `t = 1`, with
/// the outer control values `p0` and `p3`, on raw values:
/// `(2 p1 + (p2 - p0) t + (2 p0 - 5 p1 + 4 p2 - p3) t^2 + (3 p1 - p0 - 3 p2 + p3) t^3) / 2`.
pub open spec fn spec_catmull_rom(t: int, p0: int, p1: int, p2: int, p3: int) -> int {
    let c0 = spec_mul(2 * SCALE, p1);
    let c1 = saturate(-p0 + p2);
    let c2 = saturate(
        saturate(saturate(spec_mul(2 * SCALE, p0) - spec_mul(5 * SCALE, p1)) + spec_mul(4 * SCALE, p2))
            - p3,
    );
    let c3 = saturate(
        saturate(saturate(-p0 + spec_mul(3 * SCALE, p1)) - spec_mul(3 * SCALE, p2)) + p3,
    );
    let sum = saturate(
        saturate(saturate(c0 + spec_mul(c1, t)) + spec_mul(spec_mul(c2, t), t)) + spec_mul(
            spec_mul(spec_mul(c3, t), t),
            t,
        ),
    );
    spec_mul(SCALE / 2, sum)
}

/// The curve that leaves a value as it is.
#[derive(Clone, Copy, Debug)]
pub struct Linear {}

impl Linear {
    pub fn new() -> (r: Linear)
        ensures
            r == (Linear {  }),
    {
        Linear {  }
    }

    pub fn transition(&self, t: Fixed) -> (r: Fixed)
        ensures
            r == t,
    {
        t
    }
}

/// A curve that starts and ends flat. The factor chooses its order: 1
/// for the cubic, 2 for the quintic, anything else for the septic.
#[derive(Clone, Copy, Debug)]
pub struct Smoothstep {
    pub factor: Fixed,
}

impl Smoothstep {
    pub fn new(factor: Fixed) -> (r: Smoothstep)
        ensures
            r.factor == factor,
    {
        Smoothstep { factor }
    }

    pub open spec fn spec_transition(&self, t: int) -> int {
        if self.factor@ == SCALE {
            spec_smoothstep_cubic(t)
        } else if self.factor@ == 2 * SCALE {
            spec_smoothstep_quintic(t)
        } else {
            spec_smoothstep_septic(t)
        }
    }

    pub fn transition(&self, t: Fixed) -> (r: Fixed)
        ensures
            r@ == self.spec_transition(t@),
    {
        if self.factor.same(Fixed::from_int(1)) {
            return t.mul(t).mul(Fixed::from_int(3).sub(Fixed::from_int(2).mul(t)));
        }
        if self.factor.same(Fixed::from_int(2)) {
            return t.mul(t).mul(t).mul(
                t.mul(t.mul(Fixed::from_int(6)).sub(Fixed::from_int(15))).add(Fixed::from_int(10)),
            );
        } else {
            let xsq: Fixed = t.mul(t);
            let xsqsq: Fixed = xsq.mul(xsq);
            return xsqsq.mul(
                Fixed::from_int(25).sub(Fixed::from_int(48).mul(t)).add(
                    xsq.mul(Fixed::from_int(25).sub(xsqsq)),
                ),
            );
        }
    }
}

/// A Catmull-Rom spline from 0 to 1, shaped by the control values before
/// the start and after the end.
#[derive(Clone, Copy, Debug)]
pub struct CatmullRomSpline {
    pub p0: Fixed,
    pub p3: Fixed,
}

impl CatmullRomSpline {
    pub fn new(p0: Fixed, p3: Fixed) -> (r: CatmullRomSpline)
        ensures
            r.p0 == p0,
            r.p3 == p3,
    {
        CatmullRomSpline { p0, p3 }
    }

    pub fn transition(&self, t: Fixed) -> (r: Fixed)
        ensures
            r@ == spec_catmull_rom(t@, self.p0@, 0, SCALE as int, self.p3@),
    {
        self.catmull_rom_spline(t, self.p0, Fixed::zero(), Fixed::one(), self.p3)
    }

    pub fn catmull_rom_spline(&self, t: Fixed, p0: Fixed, p1: Fixed, p2: Fixed, p3: Fixed) -> (r:
        Fixed)
        ensures
            r@ == spec_catmull_rom(t@, p0@, p1@, p2@, p3@),
    {
        let two: Fixed = Fixed::from_int(2);
        let three: Fixed = Fixed::from_int(3);
        let c0: Fixed = two.mul(p1);
        let c1: Fixed = p0.neg().add(p2);
        let c2: Fixed = two.mul(p0).sub(Fixed::from_int(5).mul(p1)).add(
            Fixed::from_int(4).mul(p2),
        ).sub(p3);
        let c3: Fixed = p0.neg().add(three.mul(p1)).sub(three.mul(p2)).add(p3);
        let sum: Fixed = c0.add(c1.mul(t)).add(c2.mul(t).mul(t)).add(c3.mul(t).mul(t).mul(t));
        Fixed::from_raw(SCALE / 2).mul(sum)
    }
}

/// An easing curve.
#[derive(Clone, Copy, Debug)]
pub enum Transition {
    Linear(Linear),
    Smoothstep(Smoothstep),
    CatmullRomSpline(CatmullRomSpline),
}

impl Transition {
    /// The curve at `t`, in raw values.
    pub open spec fn spec_transition(&self, t: int) -> int {
        match self {
            Transition::Linear(c) => t,
            Transition::Smoothstep(c) => c.spec_transition(t),
            Transition::CatmullRomSpline(c) => spec_catmull_rom(t, c.p0@, 0, SCALE as int, c.p3@),
        }
    }

    /// The curve at `t`.
    pub fn transition(&self, t: Fixed) -> (r: Fixed)
        ensures
            r@ == self.spec_transition(t@),
    {
        match self {
            Transition::Linear(c) => c.transition(t),
            Transition::Smoothstep(c) => c.transition(t),
            Transition::CatmullRomSpline(c) => c.transition(t),
        }
    }
}

} // verus!
