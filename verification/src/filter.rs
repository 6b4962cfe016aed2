//! Filters that a colour passes on its way onto the film.

use crate::fixed::{saturate, spec_div, spec_mul, Fixed, SCALE};
use crate::helpers::{point_of, Point};
use crate::light::{resolve_triple, triple_resolves_to, values_of};
use crate::parameter::{Param, Snapshot};
use vstd::prelude::*;

verus! {

/// How a colour shift combines its colour with the one that comes in.
#[derive(Clone, Copy, Debug, PartialEq, Eq, Structural)]
pub enum ColorShiftMode {
    Mul,
    Div,
    Add,
    Sub,
}

/// One raw channel shifted by the raw value `c`.
pub open spec fn spec_shift(mode: ColorShiftMode, v: int, c: int) -> int {
    match mode {
        ColorShiftMode::Add => saturate(v + c),
        ColorShiftMode::Sub => saturate(v - c),
        ColorShiftMode::Mul => spec_mul(v, c),
        ColorShiftMode::Div => spec_div(v, c),
    }
}

/// One third, as the filter takes it: 0.33333.
pub const THIRD: i64 = 333_330_000;

/// One raw channel drawn towards the raw sum `total` of the three
/// channels: `v * (1 - strength) + total * 0.33333 * strength`.
pub open spec fn spec_gray(v: int, total: int, strength: int) -> int {
    let brightness = spec_mul(spec_mul(total, THIRD as int), strength);
    saturate(spec_mul(v, saturate(SCALE - strength)) + brightness)
}

/// Shifts every channel by the matching channel of a colour.
#[derive(Clone, Copy, Debug)]
pub struct ColorShift {
    pub color: [Param; 3],
    pub mode: ColorShiftMode,
}

impl ColorShift {
    pub fn new(color: [Param; 3], mode: ColorShiftMode) -> (r: ColorShift)
        ensures
            r.color == color,
            r.mode == mode,
    {
        ColorShift { color, mode }
    }

    fn shift(&self, v: Fixed, c: Fixed) -> (r: Fixed)
        ensures
            r@ == spec_shift(self.mode, v@, c@),
    {
        match self.mode {
            ColorShiftMode::Add => v.add(c),
            ColorShiftMode::Sub => v.sub(c),
            ColorShiftMode::Mul => v.mul(c),
            ColorShiftMode::Div => v.div(c),
        }
    }

    /// The colour `col` after the shift, in raw values.
    pub open spec fn spec_filter(&self, col: Point) -> Point {
        let c = values_of(self.color);
        Point {
            x: spec_shift(self.mode, col.x, c.x),
            y: spec_shift(self.mode, col.y, c.y),
            z: spec_shift(self.mode, col.z, c.z),
        }
    }

    /// The colour `col` of the pixel `(x, y)` after the shift.
    pub fn filter_color(&self, x: u32, y: u32, col: [Fixed; 3]) -> (r: [Fixed; 3])
        ensures
            point_of(r) == self.spec_filter(point_of(col)),
    {
        [
            self.shift(col[0], self.color[0].get()),
            self.shift(col[1], self.color[1].get()),
            self.shift(col[2], self.color[2].get()),
        ]
    }

    /// Refreshes the colour from `snapshot`.
    pub fn evaluate(&mut self, snapshot: &Snapshot)
        ensures
            final(self).mode == old(self).mode,
            triple_resolves_to(old(self).color, final(self).color, snapshot),
    {
        self.color = resolve_triple(self.color, snapshot);
    }
}

/// Draws a colour towards grey.
#[derive(Clone, Copy, Debug)]
pub struct GrayFilter {
    pub strength: Param,
}

impl GrayFilter {
    pub fn new(strength: Param) -> (r: GrayFilter)
        ensures
            r.strength == strength,
    {
        GrayFilter { strength }
    }

    /// The colour `col` drawn towards grey, in raw values.
    pub open spec fn spec_filter(&self, col: Point) -> Point {
        let total = saturate(saturate(col.x + col.y) + col.z);
        let strength = self.strength.value@;
        Point {
            x: spec_gray(col.x, total, strength),
            y: spec_gray(col.y, total, strength),
            z: spec_gray(col.z, total, strength),
        }
    }

    /// The colour `col` of the pixel `(x, y)`, drawn towards grey.
    pub fn filter_color(&self, x: u32, y: u32, col: [Fixed; 3]) -> (r: [Fixed; 3])
        ensures
            point_of(r) == self.spec_filter(point_of(col)),
    {
        let strength: Fixed = self.strength.get();
        let strength_inv: Fixed = Fixed::one().sub(strength);
        let brightness: Fixed = col[0].add(col[1]).add(col[2]).mul(Fixed::from_raw(THIRD)).mul(
            strength,
        );
        [
            col[0].mul(strength_inv).add(brightness),
            col[1].mul(strength_inv).add(brightness),
            col[2].mul(strength_inv).add(brightness),
        ]
    }

    /// Refreshes the strength from `snapshot`.
    pub fn evaluate(&mut self, snapshot: &Snapshot)
        ensures
            final(self).strength == old(self).strength.resolved(snapshot),
    {
        self.strength = self.strength.resolve(snapshot);
    }
}

/// A filter of the film.
#[derive(Clone, Copy, Debug)]
pub enum Filter {
    ColorShift(ColorShift),
    Gray(GrayFilter),
}

impl Filter {
    /// The colour `col` after the filter, in raw values.
    pub open spec fn spec_filter(&self, col: Point) -> Point {
        match self {
            Filter::ColorShift(f) => f.spec_filter(col),
            Filter::Gray(f) => f.spec_filter(col),
        }
    }

    /// Whether `new` is `self` refreshed from `snapshot`.
    pub open spec fn resolves_to(&self, new: &Filter, snapshot: &Snapshot) -> bool {
        match (self, new) {
            (Filter::ColorShift(a), Filter::ColorShift(b)) => {
                &&& b.mode == a.mode
                &&& triple_resolves_to(a.color, b.color, snapshot)
            },
            (Filter::Gray(a), Filter::Gray(b)) => b.strength == a.strength.resolved(snapshot),
            _ => false,
        }
    }

    /// The colour `col` of the pixel `(x, y)` after the filter.
    pub fn filter_color(&self, x: u32, y: u32, col: [Fixed; 3]) -> (r: [Fixed; 3])
        ensures
            point_of(r) == self.spec_filter(point_of(col)),
    {
        match self {
            Filter::ColorShift(f) => f.filter_color(x, y, col),
            Filter::Gray(f) => f.filter_color(x, y, col),
        }
    }

    /// Refreshes the attributes of the filter from `snapshot`.
    pub fn evaluate(&mut self, snapshot: &Snapshot)
        ensures
            old(self).resolves_to(final(self), snapshot),
    {
        match self {
            Filter::ColorShift(f) => f.evaluate(snapshot),
            Filter::Gray(f) => f.evaluate(snapshot),
        }
    }
}

/// The colour `col` after the first `k` filters of a chain, in order.
pub open spec fn spec_filter_chain(filters: Seq<Filter>, col: Point, k: int) -> Point
    decreases k,
{
    if k <= 0 {
        col
    } else {
        filters[k - 1].spec_filter(spec_filter_chain(filters, col, k - 1))
    }
}

/// Whether `new` is the chain `old` with every filter refreshed from `snapshot`.
pub open spec fn filters_resolve_to(old: Seq<Filter>, new: Seq<Filter>, snapshot: &Snapshot) -> bool {
    &&& new.len() == old.len()
    &&& forall|i: int| 0 <= i < old.len() ==> (#[trigger] old[i]).resolves_to(&new[i], snapshot)
}

} // verus!
