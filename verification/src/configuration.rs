//! The size of the image, the tunables of the solver, and their defaults.
//!
//! Distances and angles are raw fixed-point values: billionths.

#![allow(non_upper_case_globals)]

use crate::fixed::Fixed;
use vstd::prelude::*;

verus! {

/// Pixels in a row of the image.
pub const width: u32 = 720;

/// Rows of the image.
pub const height: u32 = 480;

/// The angle of view, in degrees: 90.
pub const fov: i64 = 90_000_000_000;

/// Samples along each side of a pixel.
pub const samples: u32 = 1;

/// Times in a second that animated values are written: a keyframe's frame
/// over this is its time in seconds.
pub const ups: i64 = 30;

/// Steps that a primary ray may take.
pub const step_number: u32 = 256;

/// Steps that a shadow ray may take.
pub const light_step_number: u32 = 256;

/// A shadow ray hits where the field is nearer than this: 0.001.
pub const light_min_dist: i64 = 1_000_000;

/// A primary ray hits where the field is nearer than this: 0.001.
pub const min_dist: i64 = 1_000_000;

/// A ray has escaped where the field is farther than this: 300.
pub const max_dist: i64 = 300_000_000_000;

/// Half the width of the differences that the normal is estimated from: 0.001.
pub const small_step: i64 = 1_000_000;

/// What a solver is tuned by. The values are fixed while a ray is solved.
#[derive(Clone, Copy, Debug)]
pub struct Tunables {
    pub min_dist: Fixed,
    pub max_dist: Fixed,
    pub step_number: u32,
    pub light_min_dist: Fixed,
    pub light_step_number: u32,
    pub small_step: Fixed,
}

impl Tunables {
    /// The defaults: the constants of this module.
    pub fn new() -> (r: Tunables)
        ensures
            r.min_dist@ == min_dist,
            r.max_dist@ == max_dist,
            r.step_number == step_number,
            r.light_min_dist@ == light_min_dist,
            r.light_step_number == light_step_number,
            r.small_step@ == small_step,
    {
        Tunables {
            min_dist: Fixed::from_raw(min_dist),
            max_dist: Fixed::from_raw(max_dist),
            step_number,
            light_min_dist: Fixed::from_raw(light_min_dist),
            light_step_number,
            small_step: Fixed::from_raw(small_step),
        }
    }
}

} // verus!
