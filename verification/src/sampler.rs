//! Samples of a pixel: where on the film and where on the lens a ray goes.
//!
//! The samples lie on a grid and are moved a little at random, by four
//! random numbers for every sample, each at least zero and below one.

use crate::cameras::CameraSample;
use crate::configuration;
use crate::evaluator::raw_values;
use crate::fixed::{saturate, spec_div, spec_mul, Fixed, SCALE};
use vstd::prelude::*;

verus! {

/// One over the number of samples along a side of a pixel.
pub open spec fn spec_sample_inv() -> int {
    spec_div(SCALE as int, saturate(configuration::samples * SCALE))
}

/// One coordinate of a sample: the place `s` on the grid, moved by the
/// random number `r`, which is first centred around zero, times `jitter`.
pub open spec fn spec_jittered(s: int, r: int, jitter: int) -> int {
    saturate(
        spec_mul(saturate(s * SCALE), spec_sample_inv()) + spec_mul(
            saturate(r - SCALE / 2),
            jitter,
        ),
    )
}

/// Draws the samples of a pixel on a jittered grid.
#[derive(Clone, Copy, Debug)]
pub struct JitterSampler {
    pub jitter: Fixed,
    pub total_jitter: Fixed,
}

impl JitterSampler {
    /// A sampler that moves every sample by up to `jitter` cells of the grid.
    pub fn new(jitter: Fixed) -> (r: JitterSampler)
        ensures
            r.jitter == jitter,
            r.total_jitter@ == spec_mul(jitter@, spec_sample_inv()),
    {
        JitterSampler { jitter, total_jitter: jitter.mul(sample_inv()) }
    }

    /// The number of random numbers that the samples of one pixel take.
    pub fn randoms_needed() -> (r: usize)
        ensures
            r == 4 * (configuration::samples * configuration::samples),
    {
        let n: usize = configuration::samples as usize;
        assert(n * n == 1) by (nonlinear_arith)
            requires
                n == 1,
        ;
        4 * (n * n)
    }

    /// The samples of a pixel, drawn with the given random numbers.
    pub fn jittered_samples(&self, random: &Vec<Fixed>) -> (r: Vec<CameraSample>)
        requires
            random@.len() == 4 * (configuration::samples * configuration::samples),
        ensures
            spec_drawn(self.total_jitter@, raw_values(random@), r@),
    {
        let inv: Fixed = sample_inv();
        let half: Fixed = Fixed::from_raw(SCALE / 2);
        let n: usize = configuration::samples as usize;
        let total: usize = random.len() / 4;
        let mut elements: Vec<CameraSample> = Vec::new();
        let mut k: usize = 0;
        while k < total
            invariant
                k <= total,
                n == configuration::samples,
                n >= 1,
                total == configuration::samples * configuration::samples,
                random@.len() == 4 * total,
                inv@ == spec_sample_inv(),
                half@ == SCALE / 2,
                elements@.len() == k,
                forall|j: int|
                    0 <= j < k ==> spec_drawn_at(
                        self.total_jitter@,
                        raw_values(random@),
                        j,
                        #[trigger] elements@[j],
                    ),
            decreases total - k,
        {
            let sx: usize = k / n;
            let sy: usize = k % n;
            let gx: Fixed = Fixed::from_int(sx as i64).mul(inv);
            let gy: Fixed = Fixed::from_int(sy as i64).mul(inv);
            let film_sample: (Fixed, Fixed) = (
                gx.add(random[4 * k].sub(half).mul(self.total_jitter)),
                gy.add(random[4 * k + 1].sub(half).mul(self.total_jitter)),
            );
            let lens_sample: (Fixed, Fixed) = (
                gx.add(random[4 * k + 2].sub(half).mul(self.total_jitter)),
                gy.add(random[4 * k + 3].sub(half).mul(self.total_jitter)),
            );
            elements.push((film_sample, lens_sample));
            k = k + 1;
        }
        elements
    }

    /// The samples of the pixel `(x, y)`: one for every cell of the grid,
    /// each moved by random numbers that are drawn as they are needed.
    pub fn generate_samples(&self, x: u32, y: u32) -> (r: Vec<CameraSample>)
        ensures
            r@.len() == configuration::samples * configuration::samples,
            spec_pixel_drawn(self.total_jitter@, r@),
    {
        let needed: usize = Self::randoms_needed();
        let mut random: Vec<Fixed> = Vec::new();
        let mut i: usize = 0;
        while i < needed
            invariant
                i <= needed,
                random@.len() == i,
                forall|j: int| 0 <= j < i ==> 0 <= (#[trigger] random@[j])@ < SCALE,
            decreases needed - i,
        {
            random.push(Fixed::from_raw(draw_unit()));
            i = i + 1;
        }
        let r: Vec<CameraSample> = self.jittered_samples(&random);
        proof {
            let drawn = raw_values(random@);
            assert forall|j: int| 0 <= j < drawn.len() implies 0 <= #[trigger] drawn[j] < SCALE by {
                assert(drawn[j] == random@[j]@);
            }
            assert(drawn.len() == 4 * (configuration::samples * configuration::samples));
            assert(spec_drawn(self.total_jitter@, drawn, r@));
        }
        r
    }
}

/// `fastrand::i64` on the billionths of a unit: a random number that is
/// at least zero and below `SCALE`. Nothing else is known of it, and two
/// calls need not agree.
#[verifier::external_body]
fn draw_unit() -> (r: i64)
    ensures
        0 <= r < SCALE,
{
    fastrand::i64(0..SCALE)
}

/// Whether `e` is the sample `k` of a pixel as the random numbers `random`
/// give it: it belongs to the grid cell in column `k / samples` and row
/// `k % samples` and takes the four numbers from `4 k` on, two for the point
/// of the film and then two for the point of the lens.
pub open spec fn spec_drawn_at(jitter: int, random: Seq<int>, k: int, e: CameraSample) -> bool {
    let sx = k / (configuration::samples as int);
    let sy = k % (configuration::samples as int);
    &&& e.0.0@ == spec_jittered(sx, random[4 * k], jitter)
    &&& e.0.1@ == spec_jittered(sy, random[4 * k + 1], jitter)
    &&& e.1.0@ == spec_jittered(sx, random[4 * k + 2], jitter)
    &&& e.1.1@ == spec_jittered(sy, random[4 * k + 3], jitter)
}

/// Whether `out` holds the samples of a pixel as the random numbers give them.
pub open spec fn spec_drawn(jitter: int, random: Seq<int>, out: Seq<CameraSample>) -> bool {
    &&& out.len() == configuration::samples * configuration::samples
    &&& forall|k: int| 0 <= k < out.len() ==> spec_drawn_at(jitter, random, k, #[trigger] out[k])
}

/// Whether `out` holds the samples of a pixel as a sampler with the
/// jitter `jitter` may draw them: as some random numbers give them, four for
/// every sample, each at least zero and under one.
pub open spec fn spec_pixel_drawn(jitter: int, out: Seq<CameraSample>) -> bool {
    exists|random: Seq<int>|
        {
            &&& random.len() == 4 * (configuration::samples * configuration::samples)
            &&& forall|i: int| 0 <= i < random.len() ==> 0 <= #[trigger] random[i] < SCALE
            &&& #[trigger] spec_drawn(jitter, random, out)
        }
}

/// One over the number of samples along a side of a pixel.
fn sample_inv() -> (r: Fixed)
    ensures
        r@ == spec_sample_inv(),
{
    Fixed::one().div(Fixed::from_int(configuration::samples as i64))
}

} // verus!
