//! The animated values of a scene: their slots, what writes them, and the
//! transforms that follow them.
//!
//! Every value that may change with time has a slot. Moving on to an instant
//! lets every animated value be written into its slot; a snapshot then hands
//! the values to everything that is refreshed from them. The inverse of a
//! transform cannot be taken here: the transform is handed out as a matrix,
//! and its inverse is handed back for the snapshot.

use crate::evaluator::{raw_values, spec_written, Evaluator, EvaluatorManager, EvaluatorPointer};
use crate::configuration::ups;
use crate::fixed::{saturate, spec_div, Fixed, SCALE};
use crate::helpers::point_of;
use crate::matrix::{
    mat_pos_rot, mat_rotation3, mat_transformation, spec_mat_pos_rot, spec_mat_rotation3,
    spec_mat_transformation, Entries,
};
use crate::parameter::{Param, Snapshot};
use vstd::prelude::*;

verus! {

/// What the transform in a slot is made from.
#[derive(Clone, Copy, Debug)]
pub enum Source {
    /// A position, a rotation in degrees and a scale.
    Transformation([Param; 3], [Param; 3], [Param; 3]),
    /// A position and a rotation in degrees.
    PosRot([Param; 3], [Param; 3]),
    /// A rotation in degrees alone, as a matrix of three rows.
    Rotation([Param; 3]),
}

/// The animated values of a scene.
pub struct Animation {
    pub manager: EvaluatorManager,
    pub scalars: Vec<Fixed>,
    pub sources: Vec<Source>,
}

/// The value of an attribute as the scalars hold it: the scalar in its
/// slot, and its own value where it has no slot among them.
pub open spec fn spec_present(scalars: Seq<Fixed>, p: Param) -> Fixed {
    match p.slot {
        Some(slot) => if slot < scalars.len() {
            scalars[slot as int]
        } else {
            p.value
        },
        None => p.value,
    }
}

/// Three attributes as the scalars hold them, in raw values.
pub open spec fn spec_present3(scalars: Seq<Fixed>, p: [Param; 3]) -> crate::helpers::Point {
    crate::helpers::Point {
        x: spec_present(scalars, p[0])@,
        y: spec_present(scalars, p[1])@,
        z: spec_present(scalars, p[2])@,
    }
}

/// A matrix of three rows as the upper left block of the identity of four.
pub open spec fn spec_embedded(m: Entries) -> Entries {
    |i: int, j: int|
        if i < 3 && j < 3 {
            m(i, j)
        } else if i == j {
            SCALE as int
        } else {
            0
        }
}

/// The transform that a source stands for, with its attributes as the
/// scalars hold them.
pub open spec fn spec_forward(scalars: Seq<Fixed>, source: Source) -> Entries {
    match source {
        Source::Transformation(pos, rot, scale) => spec_mat_transformation(
            spec_present3(scalars, pos),
            spec_present3(scalars, rot),
            spec_present3(scalars, scale),
        ),
        Source::PosRot(pos, rot) => spec_mat_pos_rot(
            spec_present3(scalars, pos),
            spec_present3(scalars, rot),
        ),
        Source::Rotation(rot) => spec_embedded(spec_mat_rotation3(spec_present3(scalars, rot))),
    }
}

impl Animation {
    /// An animation without any value.
    pub fn new() -> (r: Animation)
        ensures
            r.manager.evaluators@.len() == 0,
            r.scalars@.len() == 0,
            r.sources@.len() == 0,
    {
        Animation { manager: EvaluatorManager::new(), scalars: Vec::new(), sources: Vec::new() }
    }

    /// A new value that may be animated, starting at `v`: it takes the next slot.
    pub fn value(&mut self, v: Fixed) -> (r: Param)
        ensures
            r.value == v,
            r.slot == Some(old(self).scalars@.len() as usize),
            final(self).scalars@ == old(self).scalars@.push(v),
            final(self).manager == old(self).manager,
            final(self).sources == old(self).sources,
    {
        let slot: usize = self.scalars.len();
        self.scalars.push(v);
        Param::animated(slot, v)
    }

    /// Three new values that may be animated.
    pub fn values(&mut self, v: [Fixed; 3]) -> (r: [Param; 3])
        ensures
            r[0].value == v[0],
            r[1].value == v[1],
            r[2].value == v[2],
            r[0].slot == Some(old(self).scalars@.len() as usize),
            r[1].slot == Some((old(self).scalars@.len() + 1) as usize),
            r[2].slot == Some((old(self).scalars@.len() + 2) as usize),
            final(self).scalars@ == old(self).scalars@.push(v[0]).push(v[1]).push(v[2]),
            final(self).manager == old(self).manager,
            final(self).sources == old(self).sources,
    {
        let a: Param = self.value(v[0]);
        let b: Param = self.value(v[1]);
        let c: Param = self.value(v[2]);
        [a, b, c]
    }

    /// Lets `evaluator` write the value `p` from now on. An attribute
    /// without a slot cannot be animated: nothing changes.
    pub fn animate(&mut self, p: Param, evaluator: Evaluator)
        ensures
            final(self).scalars == old(self).scalars,
            final(self).sources == old(self).sources,
            match p.slot {
                Some(slot) => final(self).manager.evaluators@ == old(self).manager.evaluators@.push(
                    EvaluatorPointer { pointer: slot, evaluator },
                ),
                None => final(self).manager == old(self).manager,
            },
    {
        match p.slot {
            Some(slot) => {
                self.manager.insert_evaluator(slot, evaluator);
            },
            None => {},
        }
    }

    /// The value of `p` as the scalars hold it.
    pub fn present(&self, p: Param) -> (r: Fixed)
        ensures
            r == spec_present(self.scalars@, p),
    {
        match p.slot {
            Some(slot) => if slot < self.scalars.len() {
                self.scalars[slot]
            } else {
                p.value
            },
            None => p.value,
        }
    }

    /// Three values as the scalars hold them.
    pub fn present3(&self, p: [Param; 3]) -> (r: [Fixed; 3])
        ensures
            point_of(r) == spec_present3(self.scalars@, p),
    {
        [self.present(p[0]), self.present(p[1]), self.present(p[2])]
    }

    /// Gives a transform the next slot of the transforms.
    pub fn bind(&mut self, source: Source) -> (r: usize)
        ensures
            r == old(self).sources@.len(),
            final(self).sources@ == old(self).sources@.push(source),
            final(self).scalars == old(self).scalars,
            final(self).manager == old(self).manager,
    {
        let slot: usize = self.sources.len();
        self.sources.push(source);
        slot
    }

    /// The transform in the slot `k`, as the scalars make it.
    pub fn forward(&self, k: usize) -> (r: [[Fixed; 4]; 4])
        requires
            k < self.sources@.len(),
        ensures
            forall|i: int, j: int|
                0 <= i < 4 && 0 <= j < 4 ==> (#[trigger] r[i][j])@ == spec_forward(
                    self.scalars@,
                    self.sources@[k as int],
                )(i, j),
    {
        match self.sources[k] {
            Source::Transformation(pos, rot, scale) => mat_transformation(
                self.present3(pos),
                self.present3(rot),
                self.present3(scale),
            ),
            Source::PosRot(pos, rot) => mat_pos_rot(self.present3(pos), self.present3(rot)),
            Source::Rotation(rot) => {
                let m: [[Fixed; 3]; 3] = mat_rotation3(self.present3(rot));
                let o: Fixed = Fixed::one();
                let z: Fixed = Fixed::zero();
                [
                    [m[0][0], m[0][1], m[0][2], z],
                    [m[1][0], m[1][1], m[1][2], z],
                    [m[2][0], m[2][1], m[2][2], z],
                    [z, z, z, o],
                ]
            },
        }
    }

    /// The number of transforms.
    pub fn transforms(&self) -> (r: usize)
        ensures
            r == self.sources@.len(),
    {
        self.sources.len()
    }

    /// Moves on to the time `t`: every animated value is written into its slot.
    pub fn advance(&mut self, t: Fixed)
        ensures
            final(self).manager == old(self).manager,
            final(self).sources == old(self).sources,
            raw_values(final(self).scalars@) == spec_written(
                old(self).manager.evaluators@,
                t@,
                raw_values(old(self).scalars@),
                old(self).manager.evaluators@.len() as int,
            ),
    {
        self.manager.evaluate(t, &mut self.scalars);
    }

    /// The values as they are, with the given inverse transforms.
    pub fn snapshot(&self, transforms: Vec<[[Fixed; 4]; 4]>) -> (r: Snapshot)
        ensures
            r.scalars@ == self.scalars@,
            r.transforms == transforms,
    {
        let mut scalars: Vec<Fixed> = Vec::new();
        let mut i: usize = 0;
        while i < self.scalars.len()
            invariant
                i <= self.scalars.len(),
                scalars@.len() == i,
                forall|j: int| 0 <= j < i ==> #[trigger] scalars@[j] == self.scalars@[j],
            decreases self.scalars.len() - i,
        {
            scalars.push(self.scalars[i]);
            i = i + 1;
        }
        assert(scalars@ =~= self.scalars@);
        Snapshot::new(scalars, transforms)
    }
}

/// The time of a frame in seconds: the frame over the updates in a second.
pub open spec fn spec_frame_time(frame: u32) -> int {
    spec_div(saturate(frame as int * SCALE), saturate(ups * SCALE))
}

/// The time of a frame in seconds.
pub fn frame_time(frame: u32) -> (r: Fixed)
    ensures
        r@ == spec_frame_time(frame),
{
    Fixed::from_int(frame as i64).div(Fixed::from_int(ups))
}

/// The frames from `start` up to `end`, without `end`, that the worker
/// `worker` of `workers` renders: those that leave `worker` when divided
/// by `workers`, in rising order.
pub open spec fn spec_frames_of(start: int, end: int, workers: int, worker: int) -> Seq<u32>
    recommends
        workers > 0,
    decreases end - start,
{
    if end <= start {
        Seq::empty()
    } else {
        let rest = spec_frames_of(start, end - 1, workers, worker);
        if (end - 1) % workers == worker {
            rest.push((end - 1) as u32)
        } else {
            rest
        }
    }
}

/// Deals the frames from `start` up to `end`, without `end`, out to
/// `workers` workers, frame by frame in turn.
pub fn frames_per_thread(start: u32, end: u32, workers: u32) -> (r: Vec<Vec<u32>>)
    requires
        workers > 0,
    ensures
        r@.len() == workers,
        forall|w: int|
            0 <= w < workers ==> (#[trigger] r@[w])@ == spec_frames_of(
                start as int,
                end as int,
                workers as int,
                w,
            ),
{
    let mut frames: Vec<Vec<u32>> = Vec::new();
    let mut w: u32 = 0;
    while w < workers
        invariant
            w <= workers,
            frames@.len() == w,
            forall|v: int|
                0 <= v < w ==> (#[trigger] frames@[v])@ == spec_frames_of(
                    start as int,
                    end as int,
                    workers as int,
                    v,
                ),
        decreases workers - w,
    {
        let mut own: Vec<u32> = Vec::new();
        let mut i: u32 = start;
        while i < end
            invariant
                w < workers,
                start <= i <= end || (end < start && i == start),
                own@ == spec_frames_of(start as int, i as int, workers as int, w as int),
            decreases end - i,
        {
            if i % workers == w {
                own.push(i);
            }
            i = i + 1;
        }
        assert(own@ == spec_frames_of(start as int, end as int, workers as int, w as int)) by {
            if end < start {
                assert(spec_frames_of(start as int, end as int, workers as int, w as int)
                    =~= Seq::<u32>::empty());
            }
        }
        frames.push(own);
        w = w + 1;
    }
    frames
}

} // verus!
