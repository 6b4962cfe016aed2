//! Resolved values of animated attributes.
//!
//! The library never interpolates an animation itself. Whoever drives it
//! resolves every animated attribute for the instant to be rendered and hands
//! the values over as a [`Snapshot`]; attributes find their value in it by
//! the slot that they were bound to.

use crate::fixed::Fixed;
use vstd::prelude::*;

verus! {

/// What the parameter source resolved for one instant: scalars and inverse
/// transform matrices, each found by its slot.
pub struct Snapshot {
    pub scalars: Vec<Fixed>,
    pub transforms: Vec<[[Fixed; 4]; 4]>,
}

impl Snapshot {
    pub fn new(scalars: Vec<Fixed>, transforms: Vec<[[Fixed; 4]; 4]>) -> (r: Snapshot)
        ensures
            r.scalars == scalars,
            r.transforms == transforms,
    {
        Snapshot { scalars, transforms }
    }

    /// The matrix that an attribute bound to `slot` takes, given the one it holds.
    pub open spec fn spec_transform(&self, slot: Option<usize>, current: [[Fixed; 4]; 4]) -> [[
        Fixed;
        4
    ]; 4] {
        match slot {
            Some(i) => if i < self.transforms@.len() {
                self.transforms@[i as int]
            } else {
                current
            },
            None => current,
        }
    }

    /// The matrix in `slot`, or `current` where the slot is unbound or not in the snapshot.
    pub fn transform(&self, slot: Option<usize>, current: [[Fixed; 4]; 4]) -> (r: [[Fixed; 4]; 4])
        ensures
            r == self.spec_transform(slot, current),
    {
        match slot {
            Some(i) => if i < self.transforms.len() {
                self.transforms[i]
            } else {
                current
            },
            None => current,
        }
    }
}

/// A scalar attribute: its resolved value and, where it is animated, the
/// slot of the snapshot that refreshes it.
#[derive(Clone, Copy, Debug)]
pub struct Param {
    pub value: Fixed,
    pub slot: Option<usize>,
}

impl Param {
    /// The attribute as it is after a refresh from `snapshot`: a bound slot
    /// that the snapshot holds replaces the value, anything else leaves it.
    pub open spec fn resolved(self, snapshot: &Snapshot) -> Param {
        match self.slot {
            Some(i) => if i < snapshot.scalars@.len() {
                Param { value: snapshot.scalars@[i as int], slot: self.slot }
            } else {
                self
            },
            None => self,
        }
    }

    /// An attribute that never changes.
    pub fn constant(value: Fixed) -> (r: Param)
        ensures
            r.value == value,
            r.slot.is_none(),
    {
        Param { value, slot: None }
    }

    /// An attribute refreshed from `slot`, holding `value` until the first refresh.
    pub fn animated(slot: usize, value: Fixed) -> (r: Param)
        ensures
            r.value == value,
            r.slot == Some(slot),
    {
        Param { value, slot: Some(slot) }
    }

    /// The resolved value.
    pub fn get(&self) -> (r: Fixed)
        ensures
            r == self.value,
    {
        self.value
    }

    /// The attribute refreshed from `snapshot`.
    pub fn resolve(self, snapshot: &Snapshot) -> (r: Param)
        ensures
            r == self.resolved(snapshot),
    {
        match self.slot {
            Some(i) => if i < snapshot.scalars.len() {
                Param { value: snapshot.scalars[i], slot: self.slot }
            } else {
                self
            },
            None => self,
        }
    }

    /// Refreshing twice from one snapshot is refreshing once.
    pub proof fn lemma_resolved_idempotent(self, snapshot: &Snapshot)
        ensures
            self.resolved(snapshot).resolved(snapshot) == self.resolved(snapshot),
    {
    }
}

} // verus!
