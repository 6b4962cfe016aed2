//! Animation: values that depend on time, and the manager that writes them
//! into the slots from which everything else is refreshed.

use crate::fixed::{saturate, spec_div, spec_mix, spec_mul, spec_rem, Fixed, SCALE};
use crate::helpers::mix;
use crate::transition::Transition;
use vstd::prelude::*;

verus! {

/// A value that does not depend on time.
#[derive(Clone, Copy, Debug)]
pub struct FloatEvaluator {
    pub value: Fixed,
}

impl FloatEvaluator {
    pub fn new_get(value: Fixed) -> (r: FloatEvaluator)
        ensures
            r.value == value,
    {
        FloatEvaluator { value }
    }

    pub fn evaluate(&self, t: Fixed) -> (r: Fixed)
        ensures
            r == self.value,
    {
        self.value
    }
}

/// A value at a time, with the handles that shape the curve to the
/// keyframes before and after.
#[derive(Clone, Copy, Debug)]
pub struct Keyframe {
    pub frame: Fixed,
    pub value: Fixed,
    pub inter_x_in: Fixed,
    pub inter_x_out: Fixed,
    pub inter_y_in: Fixed,
    pub inter_y_out: Fixed,
}

impl Keyframe {
    pub fn new(
        frame: Fixed,
        value: Fixed,
        inter_x_in: Fixed,
        inter_x_out: Fixed,
        inter_y_in: Fixed,
        inter_y_out: Fixed,
    ) -> (r: Keyframe)
        ensures
            r.frame == frame,
            r.value == value,
            r.inter_x_in == inter_x_in,
            r.inter_x_out == inter_x_out,
            r.inter_y_in == inter_y_in,
            r.inter_y_out == inter_y_out,
    {
        Keyframe { frame, value, inter_x_in, inter_x_out, inter_y_in, inter_y_out }
    }
}

/// One coordinate of the cubic Bezier curve with the control values
/// `p0 ..= p3` at the parameter `f`:
/// `(1-f)^3 p0 + 3 (1-f)^2 f p1 + 3 (1-f) f^2 p2 + f^3 p3`.
pub open spec fn spec_bezier(p0: int, p1: int, p2: int, p3: int, f: int) -> int {
    let u = saturate(SCALE - f);
    let w0 = spec_mul(spec_mul(u, u), u);
    let w1 = spec_mul(spec_mul(spec_mul(3 * SCALE, u), u), f);
    let w2 = spec_mul(spec_mul(spec_mul(3 * SCALE, u), f), f);
    let w3 = spec_mul(spec_mul(f, f), f);
    saturate(
        saturate(saturate(spec_mul(w0, p0) + spec_mul(w1, p1)) + spec_mul(w2, p2)) + spec_mul(
            w3,
            p3,
        ),
    )
}

/// One coordinate of a cubic Bezier curve.
pub fn bezier(p0: Fixed, p1: Fixed, p2: Fixed, p3: Fixed, f: Fixed) -> (r: Fixed)
    ensures
        r@ == spec_bezier(p0@, p1@, p2@, p3@, f@),
{
    let u: Fixed = Fixed::one().sub(f);
    let three: Fixed = Fixed::from_int(3);
    let w0: Fixed = u.mul(u).mul(u);
    let w1: Fixed = three.mul(u).mul(u).mul(f);
    let w2: Fixed = three.mul(u).mul(f).mul(f);
    let w3: Fixed = f.mul(f).mul(f);
    w0.mul(p0).add(w1.mul(p1)).add(w2.mul(p2)).add(w3.mul(p3))
}

/// The value between the keyframes `low` and `k` at the time `t`: the
/// height of the Bezier curve from `low` to `k`, shaped by the handle out of
/// `low` and the handle into `k`, at the share of the way that `t` has gone.
pub open spec fn spec_between(low: Keyframe, k: Keyframe, t: int) -> int {
    let f = spec_div(saturate(t - low.frame@), saturate(k.frame@ - low.frame@));
    spec_bezier(
        low.value@,
        saturate(low.value@ + low.inter_y_out@),
        saturate(k.value@ + k.inter_y_in@),
        k.value@,
        f,
    )
}

/// The value of a track of keyframes at the time `t`, looking from the
/// keyframe `i` on: before the first keyframe its value, between two
/// keyframes the curve between them, after the last keyframe its value, and
/// zero for a track without keyframes.
pub open spec fn spec_keyframes(keys: Seq<Keyframe>, t: int, i: int) -> int
    decreases keys.len() - i,
{
    if i < 0 || i >= keys.len() {
        if keys.len() == 0 {
            0
        } else {
            keys[keys.len() - 1].value@
        }
    } else if t < keys[i].frame@ {
        if i == 0 {
            keys[0].value@
        } else {
            spec_between(keys[i - 1], keys[i], t)
        }
    } else {
        spec_keyframes(keys, t, i + 1)
    }
}

/// A value that follows a track of keyframes.
pub struct KeyframeEvaluator {
    pub keyframes: Vec<Keyframe>,
}

impl KeyframeEvaluator {
    pub fn new_get(value: Fixed, keyframes: Vec<Keyframe>) -> (r: KeyframeEvaluator)
        ensures
            r.keyframes == keyframes,
    {
        KeyframeEvaluator { keyframes }
    }

    pub fn evaluate(&self, t: Fixed) -> (r: Fixed)
        ensures
            r@ == spec_keyframes(self.keyframes@, t@, 0),
    {
        let mut i: usize = 0;
        while i < self.keyframes.len()
            invariant
                i <= self.keyframes.len(),
                spec_keyframes(self.keyframes@, t@, 0) == spec_keyframes(
                    self.keyframes@,
                    t@,
                    i as int,
                ),
            decreases self.keyframes.len() - i,
        {
            let k: Keyframe = self.keyframes[i];
            if t.lt(k.frame) {
                if i == 0 {
                    return k.value;
                } else {
                    let low: Keyframe = self.keyframes[i - 1];
                    let f_diff: Fixed = k.frame.sub(low.frame);
                    let f: Fixed = t.sub(low.frame).div(f_diff);
                    return bezier(
                        low.value,
                        low.value.add(low.inter_y_out),
                        k.value.add(k.inter_y_in),
                        k.value,
                        f,
                    );
                }
            }
            i = i + 1;
        }
        if self.keyframes.len() == 0 {
            Fixed::zero()
        } else {
            self.keyframes[self.keyframes.len() - 1].value
        }
    }
}

/// The share of an interval that the time `t` has gone: the remainder of
/// `t` by the interval, over the interval.
pub open spec fn spec_phase(t: int, interval: int) -> int {
    if spec_rem(t, interval) != 0 {
        spec_div(spec_rem(t, interval), interval)
    } else {
        0
    }
}

/// A value that swings between two bounds: within each interval it goes
/// from `min` to `max` along an easing curve, and back in every other
/// interval where it oscillates.
#[derive(Clone, Copy, Debug)]
pub struct InterpolatorEvaluator {
    pub min: Fixed,
    pub max: Fixed,
    pub interval: Fixed,
    pub oscilate: bool,
    pub transition_function: Transition,
}

impl InterpolatorEvaluator {
    pub fn new_get(
        min: Fixed,
        max: Fixed,
        interval: Fixed,
        oscilate: bool,
        transition_function: Transition,
    ) -> (r: InterpolatorEvaluator)
        ensures
            r.min == min,
            r.max == max,
            r.interval == interval,
            r.oscilate == oscilate,
            r.transition_function == transition_function,
    {
        InterpolatorEvaluator { min, max, interval, oscilate, transition_function }
    }

    /// The value at the time `t`, in raw values.
    pub open spec fn spec_evaluate(&self, t: int) -> int {
        let eased = self.transition_function.spec_transition(spec_phase(t, self.interval@));
        let f = if self.oscilate && spec_rem(t, spec_mul(self.interval@, 2 * SCALE))
            >= self.interval@ {
            saturate(SCALE - eased)
        } else {
            eased
        };
        spec_mix(self.min@, self.max@, f)
    }

    pub fn evaluate(&self, t: Fixed) -> (r: Fixed)
        ensures
            r@ == self.spec_evaluate(t@),
    {
        let mut f: Fixed = Fixed::zero();
        if t.rem(self.interval).raw() != 0 {
            f = t.rem(self.interval).div(self.interval);
        }
        f = self.transition_function.transition(f);
        if self.oscilate && t.rem(self.interval.mul(Fixed::from_int(2))).ge(self.interval) {
            f = Fixed::one().sub(f);
        }
        mix(self.min, self.max, f)
    }
}

/// A span of time and the value that holds within it.
pub struct CombineEvaluatorInfo {
    pub evaluator: Evaluator,
    pub start: Fixed,
    pub stop: Fixed,
}

impl CombineEvaluatorInfo {
    pub fn new(start: Fixed, stop: Fixed, evaluator: Evaluator) -> (r: CombineEvaluatorInfo)
        ensures
            r.start == start,
            r.stop == stop,
            r.evaluator == evaluator,
    {
        CombineEvaluatorInfo { start, stop, evaluator }
    }
}

/// A value put together from spans: at every time the first span that
/// holds the time decides, with the time counted from the start of the span.
pub struct CombineEvaluator {
    pub evaluators: Vec<CombineEvaluatorInfo>,
}

/// A value that depends on time.
pub enum Evaluator {
    Float(FloatEvaluator),
    Keyframe(KeyframeEvaluator),
    Interpolator(InterpolatorEvaluator),
    Combine(CombineEvaluator),
}

/// The value of `e` at the time `t`, in raw values.
pub open spec fn spec_evaluate(e: Evaluator, t: int) -> int
    decreases e, 0int,
{
    match e {
        Evaluator::Float(v) => v.value@,
        Evaluator::Keyframe(v) => spec_keyframes(v.keyframes@, t, 0),
        Evaluator::Interpolator(v) => v.spec_evaluate(t),
        Evaluator::Combine(v) => spec_spans(v.evaluators@, t, 0),
    }
}

/// The value that the spans from the span `k` on give at the time `t`:
/// that of the first span that holds `t`, and `t` itself where none does.
pub open spec fn spec_spans(spans: Seq<CombineEvaluatorInfo>, t: int, k: int) -> int
    decreases spans, spans.len() - k,
{
    if k < 0 || k >= spans.len() {
        t
    } else if spans[k].start@ <= t && spans[k].stop@ >= t {
        spec_evaluate(spans[k].evaluator, saturate(t - spans[k].start@))
    } else {
        spec_spans(spans, t, k + 1)
    }
}

impl CombineEvaluator {
    pub fn new_get(evaluators: Vec<CombineEvaluatorInfo>) -> (r: CombineEvaluator)
        ensures
            r.evaluators == evaluators,
    {
        CombineEvaluator { evaluators }
    }

    pub fn evaluate(&self, t: Fixed) -> (r: Fixed)
        ensures
            r@ == spec_spans(self.evaluators@, t@, 0),
        decreases self, 0int,
    {
        let mut k: usize = 0;
        while k < self.evaluators.len()
            invariant
                k <= self.evaluators.len(),
                spec_spans(self.evaluators@, t@, 0) == spec_spans(self.evaluators@, t@, k as int),
            decreases self.evaluators.len() - k,
        {
            if self.evaluators[k].start.le(t) && self.evaluators[k].stop.ge(t) {
                return self.evaluators[k].evaluator.evaluate(t.sub(self.evaluators[k].start));
            }
            k = k + 1;
        }
        t
    }
}

impl Evaluator {
    /// The value at the time `t`.
    pub fn evaluate(&self, t: Fixed) -> (r: Fixed)
        ensures
            r@ == spec_evaluate(*self, t@),
        decreases self, 1int,
    {
        match self {
            Evaluator::Float(v) => v.evaluate(t),
            Evaluator::Keyframe(v) => v.evaluate(t),
            Evaluator::Interpolator(v) => v.evaluate(t),
            Evaluator::Combine(v) => v.evaluate(t),
        }
    }
}

/// A slot and the value that is written into it.
pub struct EvaluatorPointer {
    pub pointer: usize,
    pub evaluator: Evaluator,
}

/// The scalars after the first `k` entries of a manager have each
/// written their value at the time `t` into their slot; an entry whose slot
/// the scalars lack writes nothing.
pub open spec fn spec_written(
    entries: Seq<EvaluatorPointer>,
    t: int,
    start: Seq<int>,
    k: int,
) -> Seq<int>
    decreases k,
{
    if k <= 0 {
        start
    } else {
        let before = spec_written(entries, t, start, k - 1);
        let slot = entries[k - 1].pointer as int;
        if slot < before.len() {
            before.update(slot, spec_evaluate(entries[k - 1].evaluator, t))
        } else {
            before
        }
    }
}

/// The raw values of a row of scalars.
pub open spec fn raw_values(scalars: Seq<Fixed>) -> Seq<int> {
    Seq::new(scalars.len(), |i: int| scalars[i]@)
}

/// Every animated value of a scene, each with the slot that it is written into.
pub struct EvaluatorManager {
    pub evaluators: Vec<EvaluatorPointer>,
}

impl EvaluatorManager {
    pub fn new() -> (r: EvaluatorManager)
        ensures
            r.evaluators@.len() == 0,
    {
        EvaluatorManager { evaluators: Vec::new() }
    }

    /// Adds a value that is written into the slot `pointer`.
    pub fn insert_evaluator(&mut self, pointer: usize, evaluator: Evaluator)
        ensures
            final(self).evaluators@ == old(self).evaluators@.push(
                EvaluatorPointer { pointer, evaluator },
            ),
    {
        self.evaluators.push(EvaluatorPointer { pointer, evaluator });
    }

    /// Writes every value at the time `t` into its slot of `scalars`, in
    /// the order in which the values were added.
    pub fn evaluate(&self, t: Fixed, scalars: &mut Vec<Fixed>)
        ensures
            raw_values(final(scalars)@) == spec_written(
                self.evaluators@,
                t@,
                raw_values(old(scalars)@),
                self.evaluators@.len() as int,
            ),
    {
        let mut k: usize = 0;
        while k < self.evaluators.len()
            invariant
                k <= self.evaluators.len(),
                raw_values(scalars@) == spec_written(
                    self.evaluators@,
                    t@,
                    raw_values(old(scalars)@),
                    k as int,
                ),
            decreases self.evaluators.len() - k,
        {
            let slot: usize = self.evaluators[k].pointer;
            let ghost before = raw_values(scalars@);
            if slot < scalars.len() {
                let v: Fixed = self.evaluators[k].evaluator.evaluate(t);
                scalars.set(slot, v);
                assert(raw_values(scalars@) =~= before.update(slot as int, v@));
            }
            k = k + 1;
        }
    }
}

impl FloatEvaluator {
    /// Lets the value `value` be written into the slot `pointer`.
    pub fn new(value: Fixed, pointer: usize, manager: &mut EvaluatorManager)
        ensures
            final(manager).evaluators@ == old(manager).evaluators@.push(
                EvaluatorPointer {
                    pointer,
                    evaluator: Evaluator::Float(FloatEvaluator { value }),
                },
            ),
    {
        manager.insert_evaluator(pointer, Evaluator::Float(FloatEvaluator { value }));
    }
}

impl KeyframeEvaluator {
    /// Lets the track of keyframes be written into the slot `pointer`.
    pub fn new(keyframes: Vec<Keyframe>, pointer: usize, manager: &mut EvaluatorManager)
        ensures
            final(manager).evaluators@ == old(manager).evaluators@.push(
                EvaluatorPointer {
                    pointer,
                    evaluator: Evaluator::Keyframe(KeyframeEvaluator { keyframes }),
                },
            ),
    {
        manager.insert_evaluator(pointer, Evaluator::Keyframe(KeyframeEvaluator { keyframes }));
    }
}

impl InterpolatorEvaluator {
    /// Lets the swing between `min` and `max` be written into the slot `pointer`.
    pub fn new(
        min: Fixed,
        max: Fixed,
        interval: Fixed,
        oscilate: bool,
        transition_function: Transition,
        pointer: usize,
        manager: &mut EvaluatorManager,
    )
        ensures
            final(manager).evaluators@ == old(manager).evaluators@.push(
                EvaluatorPointer {
                    pointer,
                    evaluator: Evaluator::Interpolator(
                        InterpolatorEvaluator { min, max, interval, oscilate, transition_function },
                    ),
                },
            ),
    {
        manager.insert_evaluator(
            pointer,
            Evaluator::Interpolator(
                InterpolatorEvaluator { min, max, interval, oscilate, transition_function },
            ),
        );
    }
}

impl CombineEvaluator {
    /// Lets the value put together from the spans be written into the slot `pointer`.
    pub fn new(evaluators: Vec<CombineEvaluatorInfo>, pointer: usize, manager: &mut EvaluatorManager)
        ensures
            final(manager).evaluators@ == old(manager).evaluators@.push(
                EvaluatorPointer {
                    pointer,
                    evaluator: Evaluator::Combine(CombineEvaluator { evaluators }),
                },
            ),
    {
        manager.insert_evaluator(pointer, Evaluator::Combine(CombineEvaluator { evaluators }));
    }
}

/// Lets each of three values be written into its slot.
pub fn convert_to_evaluator(a: [Fixed; 3], pointer: [usize; 3], manager: &mut EvaluatorManager)
    ensures
        final(manager).evaluators@ == old(manager).evaluators@.push(
            EvaluatorPointer {
                pointer: pointer[0],
                evaluator: Evaluator::Float(FloatEvaluator { value: a[0] }),
            },
        ).push(
            EvaluatorPointer {
                pointer: pointer[1],
                evaluator: Evaluator::Float(FloatEvaluator { value: a[1] }),
            },
        ).push(
            EvaluatorPointer {
                pointer: pointer[2],
                evaluator: Evaluator::Float(FloatEvaluator { value: a[2] }),
            },
        ),
{
    FloatEvaluator::new(a[0], pointer[0], manager);
    FloatEvaluator::new(a[1], pointer[1], manager);
    FloatEvaluator::new(a[2], pointer[2], manager);
}

} // verus!
