use raymarch::evaluator::{
    bezier, convert_to_evaluator, CombineEvaluator, CombineEvaluatorInfo, Evaluator,
    EvaluatorManager, FloatEvaluator, InterpolatorEvaluator, Keyframe, KeyframeEvaluator,
};
use raymarch::filter::{ColorShift, ColorShiftMode, Filter, GrayFilter};
use raymarch::fixed::{Fixed, LIMIT, SCALE};
use raymarch::parameter::{Param, Snapshot};
use raymarch::transition::{CatmullRomSpline, Linear, Smoothstep, Transition};

fn fx(v: f64) -> Fixed {
    Fixed::from_raw((v * SCALE as f64).round() as i64)
}

fn fl(v: Fixed) -> f64 {
    v.raw() as f64 / SCALE as f64
}

fn c(v: f64) -> Param {
    Param::constant(fx(v))
}

fn key(frame: f64, value: f64) -> Keyframe {
    Keyframe::new(fx(frame), fx(value), fx(0.0), fx(0.0), fx(0.0), fx(0.0))
}

#[test]
fn linear_leaves_the_time_alone() {
    assert_eq!(Linear::new().transition(fx(0.37)).raw(), fx(0.37).raw());
    assert_eq!(Transition::Linear(Linear::new()).transition(fx(-2.0)).raw(), -2 * SCALE);
}

#[test]
fn smoothstep_of_each_order() {
    for t in [0.0f64, 0.1, 0.25, 0.5, 0.8, 1.0] {
        let cubic = t * t * (3.0 - 2.0 * t);
        let quintic = t * t * t * (t * (t * 6.0 - 15.0) + 10.0);
        let xsq = t * t;
        let xsqsq = xsq * xsq;
        let septic = xsqsq * (25.0 - 48.0 * t + xsq * (25.0 - xsqsq));
        assert!((fl(Smoothstep::new(fx(1.0)).transition(fx(t))) - cubic).abs() < 1e-8);
        assert!((fl(Smoothstep::new(fx(2.0)).transition(fx(t))) - quintic).abs() < 1e-7);
        assert!((fl(Smoothstep::new(fx(3.0)).transition(fx(t))) - septic).abs() < 1e-7);
        assert!((fl(Smoothstep::new(fx(0.5)).transition(fx(t))) - septic).abs() < 1e-7);
    }
    assert_eq!(Smoothstep::new(fx(1.0)).transition(fx(0.5)).raw(), SCALE / 2);
    assert_eq!(Smoothstep::new(fx(2.0)).transition(fx(1.0)).raw(), SCALE);
    assert_eq!(Transition::Smoothstep(Smoothstep::new(fx(1.0))).transition(fx(0.0)).raw(), 0);
}

#[test]
fn catmull_rom_goes_from_zero_to_one() {
    let s = CatmullRomSpline::new(fx(-1.0), fx(2.0));
    assert_eq!(s.transition(fx(0.0)).raw(), 0);
    assert_eq!(s.transition(fx(1.0)).raw(), SCALE);
    let t = 0.3f64;
    let (p0, p1, p2, p3) = (-1.0f64, 0.0f64, 1.0f64, 2.0f64);
    let want = 0.5
        * ((2.0 * p1)
            + (-p0 + p2) * t
            + (2.0 * p0 - 5.0 * p1 + 4.0 * p2 - p3) * t * t
            + (-p0 + 3.0 * p1 - 3.0 * p2 + p3) * t * t * t);
    assert!((fl(s.transition(fx(t))) - want).abs() < 1e-8);
    assert!((fl(Transition::CatmullRomSpline(s).transition(fx(t))) - want).abs() < 1e-8);
    assert_eq!(s.catmull_rom_spline(fx(0.5), fx(0.0), fx(0.0), fx(1.0), fx(1.0)).raw(), SCALE / 2);
}

#[test]
fn bezier_runs_through_its_ends() {
    assert_eq!(bezier(fx(1.0), fx(5.0), fx(-3.0), fx(2.0), fx(0.0)).raw(), SCALE);
    assert_eq!(bezier(fx(1.0), fx(5.0), fx(-3.0), fx(2.0), fx(1.0)).raw(), 2 * SCALE);
    // at the middle the weights are 1/8, 3/8, 3/8, 1/8
    assert_eq!(bezier(fx(0.0), fx(8.0), fx(8.0), fx(0.0), fx(0.5)).raw(), 6 * SCALE);
}

#[test]
fn keyframes_hold_before_and_after_the_track() {
    let track = KeyframeEvaluator::new_get(fx(0.0), vec![key(1.0, 10.0), key(3.0, 20.0), key(4.0, 0.0)]);
    assert_eq!(track.evaluate(fx(0.5)).raw(), 10 * SCALE);
    assert_eq!(track.evaluate(fx(4.0)).raw(), 0);
    assert_eq!(track.evaluate(fx(9.0)).raw(), 0);
    // on a keyframe the segment that starts there has gone none of its way
    assert_eq!(track.evaluate(fx(1.0)).raw(), 10 * SCALE);
    // half way, with flat handles: weights 1/8 + 3/8 on the first value
    assert_eq!(track.evaluate(fx(2.0)).raw(), 15 * SCALE);
    let empty = KeyframeEvaluator::new_get(fx(0.0), Vec::new());
    assert_eq!(empty.evaluate(fx(1.0)).raw(), 0);
}

#[test]
fn keyframes_follow_their_handles() {
    let a = Keyframe::new(fx(0.0), fx(0.0), fx(0.0), fx(0.5), fx(0.0), fx(4.0));
    let b = Keyframe::new(fx(2.0), fx(0.0), fx(-0.5), fx(0.0), fx(4.0), fx(0.0));
    let track = KeyframeEvaluator::new_get(fx(0.0), vec![a, b]);
    // control values 0, 4, 4, 0: 3/8 * 4 + 3/8 * 4 at the middle
    assert_eq!(track.evaluate(fx(1.0)).raw(), 3 * SCALE);
}

#[test]
fn interpolator_swings_between_its_bounds() {
    let up = InterpolatorEvaluator::new_get(fx(2.0), fx(4.0), fx(3.0), false, Transition::Linear(Linear::new()));
    assert_eq!(up.evaluate(fx(0.0)).raw(), 2 * SCALE);
    assert_eq!(up.evaluate(fx(1.5)).raw(), 3 * SCALE);
    assert_eq!(up.evaluate(fx(3.0)).raw(), 2 * SCALE);
    assert_eq!(up.evaluate(fx(4.5)).raw(), 3 * SCALE);
    let swing = InterpolatorEvaluator::new_get(fx(2.0), fx(4.0), fx(3.0), true, Transition::Linear(Linear::new()));
    assert!((fl(swing.evaluate(fx(0.75))) - 2.5).abs() < 1e-8);
    // in the second interval the way leads back
    assert!((fl(swing.evaluate(fx(3.75))) - 3.5).abs() < 1e-8);
    assert_eq!(swing.evaluate(fx(3.0)).raw(), 4 * SCALE);
    assert!((fl(swing.evaluate(fx(6.75))) - 2.5).abs() < 1e-8);
    let eased = InterpolatorEvaluator::new_get(fx(0.0), fx(1.0), fx(2.0), false, Transition::Smoothstep(Smoothstep::new(fx(1.0))));
    assert!((fl(eased.evaluate(fx(0.5))) - 0.15625).abs() < 1e-8);
    // an interval of zero: the phase is zero, and every interval is a second one
    let still = InterpolatorEvaluator::new_get(fx(2.0), fx(4.0), fx(0.0), true, Transition::Linear(Linear::new()));
    assert_eq!(still.evaluate(fx(1.0)).raw(), 4 * SCALE);
    let held = InterpolatorEvaluator::new_get(fx(2.0), fx(4.0), fx(0.0), false, Transition::Linear(Linear::new()));
    assert_eq!(held.evaluate(fx(1.0)).raw(), 2 * SCALE);
}

#[test]
fn combine_takes_the_first_span_that_holds_the_time() {
    let e = CombineEvaluator::new_get(vec![
        CombineEvaluatorInfo::new(fx(0.0), fx(2.0), Evaluator::Float(FloatEvaluator::new_get(fx(7.0)))),
        CombineEvaluatorInfo::new(
            fx(2.0),
            fx(4.0),
            Evaluator::Interpolator(InterpolatorEvaluator::new_get(fx(0.0), fx(10.0), fx(2.0), false, Transition::Linear(Linear::new()))),
        ),
    ]);
    assert_eq!(e.evaluate(fx(1.0)).raw(), 7 * SCALE);
    // both spans hold the time two: the first decides
    assert_eq!(e.evaluate(fx(2.0)).raw(), 7 * SCALE);
    // the second span counts the time from its start
    assert_eq!(e.evaluate(fx(3.0)).raw(), 5 * SCALE);
    // outside every span the time itself comes back
    assert_eq!(e.evaluate(fx(5.5)).raw(), fx(5.5).raw());
    assert_eq!(Evaluator::Combine(e).evaluate(fx(-1.0)).raw(), -SCALE);
}

#[test]
fn manager_writes_every_value_into_its_slot() {
    let mut m = EvaluatorManager::new();
    m.insert_evaluator(1, Evaluator::Float(FloatEvaluator::new_get(fx(3.0))));
    m.insert_evaluator(0, Evaluator::Keyframe(KeyframeEvaluator::new_get(fx(0.0), vec![key(0.0, 1.0), key(2.0, 3.0)])));
    m.insert_evaluator(9, Evaluator::Float(FloatEvaluator::new_get(fx(8.0))));
    m.insert_evaluator(1, Evaluator::Float(FloatEvaluator::new_get(fx(4.0))));
    let mut scalars = vec![fx(0.0), fx(0.0), fx(5.0)];
    m.evaluate(fx(1.0), &mut scalars);
    assert_eq!(scalars.len(), 3);
    assert_eq!(scalars[0].raw(), 2 * SCALE);
    // the later entry for a slot wins
    assert_eq!(scalars[1].raw(), 4 * SCALE);
    assert_eq!(scalars[2].raw(), 5 * SCALE);
}

#[test]
fn color_shift_in_every_mode() {
    let col = [fx(0.5), fx(0.25), fx(1.0)];
    let shift = |mode| ColorShift::new([c(2.0), c(0.5), c(0.0)], mode).filter_color(3, 4, col);
    let r = shift(ColorShiftMode::Mul);
    assert_eq!([r[0].raw(), r[1].raw(), r[2].raw()], [SCALE, SCALE / 8, 0]);
    let r = shift(ColorShiftMode::Add);
    assert_eq!([r[0].raw(), r[1].raw(), r[2].raw()], [2_500_000_000, 750_000_000, SCALE]);
    let r = shift(ColorShiftMode::Sub);
    assert_eq!([r[0].raw(), r[1].raw(), r[2].raw()], [-1_500_000_000, -250_000_000, SCALE]);
    let r = shift(ColorShiftMode::Div);
    assert_eq!([r[0].raw(), r[1].raw(), r[2].raw()], [SCALE / 4, SCALE / 2, LIMIT]);
}

#[test]
fn gray_filter_draws_towards_the_mean() {
    let g = GrayFilter::new(c(1.0));
    let r = g.filter_color(0, 0, [fx(0.3), fx(0.6), fx(0.9)]);
    // all of the colour goes: 1.8 * 0.33333
    assert_eq!([r[0].raw(), r[1].raw(), r[2].raw()], [599_994_000, 599_994_000, 599_994_000]);
    let none = GrayFilter::new(c(0.0)).filter_color(0, 0, [fx(0.3), fx(0.6), fx(0.9)]);
    assert_eq!([none[0].raw(), none[1].raw(), none[2].raw()], [300_000_000, 600_000_000, 900_000_000]);
}

#[test]
fn filters_follow_their_slots() {
    let mut f = Filter::Gray(GrayFilter::new(Param::animated(0, fx(0.0))));
    f.evaluate(&Snapshot::new(vec![fx(1.0)], Vec::new()));
    let r = f.filter_color(0, 0, [fx(0.3), fx(0.6), fx(0.9)]);
    assert_eq!(r[0].raw(), 599_994_000);
    let mut s = Filter::ColorShift(ColorShift::new([Param::animated(1, fx(1.0)), c(1.0), c(1.0)], ColorShiftMode::Mul));
    s.evaluate(&Snapshot::new(vec![fx(9.0), fx(3.0)], Vec::new()));
    assert_eq!(s.filter_color(0, 0, [fx(1.0), fx(1.0), fx(1.0)])[0].raw(), 3 * SCALE);
}

#[test]
fn parameters_resolve_from_the_snapshot() {
    let s = Snapshot::new(vec![fx(1.0), fx(2.0)], Vec::new());
    assert_eq!(Param::animated(1, fx(7.0)).resolve(&s).get().raw(), 2 * SCALE);
    assert_eq!(Param::animated(2, fx(7.0)).resolve(&s).get().raw(), 7 * SCALE);
    assert_eq!(Param::constant(fx(7.0)).resolve(&s).get().raw(), 7 * SCALE);
    assert_eq!(Param::animated(1, fx(7.0)).resolve(&s).slot, Some(1));
}

#[test]
fn evaluators_register_with_the_manager() {
    let mut m = EvaluatorManager::new();
    FloatEvaluator::new(fx(1.5), 0, &mut m);
    KeyframeEvaluator::new(vec![key(0.0, 2.0), key(4.0, 6.0)], 1, &mut m);
    InterpolatorEvaluator::new(fx(0.0), fx(8.0), fx(4.0), false, Transition::Linear(Linear::new()), 2, &mut m);
    CombineEvaluator::new(
        vec![CombineEvaluatorInfo::new(fx(0.0), fx(9.0), Evaluator::Float(FloatEvaluator::new_get(fx(-1.0))))],
        3,
        &mut m,
    );
    convert_to_evaluator([fx(10.0), fx(20.0), fx(30.0)], [4, 5, 6], &mut m);
    assert_eq!(m.evaluators.len(), 7);
    let mut scalars = vec![fx(0.0); 7];
    m.evaluate(fx(2.0), &mut scalars);
    let got: Vec<i64> = scalars.iter().map(|v| v.raw()).collect();
    assert_eq!(got, vec![1_500_000_000, 4 * SCALE, 4 * SCALE, -SCALE, 10 * SCALE, 20 * SCALE, 30 * SCALE]);
}
