use raymarch::animation::{Animation, Source};
use raymarch::evaluator::{Evaluator, FloatEvaluator, InterpolatorEvaluator};
use raymarch::fixed::{Fixed, SCALE};
use raymarch::helpers::mat_vec_mul;
use raymarch::parameter::Param;
use raymarch::transition::{Linear, Transition};

fn fx(v: f64) -> Fixed {
    Fixed::from_raw((v * SCALE as f64).round() as i64)
}

fn c(v: f64) -> Param {
    Param::constant(fx(v))
}

#[test]
fn values_take_the_next_slot() {
    let mut a = Animation::new();
    let first = a.value(fx(1.5));
    let more = a.values([fx(2.0), fx(3.0), fx(4.0)]);
    assert_eq!(first.slot, Some(0));
    assert_eq!(first.get().raw(), 1_500_000_000);
    assert_eq!([more[0].slot, more[1].slot, more[2].slot], [Some(1), Some(2), Some(3)]);
    assert_eq!(a.scalars.len(), 4);
    assert_eq!(a.present(more[2]).raw(), 4 * SCALE);
    assert_eq!(a.present(c(9.0)).raw(), 9 * SCALE);
    assert_eq!(a.present(Param::animated(17, fx(5.0))).raw(), 5 * SCALE);
}

#[test]
fn advancing_writes_the_animated_values() {
    let mut a = Animation::new();
    let swing = a.value(fx(0.0));
    let fixed = a.value(fx(7.0));
    a.animate(
        swing,
        Evaluator::Interpolator(InterpolatorEvaluator::new_get(fx(0.0), fx(10.0), fx(4.0), false, Transition::Linear(Linear::new()))),
    );
    // a value without a slot cannot be animated
    a.animate(c(1.0), Evaluator::Float(FloatEvaluator::new_get(fx(99.0))));
    assert_eq!(a.manager.evaluators.len(), 1);
    a.advance(fx(1.0));
    assert_eq!(a.present(swing).raw(), 2_500_000_000);
    assert_eq!(a.present(fixed).raw(), 7 * SCALE);
    let snapshot = a.snapshot(Vec::new());
    assert_eq!(snapshot.scalars.len(), 2);
    assert_eq!(swing.resolve(&snapshot).get().raw(), 2_500_000_000);
    assert_eq!(snapshot.transforms.len(), 0);
}

#[test]
fn transforms_follow_the_values() {
    let mut a = Animation::new();
    let x = a.value(fx(1.0));
    let slot = a.bind(Source::Transformation([x, c(0.0), c(0.0)], [c(0.0), c(0.0), c(0.0)], [c(2.0), c(2.0), c(2.0)]));
    let turn = a.bind(Source::Rotation([c(0.0), c(0.0), c(90.0)]));
    let moved = a.bind(Source::PosRot([c(0.0), c(5.0), c(0.0)], [c(0.0), c(0.0), c(0.0)]));
    assert_eq!([slot, turn, moved], [0, 1, 2]);
    assert_eq!(a.transforms(), 3);
    let p = mat_vec_mul(a.forward(slot), [fx(1.0), fx(1.0), fx(1.0)]);
    assert_eq!([p[0].raw(), p[1].raw(), p[2].raw()], [3 * SCALE, 2 * SCALE, 2 * SCALE]);
    a.animate(x, Evaluator::Float(FloatEvaluator::new_get(fx(-4.0))));
    a.advance(fx(0.0));
    let q = mat_vec_mul(a.forward(slot), [fx(1.0), fx(1.0), fx(1.0)]);
    assert_eq!(q[0].raw(), -2 * SCALE);
    let r = a.forward(turn);
    assert!((r[0][1].raw() + SCALE).abs() < 10);
    assert_eq!(r[3][3].raw(), SCALE);
    assert_eq!(r[3][0].raw(), 0);
    assert_eq!(r[0][3].raw(), 0);
    let m = a.forward(moved);
    assert_eq!(m[3][1].raw(), 5 * SCALE);
    assert_eq!(m[0][0].raw(), SCALE);
}

#[test]
fn a_frame_stands_at_its_time() {
    assert_eq!(raymarch::animation::frame_time(0).raw(), 0);
    assert_eq!(raymarch::animation::frame_time(30).raw(), SCALE);
    assert_eq!(raymarch::animation::frame_time(45).raw(), 1_500_000_000);
    assert_eq!(raymarch::animation::frame_time(1).raw(), 33_333_333);
}

#[test]
fn frames_are_dealt_out_in_turn() {
    let frames = raymarch::animation::frames_per_thread(0, 10, 4);
    assert_eq!(frames, vec![vec![0, 4, 8], vec![1, 5, 9], vec![2, 6], vec![3, 7]]);
    let shifted = raymarch::animation::frames_per_thread(5, 9, 3);
    assert_eq!(shifted, vec![vec![6], vec![7], vec![5, 8]]);
    let none = raymarch::animation::frames_per_thread(7, 7, 2);
    assert_eq!(none, vec![Vec::<u32>::new(), Vec::new()]);
    let backwards = raymarch::animation::frames_per_thread(9, 3, 1);
    assert_eq!(backwards, vec![Vec::<u32>::new()]);
}
