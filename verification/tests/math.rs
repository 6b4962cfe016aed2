use raymarch::fixed::{Fixed, LIMIT, SCALE};
use raymarch::math::{acos, atan2, cos, exp, ln, powf, sin};

fn fx(v: f64) -> Fixed {
    Fixed::from_raw((v * SCALE as f64).round() as i64)
}

fn as_float(v: Fixed) -> f64 {
    v.raw() as f64 / SCALE as f64
}

fn close(got: Fixed, want: f64, tolerance: f64) -> bool {
    (as_float(got) - want).abs() <= tolerance
}

#[test]
fn sine_and_cosine_follow_the_circle() {
    let mut a = -20.0f64;
    while a <= 20.0 {
        assert!(close(sin(fx(a)), a.sin(), 5e-8), "sin {}", a);
        assert!(close(cos(fx(a)), a.cos(), 5e-8), "cos {}", a);
        a += 0.0371;
    }
}

#[test]
fn sine_and_cosine_at_the_axes() {
    assert_eq!(sin(fx(0.0)).raw(), 0);
    assert_eq!(cos(fx(0.0)).raw(), SCALE);
    assert!(close(sin(fx(std::f64::consts::FRAC_PI_2)), 1.0, 2e-9));
    assert!(close(cos(fx(std::f64::consts::PI)), -1.0, 2e-9));
    assert!(close(sin(fx(-std::f64::consts::FRAC_PI_2)), -1.0, 2e-9));
    assert!(sin(fx(1.0e6)).raw().abs() <= SCALE);
}

#[test]
fn logarithm_of_small_and_large_numbers() {
    for v in [1.0e-9, 3.0e-6, 0.001, 0.25, 0.5, 0.999, 1.0, 1.5, 2.0, 2.718281828, 4.0, 10.0, 300.0, 1.0e6, 9.9e8] {
        assert!(close(ln(fx(v)), v.ln(), 5e-8), "ln {}", v);
    }
    assert_eq!(ln(fx(1.0)).raw(), 0);
    assert_eq!(ln(fx(0.0)).raw(), -LIMIT);
    assert_eq!(ln(fx(-3.0)).raw(), -LIMIT);
}

#[test]
fn exponential_grows_and_saturates() {
    for v in [-30.0f64, -5.0, -1.0, -0.3, 0.0, 0.1, 0.6931, 1.0, 2.5, 10.0] {
        let want = v.exp();
        let tolerance = 5e-8 * want.max(1.0);
        assert!(close(exp(fx(v)), want, tolerance), "exp {}", v);
    }
    assert_eq!(exp(fx(0.0)).raw(), SCALE);
    assert_eq!(exp(fx(100.0)).raw(), LIMIT);
    assert_eq!(exp(fx(-100.0)).raw(), 0);
}

#[test]
fn powers_of_a_positive_base() {
    for (b, p) in [(2.0f64, 8.0f64), (1.5, 7.0), (0.5, 3.0), (1.2, 9.0), (2.0, 0.5), (1.9, 8.0), (0.7, 8.0)] {
        let want = b.powf(p);
        assert!(close(powf(fx(b), fx(p)), want, 2e-6 * want.max(1.0)), "{} ^ {}", b, p);
    }
    assert_eq!(powf(fx(0.0), fx(3.0)).raw(), 0);
    assert_eq!(powf(fx(0.0), fx(0.0)).raw(), SCALE);
    assert_eq!(powf(fx(0.0), fx(-1.0)).raw(), LIMIT);
}

#[test]
fn angle_of_a_point_in_every_quadrant() {
    for (y, x) in [(0.0f64, 1.0f64), (1.0, 1.0), (1.0, 0.0), (1.0, -1.0), (0.0, -1.0), (-1.0, -1.0), (-1.0, 0.0), (-1.0, 1.0), (0.3, 2.0), (2.0, 0.3), (-0.41, 0.99), (5.0, -0.001)] {
        assert!(close(atan2(fx(y), fx(x)), y.atan2(x), 5e-8), "atan2 {} {}", y, x);
    }
    assert_eq!(atan2(fx(0.0), fx(0.0)).raw(), 0);
}

#[test]
fn inverse_cosine_over_its_domain() {
    let mut v = -1.0f64;
    while v <= 1.0 {
        assert!(close(acos(fx(v)), v.acos(), 1e-4), "acos {}", v);
        v += 0.0625;
    }
    assert!(close(acos(fx(0.0)), std::f64::consts::FRAC_PI_2, 5e-8));
    assert!(close(acos(fx(0.5)), 0.5f64.acos(), 5e-8));
    assert_eq!(acos(fx(1.0)).raw(), 0);
    assert_eq!(acos(fx(7.0)).raw(), 0);
}
