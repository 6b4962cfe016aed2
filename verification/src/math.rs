//! Elementary functions on fixed-point numbers.
//!
//! Each function reduces its argument to a short interval and sums a power
//! series there, term by term in saturating fixed-point arithmetic. What a
//! function returns is stated exactly, as that sum; the sums are long enough
//! for the series to be cut off below a billionth on the reduced interval.
//! Angles are in radians.

use crate::fixed::{
    floor_div, saturate, spec_abs, spec_clamp, spec_div, spec_mul, spec_rem, spec_sqrt, Fixed,
    LIMIT, SCALE,
};
use vstd::prelude::*;

verus! {

/// Pi, in raw units.
pub const PI: i64 = 3_141_592_654;

/// A full turn, in raw units.
pub const TWO_PI: i64 = 6_283_185_307;

/// A quarter turn, in raw units.
pub const HALF_PI: i64 = 1_570_796_327;

/// An eighth of a turn, in raw units.
pub const QUARTER_PI: i64 = 785_398_163;

/// The natural logarithm of two, in raw units.
pub const LN_2: i64 = 693_147_181;

/// The tangent of a sixteenth of a turn, in raw units.
pub const TAN_PI_8: i64 = 414_213_562;

/// The series that are summed from the inside out, each term a multiple of
/// the one before.
#[derive(Clone, Copy, Debug, PartialEq, Eq, Structural)]
pub enum Series {
    /// `1 - w/(2*3) (1 - w/(4*5) (1 - ...))`, which is `sin(y) / y` for `w = y^2`.
    Sine,
    /// `1 - w/(1*2) (1 - w/(3*4) (1 - ...))`, which is `cos(y)` for `w = y^2`.
    Cosine,
    /// `1 + x/1 (1 + x/2 (1 + ...))`, which is `exp(x)`.
    Exponential,
}

/// What term `k` of a series is divided by.
pub open spec fn spec_divisor(kind: Series, k: int) -> int {
    match kind {
        Series::Sine => (2 * k) * (2 * k + 1),
        Series::Cosine => (2 * k - 1) * (2 * k),
        Series::Exponential => k,
    }
}

/// The terms `k ..= n` of a series in `x`, summed from the inside out:
/// `1 + x / d(k) * (1 + x / d(k + 1) * (...))`.
pub open spec fn spec_nested(kind: Series, x: int, k: int, n: int) -> int
    decreases n - k + 1,
{
    if k > n {
        SCALE as int
    } else {
        saturate(
            SCALE + spec_div(
                spec_mul(x, spec_nested(kind, x, k + 1, n)),
                saturate(spec_divisor(kind, k) * SCALE),
            ),
        )
    }
}

/// The sum of `x^j / (2 j + 1)` over `j = k ..= n`, divided by `x^k`: the
/// series of the inverse tangents, from the inside out.
pub open spec fn spec_odd(x: int, k: int, n: int) -> int
    decreases n - k + 1,
{
    if k > n {
        0
    } else {
        saturate(
            spec_div(SCALE as int, saturate((2 * k + 1) * SCALE)) + spec_mul(
                x,
                spec_odd(x, k + 1, n),
            ),
        )
    }
}

/// The angle `x` brought into one turn: `0 <= result < TWO_PI`.
pub open spec fn spec_turn(x: int) -> int {
    let r = spec_rem(x, TWO_PI as int);
    if r < 0 {
        r + TWO_PI
    } else {
        r
    }
}

/// The sine of an angle of the first quadrant.
pub open spec fn spec_sin_first(y: int) -> int {
    spec_mul(y, spec_nested(Series::Sine, -spec_mul(y, y), 1, 6))
}

/// The cosine of an angle of the first quadrant.
pub open spec fn spec_cos_first(y: int) -> int {
    spec_nested(Series::Cosine, -spec_mul(y, y), 1, 7)
}

/// The sine of `x`: the angle is brought into one turn, its quadrant is
/// taken off, and the series of the first quadrant is summed.
pub open spec fn spec_sin(x: int) -> int {
    let r = spec_turn(x);
    let q = r / (HALF_PI as int);
    let y = r % (HALF_PI as int);
    let v = if q == 0 {
        spec_sin_first(y)
    } else if q == 1 {
        spec_cos_first(y)
    } else if q == 2 {
        -spec_sin_first(y)
    } else {
        -spec_cos_first(y)
    };
    spec_clamp(v, -SCALE, SCALE as int)
}

/// The cosine of `x`.
pub open spec fn spec_cos(x: int) -> int {
    let r = spec_turn(x);
    let q = r / (HALF_PI as int);
    let y = r % (HALF_PI as int);
    let v = if q == 0 {
        spec_cos_first(y)
    } else if q == 1 {
        -spec_sin_first(y)
    } else if q == 2 {
        -spec_cos_first(y)
    } else {
        spec_sin_first(y)
    };
    spec_clamp(v, -SCALE, SCALE as int)
}

/// A mantissa of two or more, halved until it is below two; the exponent
/// counts the halvings.
pub open spec fn spec_halve(m: int, e: int) -> (int, int)
    decreases m,
{
    if m >= 2 * SCALE {
        spec_halve(m / 2, e + 1)
    } else {
        (m, e)
    }
}

/// A positive mantissa below one, doubled until it is at least one; the
/// exponent counts the doublings down.
pub open spec fn spec_double(m: int, e: int) -> (int, int)
    decreases
            (if m < SCALE {
                SCALE - m
            } else {
                0
            }),
{
    if 0 < m < SCALE {
        spec_double(2 * m, e - 1)
    } else {
        (m, e)
    }
}

/// The natural logarithm of a mantissa `m` with `1 <= m < 2`:
/// `2 t (1 + t^2 / 3 + t^4 / 5 + ...)` with `t = (m - 1) / (m + 1)`.
pub open spec fn spec_ln_mantissa(m: int) -> int {
    let t = spec_div(saturate(m - SCALE), saturate(m + SCALE));
    spec_mul(2 * SCALE, spec_mul(t, spec_odd(spec_mul(t, t), 0, 10)))
}

/// The natural logarithm of `x`: with `x = m * 2^e` and `1 <= m < 2`, it
/// is `e ln 2 + ln m`. For `x <= 0` it is the lower bound of the range.
pub open spec fn spec_ln(x: int) -> int {
    if x <= 0 {
        -(LIMIT as int)
    } else {
        let halved = spec_halve(x, 0);
        let normal = spec_double(halved.0, halved.1);
        saturate(normal.1 * LN_2 + spec_ln_mantissa(normal.0))
    }
}

/// `v` times two to the power `k`, saturating upwards and rounding down.
pub open spec fn spec_scale2(v: int, k: int) -> int
    decreases spec_abs(k),
{
    if k > 0 {
        spec_scale2(saturate(2 * v), k - 1)
    } else if k < 0 {
        spec_scale2(v / 2, k + 1)
    } else {
        v
    }
}

/// The exponential of `x`: with `x = k ln 2 + r` and `0 <= r < ln 2`, it is
/// `2^k exp(r)`. Beyond `k = 40` it is the upper bound of the range, and
/// below `k = -40` it is zero.
pub open spec fn spec_exp(x: int) -> int {
    let k = x / (LN_2 as int);
    let r = x % (LN_2 as int);
    if k > 40 {
        LIMIT as int
    } else if k < -40 {
        0
    } else {
        spec_scale2(spec_nested(Series::Exponential, r, 1, 12), k)
    }
}

/// `b` to the power `p`, as `exp(p ln b)` for a positive base. A base that
/// is not positive counts as zero: its power is one for `p = 0`, zero for a
/// positive `p`, and the upper bound of the range for a negative `p`.
pub open spec fn spec_powf(b: int, p: int) -> int {
    if b <= 0 {
        if p == 0 {
            SCALE as int
        } else if p > 0 {
            0
        } else {
            LIMIT as int
        }
    } else {
        spec_exp(spec_mul(p, spec_ln(b)))
    }
}

/// The inverse tangent of a small `u`: `u (1 - u^2 / 3 + u^4 / 5 - ...)`.
pub open spec fn spec_atan_small(u: int) -> int {
    spec_mul(u, spec_odd(-spec_mul(u, u), 0, 11))
}

/// The inverse tangent of `t` with `0 <= t <= 1`: past the tangent of a
/// sixteenth of a turn it is `pi / 4 + atan((t - 1) / (t + 1))`.
pub open spec fn spec_atan_unit(t: int) -> int {
    if t > TAN_PI_8 {
        saturate(QUARTER_PI + spec_atan_small(spec_div(saturate(t - SCALE), saturate(t + SCALE))))
    } else {
        spec_atan_small(t)
    }
}

/// The angle of the point `(x, y)` against the positive x axis, between
/// `-pi` and `pi`; zero for the origin.
pub open spec fn spec_atan2(y: int, x: int) -> int {
    if x == 0 && y == 0 {
        0
    } else {
        let ax = spec_abs(x);
        let ay = spec_abs(y);
        let a = if ay <= ax {
            spec_atan_unit(spec_div(ay, ax))
        } else {
            saturate(HALF_PI - spec_atan_unit(spec_div(ax, ay)))
        };
        let r = if x >= 0 {
            a
        } else {
            saturate(PI - a)
        };
        if y < 0 {
            -r
        } else {
            r
        }
    }
}

/// The inverse cosine of `v`, which is first clamped to `-1 ..= 1`: the
/// angle of the point `(v, sqrt(1 - v^2))`.
pub open spec fn spec_acos(v: int) -> int {
    let c = spec_clamp(v, -SCALE, SCALE as int);
    spec_atan2(spec_sqrt(saturate(SCALE - spec_mul(c, c))), c)
}

/// What term `k` of a series is divided by.
fn divisor(kind: Series, k: u32) -> (r: i64)
    requires
        1 <= k <= 64,
    ensures
        r == spec_divisor(kind, k as int),
        1 <= r <= 20_000,
{
    let j: i64 = k as i64;
    let even: i64 = 2 * j;
    assert(1 <= (even - 1) * even <= even * (even + 1) <= 20_000) by (nonlinear_arith)
        requires
            2 <= even <= 128,
    ;
    match kind {
        Series::Sine => even * (even + 1),
        Series::Cosine => (even - 1) * even,
        Series::Exponential => j,
    }
}

/// Sums the terms `1 ..= n` of a series in `x` from the inside out.
fn nested(kind: Series, x: Fixed, n: u32) -> (r: Fixed)
    requires
        n <= 64,
    ensures
        r@ == spec_nested(kind, x@, 1, n as int),
{
    let mut acc: Fixed = Fixed::one();
    let mut k: u32 = n;
    while k > 0
        invariant
            k <= n <= 64,
            acc@ == spec_nested(kind, x@, k + 1, n as int),
        decreases k,
    {
        acc = Fixed::one().add(x.mul(acc).div(Fixed::from_int(divisor(kind, k))));
        k = k - 1;
    }
    acc
}

/// Sums the series of the inverse tangents in `x` from the inside out.
fn odd(x: Fixed, n: u32) -> (r: Fixed)
    requires
        n <= 64,
    ensures
        r@ == spec_odd(x@, 0, n as int),
{
    let mut acc: Fixed = Fixed::zero();
    let mut k: u32 = n + 1;
    while k > 0
        invariant
            k <= n + 1,
            n <= 64,
            acc@ == spec_odd(x@, k as int, n as int),
        decreases k,
    {
        k = k - 1;
        let d: i64 = 2 * (k as i64) + 1;
        acc = Fixed::one().div(Fixed::from_int(d)).add(x.mul(acc));
    }
    acc
}

/// The sine of an angle of the first quadrant.
fn sin_first(y: Fixed) -> (r: Fixed)
    ensures
        r@ == spec_sin_first(y@),
{
    y.mul(nested(Series::Sine, y.mul(y).neg(), 6))
}

/// The cosine of an angle of the first quadrant.
fn cos_first(y: Fixed) -> (r: Fixed)
    ensures
        r@ == spec_cos_first(y@),
{
    nested(Series::Cosine, y.mul(y).neg(), 7)
}

/// The quadrant of an angle, and the angle within the quadrant.
fn quadrant(x: Fixed) -> (r: (u64, Fixed))
    ensures
        r.0 == spec_turn(x@) / (HALF_PI as int),
        r.1@ == spec_turn(x@) % (HALF_PI as int),
        r.0 <= 3,
{
    let rem: i64 = x.rem(Fixed::from_raw(TWO_PI)).raw();
    let turn: u64 = (if rem < 0 {
        rem + TWO_PI
    } else {
        rem
    }) as u64;
    let q: u64 = turn / (HALF_PI as u64);
    let y: u64 = turn % (HALF_PI as u64);
    (q, Fixed::from_raw(y as i64))
}

/// The sine of the angle `x`, between minus one and one.
pub fn sin(x: Fixed) -> (r: Fixed)
    ensures
        r@ == spec_sin(x@),
        -SCALE <= r@ <= SCALE,
{
    let (q, y) = quadrant(x);
    let v: Fixed = if q == 0 {
        sin_first(y)
    } else if q == 1 {
        cos_first(y)
    } else if q == 2 {
        sin_first(y).neg()
    } else {
        cos_first(y).neg()
    };
    v.clamp(Fixed::one().neg(), Fixed::one())
}

/// The cosine of the angle `x`, between minus one and one.
pub fn cos(x: Fixed) -> (r: Fixed)
    ensures
        r@ == spec_cos(x@),
        -SCALE <= r@ <= SCALE,
{
    let (q, y) = quadrant(x);
    let v: Fixed = if q == 0 {
        cos_first(y)
    } else if q == 1 {
        sin_first(y).neg()
    } else if q == 2 {
        cos_first(y).neg()
    } else {
        sin_first(y)
    };
    v.clamp(Fixed::one().neg(), Fixed::one())
}

/// The natural logarithm of `x`; the lower bound of the range where `x`
/// is not positive.
pub fn ln(x: Fixed) -> (r: Fixed)
    ensures
        r@ == spec_ln(x@),
{
    let raw: i64 = x.raw();
    if raw <= 0 {
        return Fixed::from_raw(-LIMIT);
    }
    let mut m: i64 = raw;
    let mut e: i64 = 0;
    while m >= 2 * SCALE
        invariant
            0 < m <= raw,
            0 <= e <= raw - m,
            spec_halve(raw as int, 0) == spec_halve(m as int, e as int),
        decreases m,
    {
        m = m / 2;
        e = e + 1;
    }
    let ghost halved = (m as int, e as int);
    while m < SCALE
        invariant
            0 < m < 2 * SCALE,
            0 <= e + m,
            e <= LIMIT,
            spec_double(halved.0, halved.1) == spec_double(m as int, e as int),
        decreases 2 * SCALE - m,
    {
        m = 2 * m;
        e = e - 1;
    }
    let mant: Fixed = Fixed::from_raw(m);
    let one: Fixed = Fixed::one();
    let t: Fixed = mant.sub(one).div(mant.add(one));
    let series: Fixed = odd(t.mul(t), 10);
    let frac: Fixed = Fixed::from_int(2).mul(t.mul(series));
    proof {
        crate::fixed::lemma_mul_bounds(e as int, LN_2 as int, 2 * LIMIT, LN_2 as int);
    }
    let whole: i128 = (e as i128) * (LN_2 as i128);
    Fixed::from_raw(crate::fixed::saturate_i128(whole + frac.raw() as i128))
}

/// `v` times two to the power `k`.
fn scale2(v: Fixed, k: i64) -> (r: Fixed)
    requires
        -64 <= k <= 64,
    ensures
        r@ == spec_scale2(v@, k as int),
{
    let mut cur: Fixed = v;
    let mut left: i64 = k;
    while left != 0
        invariant
            -64 <= left <= 64,
            spec_scale2(v@, k as int) == spec_scale2(cur@, left as int),
        decreases spec_abs(left as int),
    {
        if left > 0 {
            cur = Fixed::from_raw(crate::fixed::saturate_i128(2 * (cur.raw() as i128)));
            left = left - 1;
        } else {
            cur = Fixed::from_raw(crate::fixed::saturate_i128(floor_div(cur.raw() as i128, 2)));
            left = left + 1;
        }
    }
    cur
}

/// The exponential of `x`, saturating at the upper bound of the range.
pub fn exp(x: Fixed) -> (r: Fixed)
    ensures
        r@ == spec_exp(x@),
{
    let raw: i128 = x.raw() as i128;
    let k: i128 = floor_div(raw, LN_2 as i128);
    assert(k * LN_2 <= raw < (k + 1) * LN_2);
    assert(raw - k * LN_2 == (raw as int) % (LN_2 as int)) by (nonlinear_arith)
        requires
            k == (raw as int) / (LN_2 as int),
    ;
    if k > 40 {
        Fixed::infinity()
    } else if k < -40 {
        Fixed::zero()
    } else {
        let rest: i128 = raw - k * (LN_2 as i128);
        let base: Fixed = nested(Series::Exponential, Fixed::from_raw(rest as i64), 12);
        scale2(base, k as i64)
    }
}

/// `base` to the power `p`; a base that is not positive counts as zero.
pub fn powf(base: Fixed, p: Fixed) -> (r: Fixed)
    ensures
        r@ == spec_powf(base@, p@),
{
    if base.raw() <= 0 {
        if p.raw() == 0 {
            Fixed::one()
        } else if p.raw() > 0 {
            Fixed::zero()
        } else {
            Fixed::infinity()
        }
    } else {
        exp(p.mul(ln(base)))
    }
}

/// The inverse tangent of a small `u`.
fn atan_small(u: Fixed) -> (r: Fixed)
    ensures
        r@ == spec_atan_small(u@),
{
    u.mul(odd(u.mul(u).neg(), 11))
}

/// The inverse tangent of `t` with `0 <= t <= 1`.
fn atan_unit(t: Fixed) -> (r: Fixed)
    ensures
        r@ == spec_atan_unit(t@),
{
    if t.raw() > TAN_PI_8 {
        let one: Fixed = Fixed::one();
        Fixed::from_raw(QUARTER_PI).add(atan_small(t.sub(one).div(t.add(one))))
    } else {
        atan_small(t)
    }
}

/// The angle of the point `(x, y)` against the positive x axis.
pub fn atan2(y: Fixed, x: Fixed) -> (r: Fixed)
    ensures
        r@ == spec_atan2(y@, x@),
{
    if x.raw() == 0 && y.raw() == 0 {
        return Fixed::zero();
    }
    let ax: Fixed = x.abs();
    let ay: Fixed = y.abs();
    let a: Fixed = if ay.le(ax) {
        atan_unit(ay.div(ax))
    } else {
        Fixed::from_raw(HALF_PI).sub(atan_unit(ax.div(ay)))
    };
    let r: Fixed = if x.raw() >= 0 {
        a
    } else {
        Fixed::from_raw(PI).sub(a)
    };
    if y.raw() < 0 {
        r.neg()
    } else {
        r
    }
}

/// The inverse cosine of `v`, clamped to `-1 ..= 1` first.
pub fn acos(v: Fixed) -> (r: Fixed)
    ensures
        r@ == spec_acos(v@),
{
    let one: Fixed = Fixed::one();
    let c: Fixed = v.clamp(one.neg(), one);
    atan2(one.sub(c.mul(c)).sqrt(), c)
}

} // verus!
