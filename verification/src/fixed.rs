//! Saturating decimal fixed-point numbers.
//!
//! A [`Fixed`] stands for a real number as a count of billionths, held in the
//! range `-LIMIT ..= LIMIT`. Every operation is total: a result that leaves the
//! range is pinned to the nearest bound, and `LIMIT` itself serves as the
//! "effectively infinite" distance. Products and quotients round towards
//! negative infinity.

use vstd::arithmetic::div_mod::lemma_fundamental_div_mod_converse;
use vstd::prelude::*;

verus! {

/// Raw units per whole: a raw value `r` stands for `r / SCALE`.
pub const SCALE: i64 = 1_000_000_000;

/// Largest magnitude of a raw value; stands for "infinitely far".
pub const LIMIT: i64 = 1_000_000_000_000_000_000;

/// Pins an integer to the representable range.
pub open spec fn saturate(x: int) -> int {
    if x < -LIMIT {
        -(LIMIT as int)
    } else if x > LIMIT {
        LIMIT as int
    } else {
        x
    }
}

pub open spec fn spec_abs(x: int) -> int {
    if x < 0 {
        -x
    } else {
        x
    }
}

pub open spec fn spec_min(a: int, b: int) -> int {
    if a < b {
        a
    } else {
        b
    }
}

pub open spec fn spec_max(a: int, b: int) -> int {
    if a > b {
        a
    } else {
        b
    }
}

/// `max(lo, min(x, hi))`: the usual clamp wherever `lo <= hi`, and `lo` otherwise.
pub open spec fn spec_clamp(x: int, lo: int, hi: int) -> int {
    spec_max(lo, spec_min(x, hi))
}

/// Raw product: the exact product of the two reals, rounded down to a billionth.
pub open spec fn spec_mul(a: int, b: int) -> int {
    saturate(a * b / (SCALE as int))
}

/// Raw quotient, rounded down to a billionth. A zero divisor gives the bound
/// on the side of the dividend, and zero for `0 / 0`.
pub open spec fn spec_div(a: int, b: int) -> int {
    if b == 0 {
        if a > 0 {
            LIMIT as int
        } else if a < 0 {
            -(LIMIT as int)
        } else {
            0
        }
    } else if b > 0 {
        saturate(a * SCALE / b)
    } else {
        saturate((-a) * SCALE / (-b))
    }
}

/// Remainder of the truncating division: it has the sign of the dividend and
/// a magnitude below that of the divisor. A zero divisor gives zero.
pub open spec fn spec_rem(a: int, b: int) -> int {
    if b == 0 {
        0
    } else if a < 0 {
        -(spec_abs(a) % spec_abs(b))
    } else {
        a % spec_abs(b)
    }
}

/// The whole part: `a` with its fraction cut off towards zero.
pub open spec fn spec_trunc(a: int) -> int {
    a - spec_rem(a, SCALE as int)
}

/// Integer square root: the largest `r` with `r * r <= n`, and zero for `n <= 0`.
pub open spec fn isqrt(n: int) -> int
    decreases n,
{
    if n <= 0 {
        0
    } else {
        let r = 2 * isqrt(n / 4);
        if (r + 1) * (r + 1) <= n {
            r + 1
        } else {
            r
        }
    }
}

/// Raw square root, rounded down to a billionth; zero for a negative argument.
pub open spec fn spec_sqrt(a: int) -> int {
    if a <= 0 {
        0
    } else {
        isqrt(a * SCALE)
    }
}

/// Linear blend `a * (1 - f) + b * f`, each product rounded on its own.
pub open spec fn spec_mix(a: int, b: int, f: int) -> int {
    saturate(spec_mul(a, saturate(SCALE - f)) + spec_mul(b, f))
}

/// `isqrt(n)` is the floor of the square root of `n`.
pub proof fn lemma_isqrt_bracket(n: int)
    requires
        n >= 0,
    ensures
        isqrt(n) >= 0,
        isqrt(n) * isqrt(n) <= n,
        n < (isqrt(n) + 1) * (isqrt(n) + 1),
    decreases n,
{
    if n > 0 {
        let q = isqrt(n / 4);
        lemma_isqrt_bracket(n / 4);
        let r = 2 * q;
        assert(r * r <= n && n < (r + 2) * (r + 2)) by (nonlinear_arith)
            requires
                q >= 0,
                q * q <= n / 4,
                n / 4 < (q + 1) * (q + 1),
                r == 2 * q,
                n >= 0,
        ;
        assert((r + 1) * (r + 1) > n ==> r * r <= n);
        assert((r + 1 + 1) * (r + 1 + 1) == (r + 2) * (r + 2)) by (nonlinear_arith);
    } else {
        assert(isqrt(n) == 0);
    }
}

/// The floor of the square root is unique.
pub proof fn lemma_isqrt_unique(n: int, r: int)
    requires
        r >= 0,
        r * r <= n,
        n < (r + 1) * (r + 1),
    ensures
        r == isqrt(n),
{
    lemma_isqrt_bracket(n);
    let s = isqrt(n);
    assert(r == s) by (nonlinear_arith)
        requires
            r >= 0,
            s >= 0,
            r * r <= n,
            n < (r + 1) * (r + 1),
            s * s <= n,
            n < (s + 1) * (s + 1),
    ;
}

/// The square root grows with its argument.
pub proof fn lemma_isqrt_monotonic(a: int, b: int)
    requires
        0 <= a <= b,
    ensures
        isqrt(a) <= isqrt(b),
{
    lemma_isqrt_bracket(a);
    lemma_isqrt_bracket(b);
    let r = isqrt(a);
    let s = isqrt(b);
    assert(r <= s) by (nonlinear_arith)
        requires
            r >= 0,
            s >= 0,
            r * r <= a,
            a <= b,
            b < (s + 1) * (s + 1),
    ;
}

/// A product of two bounded factors is bounded by the product of the bounds.
pub proof fn lemma_mul_bounds(a: int, b: int, la: int, lb: int)
    requires
        -la <= a <= la,
        -lb <= b <= lb,
    ensures
        -(la * lb) <= a * b <= la * lb,
{
    assert(-(la * lb) <= a * b <= la * lb) by (nonlinear_arith)
        requires
            -la <= a <= la,
            -lb <= b <= lb,
    ;
}

/// Floor division by a positive divisor.
pub fn floor_div(p: i128, d: i128) -> (q: i128)
    requires
        d > 0,
        p > i128::MIN,
    ensures
        q == p / d,
        q * d <= p < (q + 1) * d,
{
    proof {
        assert(((p as int) / (d as int)) * d <= p < ((p as int) / (d as int) + 1) * d)
            by (nonlinear_arith)
            requires
                d > 0,
        ;
    }
    if p >= 0 {
        let n: u128 = p as u128;
        let m: u128 = d as u128;
        let q: u128 = n / m;
        assert(q <= n) by (nonlinear_arith)
            requires
                q == n / m,
                m > 0,
        ;
        q as i128
    } else {
        let n: u128 = (-p) as u128;
        let m: u128 = d as u128;
        let q: u128 = n / m;
        let r: u128 = n % m;
        assert(q <= n) by (nonlinear_arith)
            requires
                q == n / m,
                m > 0,
        ;
        assert(n == q * m + r) by (nonlinear_arith)
            requires
                q == n / m,
                r == n % m,
                m > 0,
        ;
        if r == 0 {
            proof {
                assert((p as int) == (-(q as int)) * (d as int) + 0) by (nonlinear_arith)
                    requires
                        n == q * m,
                        n == -p,
                        m == d,
                ;
                lemma_fundamental_div_mod_converse(p as int, d as int, -(q as int), 0);
            }
            -(q as i128)
        } else {
            proof {
                assert((p as int) == (-(q as int) - 1) * (d as int) + (d as int - r as int))
                    by (nonlinear_arith)
                    requires
                        n == q * m + r,
                        n == -p,
                        m == d,
                ;
                lemma_fundamental_div_mod_converse(
                    p as int,
                    d as int,
                    -(q as int) - 1,
                    d as int - r as int,
                );
            }
            -(q as i128) - 1
        }
    }
}

/// Floor of the square root of an unsigned integer.
pub fn isqrt_u128(n: u128) -> (r: u128)
    ensures
        r == isqrt(n as int),
        r * r <= n < (r + 1) * (r + 1),
        r < 0x1_0000_0000_0000_0000,
{
    let mut lo: u128 = 0;
    let mut hi: u128 = 0x1_0000_0000_0000_0000;
    assert(lo * lo <= n < hi * hi) by (nonlinear_arith)
        requires
            lo == 0,
            hi == 0x1_0000_0000_0000_0000,
            n <= u128::MAX,
    ;
    while hi - lo > 1
        invariant
            lo < hi <= 0x1_0000_0000_0000_0000,
            lo * lo <= n < hi * hi,
        decreases hi - lo,
    {
        let mid: u128 = lo + (hi - lo) / 2;
        assert(mid * mid <= u128::MAX) by (nonlinear_arith)
            requires
                mid < 0x1_0000_0000_0000_0000,
        ;
        if mid * mid <= n {
            lo = mid;
        } else {
            hi = mid;
        }
    }
    proof {
        assert(hi == lo + 1);
        lemma_isqrt_unique(n as int, lo as int);
    }
    lo
}

/// Pins a wide integer to the representable range.
pub fn saturate_i128(x: i128) -> (r: i64)
    ensures
        r == saturate(x as int),
        -LIMIT <= r <= LIMIT,
{
    if x < -(LIMIT as i128) {
        -LIMIT
    } else if x > LIMIT as i128 {
        LIMIT
    } else {
        x as i64
    }
}

/// A real number in billionths, saturating at `LIMIT`.
#[derive(Clone, Copy, Debug, PartialEq, Eq, Structural)]
pub struct Fixed {
    raw: i64,
}

impl View for Fixed {
    type V = int;

    /// The raw value: the number of billionths that the value stands for.
    closed spec fn view(&self) -> int {
        saturate(self.raw as int)
    }
}

impl Fixed {
    /// Every value lies in the representable range.
    pub proof fn lemma_bounded(self)
        ensures
            -LIMIT <= self@ <= LIMIT,
    {
    }

    /// The value of `raw` billionths, pinned to the representable range.
    pub fn from_raw(raw: i64) -> (r: Fixed)
        ensures
            r@ == saturate(raw as int),
    {
        Fixed { raw: saturate_i128(raw as i128) }
    }

    /// The whole number `n`, pinned to the representable range.
    pub fn from_int(n: i64) -> (r: Fixed)
        ensures
            r@ == saturate(n * SCALE),
    {
        proof {
            lemma_mul_bounds(n as int, SCALE as int, 0x8000_0000_0000_0000, SCALE as int);
        }
        Fixed { raw: saturate_i128((n as i128) * (SCALE as i128)) }
    }

    /// The number of billionths that the value stands for.
    pub fn raw(self) -> (r: i64)
        ensures
            r == self@,
            -LIMIT <= r <= LIMIT,
    {
        saturate_i128(self.raw as i128)
    }

    pub fn zero() -> (r: Fixed)
        ensures
            r@ == 0,
    {
        Fixed { raw: 0 }
    }

    pub fn one() -> (r: Fixed)
        ensures
            r@ == SCALE,
    {
        Fixed { raw: SCALE }
    }

    /// The upper bound of the range, which stands for "infinitely far".
    pub fn infinity() -> (r: Fixed)
        ensures
            r@ == LIMIT,
    {
        Fixed { raw: LIMIT }
    }

    pub fn add(self, other: Fixed) -> (r: Fixed)
        ensures
            r@ == saturate(self@ + other@),
    {
        Fixed { raw: saturate_i128(self.raw() as i128 + other.raw() as i128) }
    }

    pub fn sub(self, other: Fixed) -> (r: Fixed)
        ensures
            r@ == saturate(self@ - other@),
    {
        Fixed { raw: saturate_i128(self.raw() as i128 - other.raw() as i128) }
    }

    pub fn neg(self) -> (r: Fixed)
        ensures
            r@ == -self@,
    {
        Fixed { raw: -self.raw() }
    }

    pub fn abs(self) -> (r: Fixed)
        ensures
            r@ == spec_abs(self@),
    {
        let a: i64 = self.raw();
        if a < 0 {
            Fixed { raw: -a }
        } else {
            Fixed { raw: a }
        }
    }

    pub fn min(self, other: Fixed) -> (r: Fixed)
        ensures
            r@ == spec_min(self@, other@),
            r == (if self@ < other@ { self } else { other }),
    {
        if self.raw() < other.raw() {
            self
        } else {
            other
        }
    }

    pub fn max(self, other: Fixed) -> (r: Fixed)
        ensures
            r@ == spec_max(self@, other@),
            r == (if self@ > other@ { self } else { other }),
    {
        if self.raw() > other.raw() {
            self
        } else {
            other
        }
    }

    /// `max(lo, min(self, hi))`.
    pub fn clamp(self, lo: Fixed, hi: Fixed) -> (r: Fixed)
        ensures
            r@ == spec_clamp(self@, lo@, hi@),
    {
        lo.max(self.min(hi))
    }

    pub fn lt(self, other: Fixed) -> (r: bool)
        ensures
            r == (self@ < other@),
    {
        self.raw() < other.raw()
    }

    pub fn gt(self, other: Fixed) -> (r: bool)
        ensures
            r == (self@ > other@),
    {
        self.raw() > other.raw()
    }

    pub fn le(self, other: Fixed) -> (r: bool)
        ensures
            r == (self@ <= other@),
    {
        self.raw() <= other.raw()
    }

    pub fn ge(self, other: Fixed) -> (r: bool)
        ensures
            r == (self@ >= other@),
    {
        self.raw() >= other.raw()
    }

    /// Whether the two stand for the same number.
    pub fn same(self, other: Fixed) -> (r: bool)
        ensures
            r == (self@ == other@),
    {
        self.raw() == other.raw()
    }

    pub fn mul(self, other: Fixed) -> (r: Fixed)
        ensures
            r@ == spec_mul(self@, other@),
    {
        let a: i128 = self.raw() as i128;
        let b: i128 = other.raw() as i128;
        proof {
            lemma_mul_bounds(a as int, b as int, LIMIT as int, LIMIT as int);
        }
        let p: i128 = a * b;
        Fixed { raw: saturate_i128(floor_div(p, SCALE as i128)) }
    }

    pub fn div(self, other: Fixed) -> (r: Fixed)
        ensures
            r@ == spec_div(self@, other@),
    {
        let a: i128 = self.raw() as i128;
        let b: i128 = other.raw() as i128;
        proof {
            lemma_mul_bounds(a as int, SCALE as int, LIMIT as int, SCALE as int);
            lemma_mul_bounds(-a as int, SCALE as int, LIMIT as int, SCALE as int);
        }
        if b == 0 {
            if a > 0 {
                Fixed { raw: LIMIT }
            } else if a < 0 {
                Fixed { raw: -LIMIT }
            } else {
                Fixed { raw: 0 }
            }
        } else if b > 0 {
            Fixed { raw: saturate_i128(floor_div(a * (SCALE as i128), b)) }
        } else {
            Fixed { raw: saturate_i128(floor_div((-a) * (SCALE as i128), -b)) }
        }
    }

    /// Remainder of the truncating division, as `%` gives it.
    pub fn rem(self, other: Fixed) -> (r: Fixed)
        ensures
            r@ == spec_rem(self@, other@),
    {
        let a: i64 = self.raw();
        let b: i64 = other.raw();
        if b == 0 {
            Fixed { raw: 0 }
        } else {
            let ua: u64 = (if a < 0 { -a } else { a }) as u64;
            let ub: u64 = (if b < 0 { -b } else { b }) as u64;
            let m: u64 = ua % ub;
            if a < 0 {
                Fixed { raw: -(m as i64) }
            } else {
                Fixed { raw: m as i64 }
            }
        }
    }

    /// The whole part, cut off towards zero.
    pub fn trunc(self) -> (r: Fixed)
        ensures
            r@ == spec_trunc(self@),
    {
        let a: i64 = self.raw();
        let f: i64 = self.rem(Fixed::one()).raw();
        Fixed { raw: a - f }
    }

    /// Square root, rounded down; zero for a negative argument.
    pub fn sqrt(self) -> (r: Fixed)
        ensures
            r@ == spec_sqrt(self@),
            r@ >= 0,
            self@ > 0 ==> r@ * r@ <= self@ * SCALE < (r@ + 1) * (r@ + 1),
    {
        let a: i64 = self.raw();
        if a <= 0 {
            Fixed { raw: 0 }
        } else {
            proof {
                lemma_mul_bounds(a as int, SCALE as int, LIMIT as int, SCALE as int);
            }
            let n: u128 = (a as u128) * (SCALE as u128);
            let s: u128 = isqrt_u128(n);
            proof {
                lemma_isqrt_monotonic(n as int, LIMIT * LIMIT);
                lemma_isqrt_unique(LIMIT * LIMIT, LIMIT as int);
            }
            Fixed { raw: s as i64 }
        }
    }
}

} // verus!
