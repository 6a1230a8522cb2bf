//! Saturating fixed-point numbers.
//!
//! A [`Scalar`] counts billionths: the raw integer `r` stands for `r / SCALE`.
//! Sums, differences, products and quotients are computed exactly on unbounded
//! integers, rounded towards zero where a division is involved, and then forced
//! into `[RAW_MIN, RAW_MAX]`. The largest raw value plays the role of infinity.
//!
//! Every operation is total. A computation whose exact intermediate values stay
//! within the range is not touched by saturation; beyond it, about nine billion
//! units, results are still determined but no longer those of the exact formula.

use vstd::prelude::*;

verus! {

/// Raw units per whole unit.
pub const SCALE: i64 = 1_000_000_000;

/// The raw value of one half.
pub const HALF: i64 = 500_000_000;

/// Largest raw value that arithmetic produces.
pub const RAW_MAX: i64 = i64::MAX;

/// Smallest raw value that arithmetic produces.
pub const RAW_MIN: i64 = -i64::MAX;

/// Forces an exact result into the representable, symmetric range.
pub open spec fn sat(x: int) -> int {
    if x > RAW_MAX {
        RAW_MAX as int
    } else if x < -RAW_MAX {
        -(RAW_MAX as int)
    } else {
        x
    }
}

/// Quotient of `n` by `d` rounded towards zero (`d != 0`).
pub open spec fn tdiv(n: int, d: int) -> int {
    if d > 0 {
        if n >= 0 {
            n / d
        } else {
            -((-n) / d)
        }
    } else {
        if n >= 0 {
            -(n / (-d))
        } else {
            (-n) / (-d)
        }
    }
}

/// `r` is the integer square root of `x`: the largest integer whose square is at most `x`.
pub open spec fn is_isqrt(x: int, r: int) -> bool {
    0 <= r && r * r <= x < (r + 1) * (r + 1)
}

/// The integer square root of `x` (for `x >= 0`).
pub open spec fn isqrt(x: int) -> int {
    choose|r: int| is_isqrt(x, r)
}

/// A fixed-point number: `raw` billionths.
#[derive(Clone, Copy, Debug, PartialEq, Eq, Structural)]
pub struct Scalar {
    pub raw: i64,
}

/// The scalar whose raw value is `sat(x)`.
pub open spec fn scalar_of(x: int) -> Scalar {
    Scalar { raw: sat(x) as i64 }
}

/// Quotient of two raw values as a raw value. Division by zero saturates by the
/// sign of the dividend; zero divided by zero is zero.
pub open spec fn raw_div(a: int, b: int) -> int {
    if b == 0 {
        if a > 0 {
            RAW_MAX as int
        } else if a < 0 {
            -(RAW_MAX as int)
        } else {
            0
        }
    } else {
        sat(tdiv(a * SCALE, b))
    }
}

/// Square root of a raw value as a raw value; negative inputs count as zero.
pub open spec fn raw_sqrt(a: int) -> int {
    if a <= 0 {
        0
    } else {
        isqrt(a * SCALE)
    }
}

/// Any two integer square roots of one number coincide.
pub proof fn lemma_isqrt_unique(x: int, r1: int, r2: int)
    by (nonlinear_arith)
    requires
        is_isqrt(x, r1),
        is_isqrt(x, r2),
    ensures
        r1 == r2,
{
    if r1 < r2 {
        assert((r1 + 1) * (r1 + 1) <= r2 * r2);
    } else if r2 < r1 {
        assert((r2 + 1) * (r2 + 1) <= r1 * r1);
    }
}

/// A number that satisfies the defining inequalities is the integer square root.
pub proof fn lemma_isqrt_is(x: int, r: int)
    requires
        is_isqrt(x, r),
    ensures
        isqrt(x) == r,
{
    lemma_isqrt_unique(x, isqrt(x), r);
}

/// Integer square root by bisection.
fn isqrt_u128(x: u128) -> (r: u128)
    requires
        x < 0x4000_0000_0000_0000_0000_0000u128,
    ensures
        r == isqrt(x as int),
        r < 0x8000_0000_0000u128,
{
    let mut lo: u128 = 0;
    let mut hi: u128 = 0x8000_0000_0000u128;
    assert(0x8000_0000_0000u128 * 0x8000_0000_0000u128 == 0x4000_0000_0000_0000_0000_0000u128)
        by (nonlinear_arith);
    while hi - lo > 1
        invariant
            lo < hi <= 0x8000_0000_0000u128,
            lo * lo <= x < hi * hi,
        decreases hi - lo,
    {
        let mid: u128 = lo + (hi - lo) / 2;
        assert(mid * mid < 0x4000_0000_0000_0000_0000_0000u128) by (nonlinear_arith)
            requires
                mid < 0x8000_0000_0000u128,
        ;
        if mid * mid <= x {
            lo = mid;
        } else {
            hi = mid;
        }
    }
    proof {
        lemma_isqrt_is(x as int, lo as int);
    }
    lo
}

/// Forces a wide exact result into a scalar.
fn saturate(x: i128) -> (r: Scalar)
    ensures
        r == scalar_of(x as int),
{
    if x > RAW_MAX as i128 {
        Scalar { raw: RAW_MAX }
    } else if x < -(RAW_MAX as i128) {
        Scalar { raw: -RAW_MAX }
    } else {
        Scalar { raw: x as i64 }
    }
}

impl Scalar {
    /// The scalar with the given raw value.
    pub fn new(raw: i64) -> (r: Scalar)
        ensures
            r.raw == raw,
    {
        Scalar { raw }
    }

    /// The whole number `n`, saturated.
    pub open spec fn from_int_spec(n: int) -> Scalar {
        scalar_of(n * SCALE)
    }

    /// The whole number `n`, saturated.
    pub fn from_int(n: i64) -> (r: Scalar)
        ensures
            r == Scalar::from_int_spec(n as int),
    {
        assert(-0x8000_0000_0000_0000 * 1_000_000_000 <= n * SCALE <= 0x8000_0000_0000_0000
            * 1_000_000_000)
            by (nonlinear_arith)
            requires
                -0x8000_0000_0000_0000 <= n < 0x8000_0000_0000_0000,
                SCALE == 1_000_000_000,
        ;
        saturate(n as i128 * SCALE as i128)
    }

    /// Zero.
    pub fn zero() -> (r: Scalar)
        ensures
            r.raw == 0,
    {
        Scalar { raw: 0 }
    }

    /// One.
    pub fn one() -> (r: Scalar)
        ensures
            r.raw == SCALE,
    {
        Scalar { raw: SCALE }
    }

    /// The largest scalar, which stands for infinity.
    pub fn infinity() -> (r: Scalar)
        ensures
            r.raw == RAW_MAX,
    {
        Scalar { raw: RAW_MAX }
    }

    /// The raw value.
    pub fn raw(self) -> (r: i64)
        ensures
            r == self.raw,
    {
        self.raw
    }

    /// The raw value lies in the symmetric range that arithmetic produces.
    pub open spec fn in_range(self) -> bool {
        RAW_MIN <= self.raw
    }

    /// The saturated sum.
    pub open spec fn plus(self, rhs: Scalar) -> Scalar {
        scalar_of(self.raw + rhs.raw)
    }

    /// The saturated difference.
    pub open spec fn minus(self, rhs: Scalar) -> Scalar {
        scalar_of(self.raw - rhs.raw)
    }

    /// The saturated negation.
    pub open spec fn negated(self) -> Scalar {
        scalar_of(-self.raw)
    }

    /// The saturated product, rounded towards zero.
    pub open spec fn times(self, rhs: Scalar) -> Scalar {
        scalar_of(tdiv(self.raw * rhs.raw, SCALE as int))
    }

    /// The saturated quotient, rounded towards zero.
    pub open spec fn over(self, rhs: Scalar) -> Scalar {
        Scalar { raw: raw_div(self.raw as int, rhs.raw as int) as i64 }
    }

    /// The square root, rounded down.
    pub open spec fn sqrt_spec(self) -> Scalar {
        Scalar { raw: raw_sqrt(self.raw as int) as i64 }
    }

    /// Square root, rounded down; zero for negative numbers.
    pub fn sqrt(self) -> (r: Scalar)
        ensures
            r == self.sqrt_spec(),
    {
        if self.raw <= 0 {
            Scalar { raw: 0 }
        } else {
            assert(0 < self.raw * SCALE < 0x4000_0000_0000_0000_0000_0000) by (nonlinear_arith)
                requires
                    0 < self.raw < 0x8000_0000_0000_0000,
                    SCALE == 1_000_000_000,
            ;
            let x: u128 = self.raw as u128 * SCALE as u128;
            let r: u128 = isqrt_u128(x);
            Scalar { raw: r as i64 }
        }
    }
}

impl core::ops::Add for Scalar {
    type Output = Scalar;

    /// Saturating sum.
    fn add(self, rhs: Scalar) -> (r: Scalar)
        ensures
            r == self.plus(rhs),
    {
        saturate(self.raw as i128 + rhs.raw as i128)
    }
}

impl vstd::std_specs::ops::AddSpecImpl for Scalar {
    open spec fn obeys_add_spec() -> bool {
        true
    }

    open spec fn add_req(self, rhs: Scalar) -> bool {
        true
    }

    open spec fn add_spec(self, rhs: Scalar) -> Scalar {
        self.plus(rhs)
    }
}

impl core::ops::Sub for Scalar {
    type Output = Scalar;

    /// Saturating difference.
    fn sub(self, rhs: Scalar) -> (r: Scalar)
        ensures
            r == self.minus(rhs),
    {
        saturate(self.raw as i128 - rhs.raw as i128)
    }
}

impl vstd::std_specs::ops::SubSpecImpl for Scalar {
    open spec fn obeys_sub_spec() -> bool {
        true
    }

    open spec fn sub_req(self, rhs: Scalar) -> bool {
        true
    }

    open spec fn sub_spec(self, rhs: Scalar) -> Scalar {
        self.minus(rhs)
    }
}

impl core::ops::Neg for Scalar {
    type Output = Scalar;

    /// Saturating negation.
    fn neg(self) -> (r: Scalar)
        ensures
            r == self.negated(),
    {
        saturate(-(self.raw as i128))
    }
}

impl vstd::std_specs::ops::NegSpecImpl for Scalar {
    open spec fn obeys_neg_spec() -> bool {
        true
    }

    open spec fn neg_req(self) -> bool {
        true
    }

    open spec fn neg_spec(self) -> Scalar {
        self.negated()
    }
}

impl core::ops::Mul for Scalar {
    type Output = Scalar;

    /// Saturating product, rounded towards zero.
    fn mul(self, rhs: Scalar) -> (r: Scalar)
        ensures
            r == self.times(rhs),
    {
        assert(-0x4000_0000_0000_0000_0000_0000_0000_0000 <= self.raw * rhs.raw
            <= 0x4000_0000_0000_0000_0000_0000_0000_0000) by (nonlinear_arith)
            requires
                -0x8000_0000_0000_0000 <= self.raw < 0x8000_0000_0000_0000,
                -0x8000_0000_0000_0000 <= rhs.raw < 0x8000_0000_0000_0000,
        ;
        let p: i128 = self.raw as i128 * rhs.raw as i128;
        saturate(p / (SCALE as i128))
    }
}

impl vstd::std_specs::ops::MulSpecImpl for Scalar {
    open spec fn obeys_mul_spec() -> bool {
        true
    }

    open spec fn mul_req(self, rhs: Scalar) -> bool {
        true
    }

    open spec fn mul_spec(self, rhs: Scalar) -> Scalar {
        self.times(rhs)
    }
}

impl core::ops::Div for Scalar {
    type Output = Scalar;

    /// Saturating quotient, rounded towards zero. Division by zero gives the
    /// infinity of the dividend's sign, and zero for zero.
    fn div(self, rhs: Scalar) -> (r: Scalar)
        ensures
            r == self.over(rhs),
    {
        if rhs.raw == 0 {
            if self.raw > 0 {
                Scalar { raw: RAW_MAX }
            } else if self.raw < 0 {
                Scalar { raw: -RAW_MAX }
            } else {
                Scalar { raw: 0 }
            }
        } else {
            assert(-0x8000_0000_0000_0000 * 1_000_000_000 <= self.raw * SCALE
                <= 0x8000_0000_0000_0000 * 1_000_000_000) by (nonlinear_arith)
                requires
                    -0x8000_0000_0000_0000 <= self.raw < 0x8000_0000_0000_0000,
                    SCALE == 1_000_000_000,
            ;
            let n: i128 = self.raw as i128 * SCALE as i128;
            let d: i128 = rhs.raw as i128;
            if d > 0 {
                saturate(n / d)
            } else {
                saturate((-n) / (-d))
            }
        }
    }
}

impl vstd::std_specs::ops::DivSpecImpl for Scalar {
    open spec fn obeys_div_spec() -> bool {
        true
    }

    open spec fn div_req(self, rhs: Scalar) -> bool {
        true
    }

    open spec fn div_spec(self, rhs: Scalar) -> Scalar {
        self.over(rhs)
    }
}

/// Every number from zero on has an integer square root.
pub proof fn lemma_isqrt_exists(x: int)
    requires
        x >= 0,
    ensures
        is_isqrt(x, isqrt(x)),
    decreases x,
{
    if x == 0 {
        assert(is_isqrt(0, 0));
    } else {
        lemma_isqrt_exists(x - 1);
        let r = isqrt(x - 1);
        if (r + 1) * (r + 1) <= x {
            assert(is_isqrt(x, r + 1)) by (nonlinear_arith)
                requires
                    0 <= r,
                    x - 1 < (r + 1) * (r + 1),
                    (r + 1) * (r + 1) <= x,
            ;
        } else {
            assert(is_isqrt(x, r));
        }
    }
}

/// Rounding towards zero keeps the order of the dividends.
pub proof fn lemma_tdiv_monotone(x: int, y: int, d: int)
    requires
        d > 0,
        x <= y,
    ensures
        tdiv(x, d) <= tdiv(y, d),
{
    if x >= 0 {
        vstd::arithmetic::div_mod::lemma_div_is_ordered(x, y, d);
    } else if y >= 0 {
        vstd::arithmetic::div_mod::lemma_div_pos_is_pos(-x, d);
        vstd::arithmetic::div_mod::lemma_div_pos_is_pos(y, d);
    } else {
        vstd::arithmetic::div_mod::lemma_div_is_ordered(-y, -x, d);
    }
}

/// Rounding towards zero commutes with negating the dividend.
pub proof fn lemma_tdiv_negated(x: int, d: int)
    requires
        d > 0,
    ensures
        tdiv(-x, d) == -tdiv(x, d),
{
    if x == 0 {
        assert(0int / d == 0) by (nonlinear_arith)
            requires
                d > 0,
        ;
    }
}

/// The remainder that rounding towards zero leaves is smaller in size than the
/// divisor and has the sign of the dividend.
pub proof fn lemma_tdiv_remainder(n: int, d: int)
    requires
        d != 0,
    ensures
        n >= 0 ==> 0 <= n - tdiv(n, d) * d < (if d > 0 {
            d
        } else {
            -d
        }),
        n < 0 ==> 0 <= tdiv(n, d) * d - n < (if d > 0 {
            d
        } else {
            -d
        }),
{
    let m = if n >= 0 {
        n
    } else {
        -n
    };
    let e = if d > 0 {
        d
    } else {
        -d
    };
    vstd::arithmetic::div_mod::lemma_fundamental_div_mod(m, e);
    vstd::arithmetic::div_mod::lemma_mod_bound(m, e);
    let q = m / e;
    assert(m == e * q + m % e);
    assert(tdiv(n, d) * d == (if n >= 0 {
        e * q
    } else {
        -(e * q)
    })) by (nonlinear_arith)
        requires
            d != 0,
            e == (if d > 0 {
                d
            } else {
                -d
            }),
            tdiv(n, d) == (if (n >= 0) == (d > 0) {
                q
            } else {
                -q
            }),
    ;
}

impl Scalar {
    /// A product that does not saturate is the exact product rounded towards
    /// zero: it is off by less than one raw unit.
    pub proof fn lemma_times_accuracy(self, rhs: Scalar)
        requires
            RAW_MIN <= tdiv(self.raw * rhs.raw, SCALE as int) <= RAW_MAX,
        ensures
            self.raw * rhs.raw >= 0 ==> 0 <= self.raw * rhs.raw - self.times(rhs).raw * SCALE
                < SCALE,
            self.raw * rhs.raw < 0 ==> 0 <= self.times(rhs).raw * SCALE - self.raw * rhs.raw
                < SCALE,
    {
        lemma_tdiv_remainder(self.raw * rhs.raw, SCALE as int);
    }

    /// A quotient that does not saturate is the exact quotient rounded towards
    /// zero: multiplied back, it is off by less than the divisor.
    pub proof fn lemma_over_accuracy(self, rhs: Scalar)
        requires
            rhs.raw != 0,
            RAW_MIN <= tdiv(self.raw * SCALE, rhs.raw as int) <= RAW_MAX,
        ensures
            self.raw >= 0 ==> 0 <= self.raw * SCALE - self.over(rhs).raw * rhs.raw < (if rhs.raw
                > 0 {
                rhs.raw as int
            } else {
                -rhs.raw
            }),
            self.raw < 0 ==> 0 <= self.over(rhs).raw * rhs.raw - self.raw * SCALE < (if rhs.raw
                > 0 {
                rhs.raw as int
            } else {
                -rhs.raw
            }),
    {
        lemma_tdiv_remainder(self.raw * SCALE, rhs.raw as int);
        assert(self.raw >= 0 <==> self.raw * SCALE >= 0) by (nonlinear_arith)
            requires
                SCALE > 0,
        ;
    }

    /// A square root of a scalar that is not negative is the exact root rounded
    /// down: its square does not exceed the scalar, the next raw value's does.
    pub proof fn lemma_sqrt_accuracy(self)
        requires
            self.raw >= 0,
        ensures
            is_isqrt(self.raw * SCALE, self.sqrt_spec().raw as int),
    {
        if self.raw > 0 {
            assert(self.raw * SCALE >= 0) by (nonlinear_arith)
                requires
                    self.raw > 0,
                    SCALE > 0,
            ;
            lemma_isqrt_exists(self.raw * SCALE);
            assert(self.raw * SCALE < 0x4000_0000_0000_0000_0000_0000) by (nonlinear_arith)
                requires
                    0 < self.raw < 0x8000_0000_0000_0000,
                    SCALE == 1_000_000_000,
            ;
            let r = isqrt(self.raw * SCALE);
            assert(r < 0x8000_0000_0000) by (nonlinear_arith)
                requires
                    0 <= r,
                    r * r < 0x4000_0000_0000_0000_0000_0000,
            ;
        } else {
            assert(self.raw * SCALE == 0) by (nonlinear_arith)
                requires
                    self.raw == 0,
            ;
        }
    }

    /// A product of a scalar with itself is not negative.
    pub proof fn lemma_square_nonnegative(self)
        ensures
            self.times(self).raw >= 0,
    {
        assert(self.raw * self.raw >= 0) by (nonlinear_arith);
        vstd::arithmetic::div_mod::lemma_div_pos_is_pos(self.raw * self.raw, SCALE as int);
    }

    /// A square root is not negative.
    pub proof fn lemma_sqrt_nonnegative(self)
        ensures
            self.sqrt_spec().raw >= 0,
    {
        if self.raw >= 0 {
            self.lemma_sqrt_accuracy();
        }
    }

    /// A product does not depend on the order of its factors.
    pub proof fn lemma_times_commutes(self, rhs: Scalar)
        ensures
            self.times(rhs) == rhs.times(self),
    {
        assert(self.raw * rhs.raw == rhs.raw * self.raw) by (nonlinear_arith);
    }

    /// Negating a factor negates the product.
    pub proof fn lemma_times_negated(self, rhs: Scalar)
        requires
            self.in_range(),
        ensures
            self.negated().times(rhs).raw == -self.times(rhs).raw,
    {
        assert((-self.raw) * rhs.raw == -(self.raw * rhs.raw)) by (nonlinear_arith);
        lemma_tdiv_negated(self.raw * rhs.raw, SCALE as int);
    }

    /// `n` times a scalar, divided by the whole number `n`, is the scalar.
    pub proof fn lemma_over_multiple(self, c: Scalar, n: nat)
        requires
            1 <= n <= i32::MAX,
            self.raw == n * c.raw,
            c.in_range(),
        ensures
            self.over(Scalar::from_int_spec(n as int)) == c,
    {
        let d = n * SCALE;
        assert(0 < d <= RAW_MAX) by (nonlinear_arith)
            requires
                1 <= n <= i32::MAX,
                d == n * SCALE,
                SCALE == 1_000_000_000,
                RAW_MAX == 0x7fff_ffff_ffff_ffff,
        ;
        if c.raw >= 0 {
            assert(self.raw * SCALE == d * c.raw && self.raw * SCALE >= 0) by (nonlinear_arith)
                requires
                    self.raw == n * c.raw,
                    d == n * SCALE,
                    c.raw >= 0,
                    n >= 1,
                    SCALE > 0,
            ;
            vstd::arithmetic::div_mod::lemma_div_multiples_vanish(c.raw as int, d as int);
        } else {
            assert(-(self.raw * SCALE) == d * (-c.raw) && self.raw * SCALE < 0)
                by (nonlinear_arith)
                requires
                    self.raw == n * c.raw,
                    d == n * SCALE,
                    c.raw < 0,
                    n >= 1,
                    SCALE > 0,
            ;
            vstd::arithmetic::div_mod::lemma_div_multiples_vanish(-c.raw as int, d as int);
        }
    }

    /// Dividing by a positive scalar keeps the order of the dividends.
    pub proof fn lemma_over_monotone(self, other: Scalar, divisor: Scalar)
        requires
            divisor.raw > 0,
            self.raw <= other.raw,
        ensures
            self.over(divisor).raw <= other.over(divisor).raw,
    {
        assert(self.raw * SCALE <= other.raw * SCALE) by (nonlinear_arith)
            requires
                self.raw <= other.raw,
                SCALE > 0,
        ;
        lemma_tdiv_monotone(self.raw * SCALE, other.raw * SCALE, divisor.raw as int);
    }

    /// Taking a non-negative amount away gives no more than adding it.
    pub proof fn lemma_minus_le_plus(self, amount: Scalar)
        requires
            amount.raw >= 0,
        ensures
            self.minus(amount).raw <= self.plus(amount).raw,
    {
    }
}

} // verus!
