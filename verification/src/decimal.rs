//! Fixed-point decimal numbers.
//!
//! Every quantity of a model (a bound, a coefficient, a tolerance, a value) is a
//! [`Decimal`]: a whole count of billionths, kept between minus and plus nine
//! billion. Sums, differences, products and quotients are exact where the exact
//! result can be held, are rounded to the nearest billionth where it falls
//! between two of them (a tie goes away from zero), and stop at the nearest end
//! of the range where it lies beyond it.

use vstd::prelude::*;

verus! {

/// Units per whole number: a `Decimal` carries nine fractional digits.
pub const SCALE: i64 = 1_000_000_000;

/// Largest magnitude a `Decimal` holds, in units. It stands for nine billion.
pub const LIMIT: i64 = 9_000_000_000_000_000_000;

/// The count nearest to `x` that a `Decimal` can hold.
pub open spec fn clamp(x: int) -> int {
    if x < -LIMIT {
        -(LIMIT as int)
    } else if x > LIMIT {
        LIMIT as int
    } else {
        x
    }
}

/// The distance of `x` from zero.
pub open spec fn magnitude(x: int) -> int {
    if x < 0 {
        -x
    } else {
        x
    }
}

/// The integer nearest to `n / d`, for positive `d`; a tie goes away from zero.
pub open spec fn round_div(n: int, d: int) -> int
    recommends
        d > 0,
{
    if n >= 0 {
        (n + d / 2) / d
    } else {
        -((-n + d / 2) / d)
    }
}

/// The count of the whole number nearest to the count `x`; a tie goes away from
/// zero.
pub open spec fn nearest_whole(x: int) -> int {
    round_div(x, SCALE as int) * SCALE
}

/// The count of the sum of the numbers with counts `a` and `b`.
pub open spec fn sum(a: int, b: int) -> int {
    clamp(a + b)
}

/// The count of the difference of the numbers with counts `a` and `b`.
pub open spec fn difference(a: int, b: int) -> int {
    clamp(a - b)
}

/// The count of the product of the numbers with counts `a` and `b`.
pub open spec fn product(a: int, b: int) -> int {
    clamp(round_div(a * b, SCALE as int))
}

/// The count of the quotient of the numbers with counts `a` and `b`, for
/// nonzero `b`.
pub open spec fn quotient(a: int, b: int) -> int
    recommends
        b != 0,
{
    if b > 0 {
        clamp(round_div(a * SCALE, b))
    } else {
        clamp(round_div(-(a * SCALE), -b))
    }
}

/// Whether `x` is a count that a `Decimal` can hold.
pub open spec fn representable(x: int) -> bool {
    -LIMIT <= x <= LIMIT
}

/// The nearest whole number stays within the range.
pub proof fn lemma_nearest_whole_representable(x: int)
    requires
        representable(x),
    ensures
        representable(nearest_whole(x)),
        magnitude(nearest_whole(x) - x) <= SCALE / 2,
        nearest_whole(nearest_whole(x)) == nearest_whole(x),
{
}

/// Multiplying by one or by minus one is exact.
pub proof fn lemma_product_by_unit(a: int)
    requires
        representable(a),
    ensures
        product(a, SCALE as int) == a,
        product(a, -(SCALE as int)) == -a,
{
    assert(a * (SCALE as int) == a * 1_000_000_000) by (nonlinear_arith);
    assert(a * (-(SCALE as int)) == -(a * 1_000_000_000)) by (nonlinear_arith);
}

/// A number with nine fractional digits, held as a count of billionths.
#[derive(Clone, Copy, Debug, PartialEq, Eq, PartialOrd, Ord, Hash)]
pub struct Decimal {
    raw: i64,
}

impl View for Decimal {
    type V = int;

    closed spec fn view(&self) -> int {
        self.raw as int
    }
}

impl Decimal {
    /// Every `Decimal` lies within the range.
    #[verifier::type_invariant]
    pub open spec fn in_range(self) -> bool {
        representable(self@)
    }

    /// The number of `raw` billionths, brought into the range.
    pub fn from_raw(raw: i64) -> (r: Decimal)
        ensures
            r@ == clamp(raw as int),
    {
        if raw < -LIMIT {
            Decimal { raw: -LIMIT }
        } else if raw > LIMIT {
            Decimal { raw: LIMIT }
        } else {
            Decimal { raw }
        }
    }

    /// The whole number `n`, brought into the range.
    pub fn from_int(n: i64) -> (r: Decimal)
        ensures
            r@ == clamp(n * SCALE),
    {
        let wide: i128 = (n as i128) * 1_000_000_000;
        Decimal::from_wide(wide)
    }

    /// Zero.
    pub fn zero() -> (r: Decimal)
        ensures
            r@ == 0,
    {
        Decimal { raw: 0 }
    }

    /// One.
    pub fn one() -> (r: Decimal)
        ensures
            r@ == SCALE,
    {
        Decimal { raw: SCALE }
    }

    /// The count of billionths.
    pub fn raw(&self) -> (r: i64)
        ensures
            r == self@,
            representable(r as int),
    {
        proof {
            use_type_invariant(self);
        }
        self.raw
    }

    /// The count of billionths, in a type wide enough for sums and products of
    /// two counts.
    pub fn wide(&self) -> (r: i128)
        ensures
            r == self@,
            representable(r as int),
    {
        proof {
            use_type_invariant(self);
        }
        self.raw as i128
    }

    /// The decimal nearest to a wide count.
    pub fn from_wide(x: i128) -> (r: Decimal)
        ensures
            r@ == clamp(x as int),
    {
        if x < -(LIMIT as i128) {
            Decimal { raw: -LIMIT }
        } else if x > LIMIT as i128 {
            Decimal { raw: LIMIT }
        } else {
            Decimal { raw: x as i64 }
        }
    }

    /// Whether the number is zero.
    pub fn is_zero(&self) -> (r: bool)
        ensures
            r == (self@ == 0),
    {
        self.raw == 0
    }

    /// The number with its sign changed.
    pub fn negated(self) -> (r: Decimal)
        ensures
            r@ == -self@,
    {
        proof {
            use_type_invariant(self);
        }
        Decimal { raw: -self.raw }
    }

    /// The distance from zero.
    pub fn abs(self) -> (r: Decimal)
        ensures
            r@ == magnitude(self@),
    {
        proof {
            use_type_invariant(self);
        }
        if self.raw < 0 {
            Decimal { raw: -self.raw }
        } else {
            self
        }
    }

    /// The larger of two numbers.
    pub fn max(self, other: Decimal) -> (r: Decimal)
        ensures
            r@ == if self@ >= other@ { self@ } else { other@ },
    {
        if self.raw >= other.raw {
            self
        } else {
            other
        }
    }

    /// The sum, stopped at the ends of the range.
    pub fn plus(self, other: Decimal) -> (r: Decimal)
        ensures
            r@ == sum(self@, other@),
    {
        Decimal::from_wide(self.wide() + other.wide())
    }

    /// The difference, stopped at the ends of the range.
    pub fn minus(self, other: Decimal) -> (r: Decimal)
        ensures
            r@ == difference(self@, other@),
    {
        Decimal::from_wide(self.wide() - other.wide())
    }

    /// The product, rounded to the nearest billionth and stopped at the ends of
    /// the range.
    pub fn times(self, other: Decimal) -> (r: Decimal)
        ensures
            r@ == product(self@, other@),
    {
        let a: i128 = self.wide();
        let b: i128 = other.wide();
        assert(-81_000_000_000_000_000_000_000_000_000_000_000_000 <= a * b
            <= 81_000_000_000_000_000_000_000_000_000_000_000_000) by (nonlinear_arith)
            requires
                -9_000_000_000_000_000_000 <= a <= 9_000_000_000_000_000_000,
                -9_000_000_000_000_000_000 <= b <= 9_000_000_000_000_000_000,
        ;
        let p: i128 = a * b;
        Decimal::from_wide(rounded_quotient(p, SCALE as i128))
    }

    /// The quotient, rounded to the nearest billionth and stopped at the ends of
    /// the range; `None` where `other` is zero.
    pub fn over(self, other: Decimal) -> (r: Option<Decimal>)
        ensures
            other@ == 0 <==> r is None,
            r matches Some(q) ==> q@ == quotient(self@, other@),
    {
        let b: i128 = other.wide();
        if b == 0 {
            return None;
        }
        let n: i128 = self.wide() * 1_000_000_000;
        if b > 0 {
            Some(Decimal::from_wide(rounded_quotient(n, b)))
        } else {
            Some(Decimal::from_wide(rounded_quotient(-n, -b)))
        }
    }

    /// The nearest whole number; a tie goes away from zero.
    pub fn round(self) -> (r: Decimal)
        ensures
            r@ == nearest_whole(self@),
    {
        let q: i128 = rounded_quotient(self.wide(), SCALE as i128);
        proof {
            lemma_nearest_whole_representable(self@);
        }
        Decimal { raw: (q * (SCALE as i128)) as i64 }
    }
}

/// `n / d` to the nearest integer, a tie going away from zero.
fn rounded_quotient(n: i128, d: i128) -> (q: i128)
    requires
        d > 0,
        -81_000_000_000_000_000_000_000_000_000_000_000_000 <= n
            <= 81_000_000_000_000_000_000_000_000_000_000_000_000,
        d <= LIMIT,
    ensures
        q == round_div(n as int, d as int),
{
    let half: u128 = (d / 2) as u128;
    let divisor: u128 = d as u128;
    if n >= 0 {
        let m: u128 = n as u128;
        let q: u128 = (m + half) / divisor;
        assert(q <= m + half) by (nonlinear_arith)
            requires
                q == (m + half) / (divisor as int),
                divisor >= 1,
        ;
        q as i128
    } else {
        let m: u128 = (-n) as u128;
        let q: u128 = (m + half) / divisor;
        assert(q <= m + half) by (nonlinear_arith)
            requires
                q == (m + half) / (divisor as int),
                divisor >= 1,
        ;
        -(q as i128)
    }
}

} // verus!
