//! Exact price values.
//!
//! A shop page carries a price as a plain digit string (for example cents),
//! and a per-shop factor turns that integer into the displayed amount.  To
//! keep the arithmetic exact, a price is a non-negative rational: the parsed
//! integer scaled by the configured factor.

use vstd::prelude::*;

verus! {

/// Mathematical value of a [`Price`]: a fraction `num / den`.
pub ghost struct PriceVal {
    pub num: int,
    pub den: int,
}

/// `a <= b` on fractions, by cross-multiplication.
pub open spec fn price_le(a: PriceVal, b: PriceVal) -> bool {
    a.num * b.den <= b.num * a.den
}

/// `a < b` on fractions, by cross-multiplication.
pub open spec fn price_lt(a: PriceVal, b: PriceVal) -> bool {
    a.num * b.den < b.num * a.den
}

/// `a == b` as fractions (`1/2` and `2/4` are the same value).
pub open spec fn price_eq(a: PriceVal, b: PriceVal) -> bool {
    a.num * b.den == b.num * a.den
}

/// A non-negative rational price: `num / den`.
///
/// The price factor of a shop is a `Price` too (the amount a single digit
/// unit is worth), so a factor of one hundredth is `Price::new(1, 100)`.
#[derive(Clone, Copy, Debug, PartialEq, Eq, Structural)]
pub struct Price {
    num: u64,
    den: u64,
}

impl View for Price {
    type V = PriceVal;

    closed spec fn view(&self) -> PriceVal {
        PriceVal { num: self.num as int, den: self.den as int }
    }
}

impl Price {
    /// A price is usable when its denominator is positive.
    pub open spec fn wf(&self) -> bool {
        self@.den > 0
    }

    /// Builds the fraction `num / den`.
    pub fn new(num: u64, den: u64) -> (r: Price)
        requires
            den > 0,
        ensures
            r@.num == num,
            r@.den == den,
            r.wf(),
    {
        Price { num, den }
    }

    /// The neutral factor: one whole unit per digit unit.
    pub fn one() -> (r: Price)
        ensures
            r@.num == 1,
            r@.den == 1,
            r.wf(),
    {
        Price { num: 1, den: 1 }
    }

    /// Numerator of the fraction.
    pub fn num(&self) -> (r: u64)
        ensures
            r == self@.num,
    {
        self.num
    }

    /// Denominator of the fraction.
    pub fn den(&self) -> (r: u64)
        ensures
            r == self@.den,
    {
        self.den
    }

    /// Scales an integer amount by this factor: the extracted digit value
    /// times the shop's price factor.  Fails only when the numerator would
    /// not fit in a machine word.
    pub fn of_amount(amount: u64, factor: &Price) -> (r: Option<Price>)
        requires
            factor.wf(),
        ensures
            r is Some <==> amount * factor@.num <= u64::MAX,
            r matches Some(p) ==> p@.num == amount * factor@.num && p@.den == factor@.den
                && p.wf(),
    {
        match amount.checked_mul(factor.num) {
            Some(num) => Some(Price { num, den: factor.den }),
            None => None,
        }
    }

    /// Compares two prices as fractions: `self <= other`.
    pub fn le(&self, other: &Price) -> (r: bool)
        requires
            self.wf(),
            other.wf(),
        ensures
            r == price_le(self@, other@),
    {
        proof {
            lemma_mul_fits_u128(self.num as int, other.den as int);
            lemma_mul_fits_u128(other.num as int, self.den as int);
        }
        let left: u128 = (self.num as u128) * (other.den as u128);
        let right: u128 = (other.num as u128) * (self.den as u128);
        left <= right
    }

    /// Compares two prices for equal value as fractions, whatever their
    /// representations.
    pub fn same_value(&self, other: &Price) -> (r: bool)
        requires
            self.wf(),
            other.wf(),
        ensures
            r == price_eq(self@, other@),
    {
        proof {
            lemma_mul_fits_u128(self.num as int, other.den as int);
            lemma_mul_fits_u128(other.num as int, self.den as int);
        }
        let left: u128 = (self.num as u128) * (other.den as u128);
        let right: u128 = (other.num as u128) * (self.den as u128);
        left == right
    }

    /// Compares two prices as fractions: `self < other`.
    pub fn lt(&self, other: &Price) -> (r: bool)
        requires
            self.wf(),
            other.wf(),
        ensures
            r == price_lt(self@, other@),
    {
        proof {
            lemma_mul_fits_u128(self.num as int, other.den as int);
            lemma_mul_fits_u128(other.num as int, self.den as int);
        }
        let left: u128 = (self.num as u128) * (other.den as u128);
        let right: u128 = (other.num as u128) * (self.den as u128);
        left < right
    }
}

/// The fraction order is transitive on usable prices.
pub proof fn lemma_price_le_trans(a: PriceVal, b: PriceVal, c: PriceVal)
    requires
        a.den > 0,
        b.den > 0,
        c.den > 0,
        price_le(a, b),
        price_le(b, c),
    ensures
        price_le(a, c),
{
    assert(a.num * c.den <= c.num * a.den) by (nonlinear_arith)
        requires
            a.den > 0,
            b.den > 0,
            c.den > 0,
            a.num * b.den <= b.num * a.den,
            b.num * c.den <= c.num * b.den,
    ;
}

/// The strict fraction order chains with the weak one on usable prices.
pub proof fn lemma_price_lt_le_trans(a: PriceVal, b: PriceVal, c: PriceVal)
    requires
        a.den > 0,
        b.den > 0,
        c.den > 0,
        price_lt(a, b),
        price_le(b, c),
    ensures
        price_lt(a, c),
{
    assert(a.num * c.den < c.num * a.den) by (nonlinear_arith)
        requires
            a.den > 0,
            b.den > 0,
            c.den > 0,
            a.num * b.den < b.num * a.den,
            b.num * c.den <= c.num * b.den,
    ;
}

/// Equality of fraction values is transitive on usable prices.
pub proof fn lemma_price_eq_trans(a: PriceVal, b: PriceVal, c: PriceVal)
    requires
        a.den > 0,
        b.den > 0,
        c.den > 0,
        price_eq(a, b),
        price_eq(b, c),
    ensures
        price_eq(a, c),
{
    assert(a.num * c.den == c.num * a.den) by (nonlinear_arith)
        requires
            a.den > 0,
            b.den > 0,
            c.den > 0,
            a.num * b.den == b.num * a.den,
            b.num * c.den == c.num * b.den,
    ;
}

/// The product of two machine words fits in a double word.
proof fn lemma_mul_fits_u128(a: int, b: int)
    requires
        0 <= a <= u64::MAX,
        0 <= b <= u64::MAX,
    ensures
        a * b <= u128::MAX,
{
    vstd::arithmetic::mul::lemma_mul_upper_bound(a, u64::MAX as int, b, u64::MAX as int);
}

} // verus!
