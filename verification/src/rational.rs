//! Exact temperature values, held as fractions of integers.
//!
//! A parsed literal such as "36.9" becomes the fraction 369/10, and every
//! conversion constant is itself a ratio of integers (1.8 = 9/5, 32 = 160/5,
//! 273.15 = 5463/20), so conversions stay exact: no drift accumulates over
//! round trips. Two fractions denote the same value exactly when they are
//! equal after cross-multiplication.

use vstd::prelude::*;

verus! {

/// The largest magnitude the numerator may reach in a cross-multiplied
/// equality test without overflowing the product.
pub const VALUE_EQ_BOUND: i128 = 1_000_000_000_000_000_000;

/// The mathematical model of a value: the fraction `num / den` over the
/// unbounded integers.
pub ghost struct Rat {
    pub num: int,
    pub den: int,
}

/// An exact numeric value: the fraction `num / den`, with `den` positive.
/// The fraction is not kept reduced; two values are compared by
/// cross-multiplication.
#[derive(Clone, Copy, Debug, PartialEq, Eq, Structural)]
pub struct Rational {
    pub num: i128,
    pub den: i128,
}

impl View for Rational {
    type V = Rat;

    open spec fn view(&self) -> Rat {
        Rat { num: self.num as int, den: self.den as int }
    }
}

/// Well-formedness: the denominator is positive.
pub open spec fn rat_wf(v: Rat) -> bool {
    v.den >= 1
}

/// Exact equality of the denoted values: `a.num / a.den == b.num / b.den`,
/// stated by cross-multiplication so that it needs no division.
pub open spec fn rat_eq(a: Rat, b: Rat) -> bool {
    a.num * b.den == b.num * a.den
}

impl Rational {
    /// Builds the fraction `num / den`.
    pub fn new(num: i128, den: i128) -> (r: Rational)
        requires
            den >= 1,
        ensures
            r == (Rational { num, den }),
            rat_wf(r@),
    {
        Rational { num, den }
    }

    /// Tests whether `self` and `other` denote exactly the same value.
    /// The magnitude bounds keep the cross products inside `i128`.
    pub fn eq_value(&self, other: &Rational) -> (r: bool)
        requires
            rat_wf(self@),
            rat_wf(other@),
            -VALUE_EQ_BOUND <= self.num <= VALUE_EQ_BOUND,
            self.den <= VALUE_EQ_BOUND,
            -VALUE_EQ_BOUND <= other.num <= VALUE_EQ_BOUND,
            other.den <= VALUE_EQ_BOUND,
        ensures
            r == rat_eq(self@, other@),
    {
        proof {
            assert(self.num * other.den <= VALUE_EQ_BOUND * VALUE_EQ_BOUND && self.num
                * other.den >= -(VALUE_EQ_BOUND * VALUE_EQ_BOUND) && other.num * self.den
                <= VALUE_EQ_BOUND * VALUE_EQ_BOUND && other.num * self.den >= -(VALUE_EQ_BOUND
                * VALUE_EQ_BOUND)) by (nonlinear_arith)
                requires
                    -VALUE_EQ_BOUND <= self.num <= VALUE_EQ_BOUND,
                    1 <= self.den <= VALUE_EQ_BOUND,
                    -VALUE_EQ_BOUND <= other.num <= VALUE_EQ_BOUND,
                    1 <= other.den <= VALUE_EQ_BOUND,
            ;
        }
        self.num * other.den == other.num * self.den
    }
}

} // verus!
