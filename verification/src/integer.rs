//! Signed integers of unbounded size: a sign and a [`Natural`] magnitude.

use crate::natural::Natural;
use vstd::arithmetic::div_mod::{lemma_fundamental_div_mod, lemma_fundamental_div_mod_converse};
use vstd::prelude::*;

verus! {

/// The absolute value of an integer.
pub open spec fn abs(i: int) -> nat {
    if i < 0 {
        (-i) as nat
    } else {
        i as nat
    }
}

/// A signed integer of any size.
#[derive(Debug)]
pub struct Integer {
    /// Whether the number is below zero. Ignored when the magnitude is zero.
    pub negative: bool,
    /// How far the number is from zero.
    pub magnitude: Natural,
}

impl View for Integer {
    type V = int;

    open spec fn view(&self) -> int {
        if self.negative {
            -(self.magnitude@ as int)
        } else {
            self.magnitude@ as int
        }
    }
}

impl Clone for Integer {
    fn clone(&self) -> (r: Integer)
        ensures
            r@ == self@,
    {
        Integer { negative: self.negative, magnitude: self.magnitude.clone() }
    }
}

impl Integer {
    /// The number zero.
    pub fn zero() -> (r: Integer)
        ensures
            r@ == 0,
    {
        Integer { negative: false, magnitude: Natural::zero() }
    }

    /// The number one.
    pub fn one() -> (r: Integer)
        ensures
            r@ == 1,
    {
        Integer { negative: false, magnitude: Natural::one() }
    }

    /// The integer equal to `x`.
    pub fn from_i64(x: i64) -> (r: Integer)
        ensures
            r@ == x as int,
    {
        if x < 0 {
            // -(x + 1) fits in an i64 for every negative x; adding one back
            // as a u64 gives the magnitude, also for i64::MIN.
            let m: u64 = (-(x + 1)) as u64 + 1;
            Integer { negative: true, magnitude: Natural::from_u64(m) }
        } else {
            Integer { negative: false, magnitude: Natural::from_u64(x as u64) }
        }
    }

    /// The integer equal to `x`.
    pub fn from_u64(x: u64) -> (r: Integer)
        ensures
            r@ == x as int,
    {
        Integer { negative: false, magnitude: Natural::from_u64(x) }
    }

    /// The non-negative integer with the given magnitude.
    pub fn from_natural(magnitude: Natural) -> (r: Integer)
        ensures
            r@ == magnitude@ as int,
    {
        Integer { negative: false, magnitude }
    }

    /// The distance from zero.
    pub fn abs(&self) -> (r: Natural)
        ensures
            r@ == abs(self@),
    {
        self.magnitude.clone()
    }

    /// Whether the number is strictly below zero.
    pub fn is_negative(&self) -> (r: bool)
        ensures
            r == (self@ < 0),
    {
        self.negative && !self.magnitude.is_zero()
    }

    /// Whether the number is zero.
    pub fn is_zero(&self) -> (r: bool)
        ensures
            r == (self@ == 0),
    {
        self.magnitude.is_zero()
    }

    /// The number with its sign turned.
    pub fn neg(&self) -> (r: Integer)
        ensures
            r@ == -self@,
    {
        Integer { negative: !self.negative, magnitude: self.magnitude.clone() }
    }

    /// The sum of two integers.
    pub fn add(&self, other: &Integer) -> (r: Integer)
        ensures
            r@ == self@ + other@,
    {
        if self.negative == other.negative {
            Integer { negative: self.negative, magnitude: self.magnitude.add(&other.magnitude) }
        } else if self.magnitude.lt(&other.magnitude) {
            Integer { negative: other.negative, magnitude: other.magnitude.sub(&self.magnitude) }
        } else {
            Integer { negative: self.negative, magnitude: self.magnitude.sub(&other.magnitude) }
        }
    }

    /// The difference of two integers.
    pub fn sub(&self, other: &Integer) -> (r: Integer)
        ensures
            r@ == self@ - other@,
    {
        let minus = other.neg();
        self.add(&minus)
    }

    /// The product of two integers.
    pub fn mul(&self, other: &Integer) -> (r: Integer)
        ensures
            r@ == self@ * other@,
    {
        let magnitude = self.magnitude.mul(&other.magnitude);
        proof {
            let a = self.magnitude@ as int;
            let b = other.magnitude@ as int;
            assert((-a) * b == -(a * b)) by (nonlinear_arith);
            assert(a * (-b) == -(a * b)) by (nonlinear_arith);
            assert((-a) * (-b) == a * b) by (nonlinear_arith);
        }
        Integer { negative: self.negative != other.negative, magnitude }
    }

    /// The product of an integer and a natural number.
    pub fn mul_natural(&self, other: &Natural) -> (r: Integer)
        ensures
            r@ == self@ * other@,
    {
        let magnitude = self.magnitude.mul(other);
        proof {
            let a = self.magnitude@ as int;
            let b = other@ as int;
            assert((-a) * b == -(a * b)) by (nonlinear_arith);
        }
        Integer { negative: self.negative, magnitude }
    }

    /// The quotient by a natural number that divides this integer.
    pub fn div_exact(&self, other: &Natural) -> (r: Integer)
        requires
            other@ > 0,
            self@ % (other@ as int) == 0,
        ensures
            r@ == self@ / (other@ as int),
    {
        let magnitude = self.magnitude.div(other);
        proof {
            let m = self.magnitude@ as int;
            let d = other@ as int;
            if self.negative {
                assert(m % d == 0) by {
                    lemma_fundamental_div_mod(-m, d);
                    let q = (-m) / d;
                    assert(m == (-q) * d) by (nonlinear_arith)
                        requires
                            -m == d * q,
                    {
                    }
                    lemma_fundamental_div_mod_converse(m, d, -q, 0);
                }
                lemma_fundamental_div_mod(m, d);
                let k = m / d;
                assert(-m == (-k) * d) by (nonlinear_arith)
                    requires
                        m == d * k,
                {
                }
                lemma_fundamental_div_mod_converse(-m, d, -k, 0);
            }
        }
        Integer { negative: self.negative, magnitude }
    }

    /// Whether this integer is strictly below the other.
    pub fn lt(&self, other: &Integer) -> (r: bool)
        ensures
            r == (self@ < other@),
    {
        let a_neg = self.is_negative();
        let b_neg = other.is_negative();
        if a_neg && b_neg {
            other.magnitude.lt(&self.magnitude)
        } else if a_neg {
            true
        } else if b_neg {
            false
        } else {
            self.magnitude.lt(&other.magnitude)
        }
    }

    /// Whether the two integers are equal.
    pub fn eq(&self, other: &Integer) -> (r: bool)
        ensures
            r == (self@ == other@),
    {
        if self.is_negative() == other.is_negative() {
            self.magnitude.eq(&other.magnitude)
        } else {
            false
        }
    }
}

} // verus!
