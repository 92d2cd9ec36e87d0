//! Natural numbers of unbounded size.
//!
//! A [`Natural`] holds its base 2^32 digits, least significant first. The
//! arithmetic itself is done by `num_bigint::BigUint`; this module states what
//! each operation computes in terms of [`digits_value`].

use num_bigint::BigUint;
use vstd::prelude::*;

verus! {

/// The base of the digits.
pub open spec fn radix() -> nat {
    0x1_0000_0000
}

/// The number that little-endian base 2^32 digits stand for.
pub open spec fn digits_value(digits: Seq<u32>) -> nat
    decreases digits.len(),
{
    if digits.len() == 0 {
        0
    } else {
        digits[0] as nat + radix() * digits_value(digits.drop_first())
    }
}

/// `BigUint::from_slice` on both operands, `+`, then `BigUint::to_u32_digits`:
/// the digits of the sum.
#[verifier::external_body]
fn digits_add(a: &Vec<u32>, b: &Vec<u32>) -> (r: Vec<u32>)
    ensures
        digits_value(r@) == digits_value(a@) + digits_value(b@),
{
    (BigUint::from_slice(a) + BigUint::from_slice(b)).to_u32_digits()
}

/// `BigUint::from_slice` on both operands, `-`, then `BigUint::to_u32_digits`:
/// the digits of the difference. `BigUint` panics when the difference would be
/// negative, so the first operand must not be the smaller one.
#[verifier::external_body]
fn digits_sub(a: &Vec<u32>, b: &Vec<u32>) -> (r: Vec<u32>)
    requires
        digits_value(a@) >= digits_value(b@),
    ensures
        digits_value(r@) == digits_value(a@) - digits_value(b@),
{
    (BigUint::from_slice(a) - BigUint::from_slice(b)).to_u32_digits()
}

/// `BigUint::from_slice` on both operands, `*`, then `BigUint::to_u32_digits`:
/// the digits of the product.
#[verifier::external_body]
fn digits_mul(a: &Vec<u32>, b: &Vec<u32>) -> (r: Vec<u32>)
    ensures
        digits_value(r@) == digits_value(a@) * digits_value(b@),
{
    (BigUint::from_slice(a) * BigUint::from_slice(b)).to_u32_digits()
}

/// `BigUint::from_slice` on both operands, `/`, then `BigUint::to_u32_digits`:
/// the digits of the quotient, rounded down. `BigUint` panics on a zero divisor.
#[verifier::external_body]
fn digits_div(a: &Vec<u32>, b: &Vec<u32>) -> (r: Vec<u32>)
    requires
        digits_value(b@) > 0,
    ensures
        digits_value(r@) == digits_value(a@) / digits_value(b@),
{
    (BigUint::from_slice(a) / BigUint::from_slice(b)).to_u32_digits()
}

/// `BigUint::from_slice` on both operands, `%`, then `BigUint::to_u32_digits`:
/// the digits of the remainder. `BigUint` panics on a zero divisor.
#[verifier::external_body]
fn digits_rem(a: &Vec<u32>, b: &Vec<u32>) -> (r: Vec<u32>)
    requires
        digits_value(b@) > 0,
    ensures
        digits_value(r@) == digits_value(a@) % digits_value(b@),
{
    (BigUint::from_slice(a) % BigUint::from_slice(b)).to_u32_digits()
}

/// `BigUint::from_slice` on both operands, then `<`: whether the first number
/// is the smaller one.
#[verifier::external_body]
fn digits_lt(a: &Vec<u32>, b: &Vec<u32>) -> (r: bool)
    ensures
        r == (digits_value(a@) < digits_value(b@)),
{
    BigUint::from_slice(a) < BigUint::from_slice(b)
}

/// `BigUint::from_slice` on both operands, then `==`: whether the two digit
/// strings stand for the same number.
#[verifier::external_body]
fn digits_eq(a: &Vec<u32>, b: &Vec<u32>) -> (r: bool)
    ensures
        r == (digits_value(a@) == digits_value(b@)),
{
    BigUint::from_slice(a) == BigUint::from_slice(b)
}

/// The decimal digits of a number as ASCII text, the most significant first
/// and without leading zeros; `0` for zero.
pub open spec fn decimal_text(n: nat) -> Seq<u8>
    decreases n,
{
    if n < 10 {
        seq![(48 + n) as u8]
    } else {
        decimal_text(n / 10).push((48 + n % 10) as u8)
    }
}

/// `BigUint::from_slice`, then `BigUint::to_str_radix` with the radix 10, then
/// `String::into_bytes`: the number in decimal digits.
#[verifier::external_body]
fn digits_decimal(a: &Vec<u32>) -> (r: Vec<u8>)
    ensures
        r@ == decimal_text(digits_value(a@)),
{
    BigUint::from_slice(a).to_str_radix(10).into_bytes()
}

/// A natural number of any size.
#[derive(Debug)]
pub struct Natural {
    /// Base 2^32 digits, least significant first. Leading zeros are allowed.
    pub digits: Vec<u32>,
}

impl View for Natural {
    type V = nat;

    open spec fn view(&self) -> nat {
        digits_value(self.digits@)
    }
}

/// A one-digit string stands for its digit.
pub proof fn lemma_digits_value_single(d: u32)
    ensures
        digits_value(seq![d]) == d as nat,
{
    let s = seq![d];
    assert(s.drop_first() =~= Seq::<u32>::empty());
    assert(digits_value(s.drop_first()) == 0);
}

/// A two-digit string stands for `lo + 2^32 * hi`.
pub proof fn lemma_digits_value_pair(lo: u32, hi: u32)
    ensures
        digits_value(seq![lo, hi]) == lo as nat + radix() * (hi as nat),
{
    let s = seq![lo, hi];
    assert(s.drop_first() =~= seq![hi]);
    lemma_digits_value_single(hi);
}

impl Clone for Natural {
    fn clone(&self) -> (r: Natural)
        ensures
            r@ == self@,
            r.digits@ == self.digits@,
    {
        let mut digits: Vec<u32> = Vec::new();
        let mut i: usize = 0;
        while i < self.digits.len()
            invariant
                i <= self.digits.len(),
                digits@ == self.digits@.subrange(0, i as int),
            decreases self.digits.len() - i,
        {
            digits.push(self.digits[i]);
            i = i + 1;
        }
        assert(digits@ =~= self.digits@);
        Natural { digits }
    }
}

impl Natural {
    /// The number zero.
    pub fn zero() -> (r: Natural)
        ensures
            r@ == 0,
    {
        Natural { digits: Vec::new() }
    }

    /// The number one.
    pub fn one() -> (r: Natural)
        ensures
            r@ == 1,
    {
        Natural::from_u64(1)
    }

    /// The natural number equal to `x`.
    pub fn from_u64(x: u64) -> (r: Natural)
        ensures
            r@ == x as nat,
    {
        let lo: u32 = (x & 0xffff_ffff) as u32;
        let hi: u32 = (x >> 32) as u32;
        assert(x == (x & 0xffff_ffff) + 0x1_0000_0000 * (x >> 32)) by (bit_vector);
        assert((x & 0xffff_ffff) <= 0xffff_ffff) by (bit_vector);
        assert((x >> 32) <= 0xffff_ffff) by (bit_vector);
        let mut digits: Vec<u32> = Vec::new();
        digits.push(lo);
        digits.push(hi);
        proof {
            assert(digits@ =~= seq![lo, hi]);
            lemma_digits_value_pair(lo, hi);
        }
        Natural { digits }
    }

    /// The sum of two numbers.
    pub fn add(&self, other: &Natural) -> (r: Natural)
        ensures
            r@ == self@ + other@,
    {
        Natural { digits: digits_add(&self.digits, &other.digits) }
    }

    /// The difference of two numbers, the second not above the first.
    pub fn sub(&self, other: &Natural) -> (r: Natural)
        requires
            self@ >= other@,
        ensures
            r@ == self@ - other@,
    {
        Natural { digits: digits_sub(&self.digits, &other.digits) }
    }

    /// The product of two numbers.
    pub fn mul(&self, other: &Natural) -> (r: Natural)
        ensures
            r@ == self@ * other@,
    {
        Natural { digits: digits_mul(&self.digits, &other.digits) }
    }

    /// The quotient of two numbers, rounded down.
    pub fn div(&self, other: &Natural) -> (r: Natural)
        requires
            other@ > 0,
        ensures
            r@ == self@ / other@,
    {
        Natural { digits: digits_div(&self.digits, &other.digits) }
    }

    /// The remainder of dividing the first number by the second.
    pub fn rem(&self, other: &Natural) -> (r: Natural)
        requires
            other@ > 0,
        ensures
            r@ == self@ % other@,
    {
        Natural { digits: digits_rem(&self.digits, &other.digits) }
    }

    /// Whether this number is strictly below the other.
    pub fn lt(&self, other: &Natural) -> (r: bool)
        ensures
            r == (self@ < other@),
    {
        digits_lt(&self.digits, &other.digits)
    }

    /// Whether the two numbers are equal.
    pub fn eq(&self, other: &Natural) -> (r: bool)
        ensures
            r == (self@ == other@),
    {
        digits_eq(&self.digits, &other.digits)
    }

    /// The number in decimal digits, as ASCII text.
    pub fn to_decimal(&self) -> (r: Vec<u8>)
        ensures
            r@ == decimal_text(self@),
    {
        digits_decimal(&self.digits)
    }

    /// Whether this number is zero.
    pub fn is_zero(&self) -> (r: bool)
        ensures
            r == (self@ == 0),
    {
        let zero = Natural::zero();
        self.eq(&zero)
    }

    /// This number as a byte, if it is at most 255.
    pub fn to_u8(&self) -> (r: Option<u8>)
        ensures
            self@ <= 255 ==> r == Some(self@ as u8),
            self@ > 255 ==> r.is_none(),
    {
        let limit = Natural::from_u64(255);
        if limit.lt(self) {
            None
        } else if self.digits.len() == 0 {
            Some(0)
        } else {
            let d: u32 = self.digits[0];
            proof {
                let rest = digits_value(self.digits@.drop_first());
                assert(self@ == d as nat + radix() * rest);
                assert(rest == 0) by (nonlinear_arith)
                    requires
                        d as nat + 0x1_0000_0000 * rest <= 255,
                {
                }
            }
            Some(d as u8)
        }
    }
}

} // verus!
