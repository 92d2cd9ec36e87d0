//! The mathematics of rational numbers in lowest terms.
//!
//! [`Ratio`] is the model of a number of the language: a numerator and a
//! denominator over the unbounded integers. Every operation reduces its result
//! by the greatest common divisor, so that equal fractions are equal values.

use crate::integer::abs;
use vstd::arithmetic::div_mod::{
    lemma_fundamental_div_mod, lemma_fundamental_div_mod_converse, lemma_truncate_middle,
};
use vstd::arithmetic::mul::lemma_mul_equality_converse;
use vstd::prelude::*;

verus! {

/// The greatest common divisor, by Euclid's algorithm. `gcd(0, 0)` is 0.
pub open spec fn gcd(a: nat, b: nat) -> nat
    decreases b,
{
    if b == 0 {
        a
    } else {
        gcd(b, a % b)
    }
}

/// A fraction `num / den`.
pub struct Ratio {
    pub num: int,
    pub den: int,
}

impl Ratio {
    /// In lowest terms with a positive denominator.
    pub open spec fn wf(self) -> bool {
        self.den > 0 && gcd(abs(self.num), self.den as nat) == 1
    }

    /// The fraction `n / d` in lowest terms, for a positive `d`.
    pub open spec fn reduce(n: int, d: int) -> Ratio {
        let g = gcd(abs(n), d as nat) as int;
        Ratio { num: n / g, den: d / g }
    }

    pub open spec fn zero() -> Ratio {
        Ratio { num: 0, den: 1 }
    }

    pub open spec fn one() -> Ratio {
        Ratio { num: 1, den: 1 }
    }

    /// The whole number `n`.
    pub open spec fn whole(n: int) -> Ratio {
        Ratio { num: n, den: 1 }
    }

    /// 1/1 for true, 0/1 for false.
    pub open spec fn truth(b: bool) -> Ratio {
        if b {
            Ratio::one()
        } else {
            Ratio::zero()
        }
    }

    pub open spec fn neg(self) -> Ratio {
        Ratio { num: -self.num, den: self.den }
    }

    pub open spec fn add(self, other: Ratio) -> Ratio {
        Ratio::reduce(self.num * other.den + other.num * self.den, self.den * other.den)
    }

    pub open spec fn sub(self, other: Ratio) -> Ratio {
        self.add(other.neg())
    }

    pub open spec fn mul(self, other: Ratio) -> Ratio {
        Ratio::reduce(self.num * other.num, self.den * other.den)
    }

    /// The quotient, for a divisor other than zero. The sign of the result
    /// lives in the numerator.
    pub open spec fn div(self, other: Ratio) -> Ratio {
        if other.num < 0 {
            Ratio::reduce(-(self.num * other.den), self.den * (-other.num))
        } else {
            Ratio::reduce(self.num * other.den, self.den * other.num)
        }
    }

    /// Whether the number counts as true: it is not zero.
    pub open spec fn truthy(self) -> bool {
        self.num != 0
    }

    pub open spec fn lt(self, other: Ratio) -> bool {
        self.num * other.den < other.num * self.den
    }

    pub open spec fn gt(self, other: Ratio) -> bool {
        self.num * other.den > other.num * self.den
    }

    pub open spec fn le(self, other: Ratio) -> bool {
        self == other || self.lt(other)
    }

    pub open spec fn ge(self, other: Ratio) -> bool {
        self == other || self.gt(other)
    }

    /// Whether two fractions stand for the same rational number.
    pub open spec fn same_value(self, other: Ratio) -> bool {
        self.num * other.den == other.num * self.den
    }
}

/// A multiple of a positive `d` leaves no remainder, and the quotient is the
/// factor.
pub proof fn lemma_multiple(n: int, d: int, k: int)
    requires
        d > 0,
        n == k * d,
    ensures
        n % d == 0,
        n / d == k,
{
    lemma_fundamental_div_mod_converse(n, d, k, 0);
}

/// A number that leaves no remainder is the quotient times the divisor.
pub proof fn lemma_divisible(n: int, d: int)
    requires
        d > 0,
        n % d == 0,
    ensures
        n == (n / d) * d,
{
    lemma_fundamental_div_mod(n, d);
    assert(d * (n / d) == (n / d) * d) by (nonlinear_arith);
}

/// The greatest common divisor divides both numbers, and is positive unless
/// both are zero.
pub proof fn lemma_gcd_divides(a: nat, b: nat)
    requires
        a > 0 || b > 0,
    ensures
        gcd(a, b) > 0,
        a as int % gcd(a, b) as int == 0,
        b as int % gcd(a, b) as int == 0,
    decreases b,
{
    if b == 0 {
        lemma_multiple(a as int, a as int, 1);
        lemma_multiple(0, a as int, 0);
    } else {
        let r = a % b;
        lemma_gcd_divides(b, r);
        let g = gcd(b, r) as int;
        lemma_divisible(b as int, g);
        lemma_divisible(r as int, g);
        lemma_fundamental_div_mod(a as int, b as int);
        let q = a as int / b as int;
        let kb = b as int / g;
        let kr = r as int / g;
        assert(a as int == (kb * q + kr) * g) by (nonlinear_arith)
            requires
                a as int == b as int * q + r as int,
                b as int == kb * g,
                r as int == kr * g,
        {
        }
        lemma_multiple(a as int, g, kb * q + kr);
    }
}

/// Every common divisor divides the greatest common divisor.
pub proof fn lemma_gcd_greatest(a: nat, b: nat, d: int)
    requires
        d > 0,
        a as int % d == 0,
        b as int % d == 0,
    ensures
        gcd(a, b) as int % d == 0,
    decreases b,
{
    if b != 0 {
        let r = a % b;
        lemma_divisible(a as int, d);
        lemma_divisible(b as int, d);
        lemma_fundamental_div_mod(a as int, b as int);
        let q = a as int / b as int;
        let ka = a as int / d;
        let kb = b as int / d;
        assert(r as int == (ka - kb * q) * d) by (nonlinear_arith)
            requires
                a as int == b as int * q + r as int,
                a as int == ka * d,
                b as int == kb * d,
        {
        }
        lemma_multiple(r as int, d, ka - kb * q);
        lemma_gcd_greatest(b, r, d);
    }
}

/// Scaling both numbers scales their greatest common divisor.
pub proof fn lemma_gcd_scale(k: nat, a: nat, b: nat)
    requires
        k > 0,
    ensures
        gcd(k * a, k * b) == k * gcd(a, b),
    decreases b,
{
    if b == 0 {
        assert(k * b == 0) by (nonlinear_arith)
            requires
                b == 0,
        {
        }
    } else {
        let r = a % b;
        lemma_truncate_middle(a as int, k as int, b as int);
        assert((k * a) % (k * b) == k * r);
        assert(k * b > 0) by (nonlinear_arith)
            requires
                k > 0,
                b > 0,
        {
        }
        lemma_gcd_scale(k, b, r);
    }
}

/// Euclid's lemma: a number coprime to `n` that divides `n * c` divides `c`.
pub proof fn lemma_coprime_divides(n: nat, d: nat, c: nat)
    requires
        d > 0,
        gcd(n, d) == 1,
        (n * c) as int % d as int == 0,
    ensures
        c as int % d as int == 0,
{
    if c == 0 {
        lemma_multiple(0, d as int, 0);
    } else {
        lemma_gcd_scale(c, n, d);
        assert(c * n == n * c) by (nonlinear_arith);
        assert(gcd(n * c, c * d) == c);
        lemma_multiple((c * d) as int, d as int, c as int);
        lemma_gcd_greatest(n * c, c * d, d as int);
    }
}

/// Two positive numbers that divide each other are equal.
pub proof fn lemma_divide_each_other(x: int, y: int)
    requires
        x > 0,
        y > 0,
        x % y == 0,
        y % x == 0,
    ensures
        x == y,
{
    lemma_divisible(x, y);
    lemma_divisible(y, x);
    let p = x / y;
    let q = y / x;
    assert(x == y) by (nonlinear_arith)
        requires
            x > 0,
            y > 0,
            x == p * y,
            y == q * x,
    {
    }
}

/// The absolute value of a product is the product of the absolute values.
pub proof fn lemma_abs_mul(x: int, y: int)
    ensures
        abs(x * y) == abs(x) * abs(y),
{
    assert(abs(x * y) == abs(x) * abs(y)) by (nonlinear_arith);
}

/// In a fraction in lowest terms the denominator divides the denominator of
/// every fraction of the same value.
proof fn lemma_lowest_den_divides(x: Ratio, y: Ratio)
    requires
        x.wf(),
        y.den > 0,
        x.same_value(y),
    ensures
        y.den % x.den == 0,
{
    lemma_abs_mul(x.num, y.den);
    lemma_abs_mul(y.num, x.den);
    assert(abs(x.num) * abs(y.den) == abs(y.num) * abs(x.den));
    assert(abs(y.num) * abs(x.den) == abs(y.num) as int * x.den);
    lemma_multiple((abs(x.num) * abs(y.den)) as int, x.den, abs(y.num) as int);
    lemma_coprime_divides(abs(x.num), x.den as nat, abs(y.den));
}

/// Two fractions in lowest terms with the same value are the same fraction.
pub proof fn lemma_lowest_terms_unique(x: Ratio, y: Ratio)
    requires
        x.wf(),
        y.wf(),
        x.same_value(y),
    ensures
        x == y,
{
    lemma_lowest_den_divides(x, y);
    assert(y.same_value(x));
    lemma_lowest_den_divides(y, x);
    lemma_divide_each_other(x.den, y.den);
    assert(x.num * x.den == y.num * x.den);
    assert(x.den * x.num == x.den * y.num) by (nonlinear_arith)
        requires
            x.num * x.den == y.num * x.den,
    {
    }
    lemma_mul_equality_converse(x.den, x.num, y.num);
}

/// What `reduce` divides by: the positive common divisor `g` with cofactors
/// `n / g` and `d / g`.
pub proof fn lemma_reduce_parts(n: int, d: int)
    requires
        d > 0,
    ensures
        gcd(abs(n), d as nat) > 0,
        n == Ratio::reduce(n, d).num * gcd(abs(n), d as nat),
        d == Ratio::reduce(n, d).den * gcd(abs(n), d as nat),
        Ratio::reduce(n, d).den > 0,
        abs(n) == abs(Ratio::reduce(n, d).num) * gcd(abs(n), d as nat),
{
    let g = gcd(abs(n), d as nat) as int;
    lemma_gcd_divides(abs(n), d as nat);
    lemma_divisible(abs(n) as int, g);
    lemma_divisible(d, g);
    let m = abs(n) as int / g;
    if n < 0 {
        assert(n == (-m) * g) by (nonlinear_arith)
            requires
                -n == m * g,
        {
        }
        lemma_multiple(n, g, -m);
    }
    let dq = d / g;
    assert(dq > 0) by (nonlinear_arith)
        requires
            d == dq * g,
            d > 0,
            g > 0,
    {
    }
    lemma_abs_mul(n / g, g);
}

/// `reduce` gives a fraction in lowest terms.
pub proof fn lemma_reduce_wf(n: int, d: int)
    requires
        d > 0,
    ensures
        Ratio::reduce(n, d).wf(),
{
    let g = gcd(abs(n), d as nat);
    let r = Ratio::reduce(n, d);
    lemma_reduce_parts(n, d);
    let a = abs(r.num);
    let b = r.den as nat;
    lemma_gcd_scale(g, a, b);
    assert(g * a == a * g) by (nonlinear_arith);
    assert(g * b == b * g) by (nonlinear_arith);
    assert(g == g * gcd(a, b));
    assert(gcd(a, b) == 1) by (nonlinear_arith)
        requires
            g == g * gcd(a, b),
            g > 0,
    {
    }
}

/// `reduce` keeps the value of the fraction.
pub proof fn lemma_reduce_same_value(n: int, d: int)
    requires
        d > 0,
    ensures
        Ratio::reduce(n, d).same_value(Ratio { num: n, den: d }),
{
    let g = gcd(abs(n), d as nat) as int;
    let r = Ratio::reduce(n, d);
    lemma_reduce_parts(n, d);
    assert(r.num * d == n * r.den) by (nonlinear_arith)
        requires
            n == r.num * g,
            d == r.den * g,
    {
    }
}

/// `reduce` leaves a fraction in lowest terms as it is.
pub proof fn lemma_reduce_of_lowest(x: Ratio)
    requires
        x.wf(),
    ensures
        Ratio::reduce(x.num, x.den) == x,
{
    lemma_reduce_wf(x.num, x.den);
    lemma_reduce_same_value(x.num, x.den);
    lemma_lowest_terms_unique(Ratio::reduce(x.num, x.den), x);
}

/// A fraction in lowest terms that has the value of `n / d` is what `reduce`
/// gives for `n / d`.
pub proof fn lemma_reduce_is(n: int, d: int, x: Ratio)
    requires
        d > 0,
        x.wf(),
        x.num * d == n * x.den,
    ensures
        Ratio::reduce(n, d) == x,
{
    lemma_reduce_wf(n, d);
    lemma_reduce_same_value(n, d);
    let r = Ratio::reduce(n, d);
    let raw = Ratio { num: n, den: d };
    assert(raw.same_value(x));
    lemma_same_value_transitive(r, raw, x);
    lemma_lowest_terms_unique(r, x);
}

/// Every operation gives a fraction in lowest terms.
pub proof fn lemma_operations_wf(a: Ratio, b: Ratio)
    requires
        a.wf(),
        b.wf(),
    ensures
        a.neg().wf(),
        a.add(b).wf(),
        a.sub(b).wf(),
        a.mul(b).wf(),
        b.num != 0 ==> a.div(b).wf(),
        Ratio::zero().wf(),
        Ratio::one().wf(),
{
    assert(abs(-a.num) == abs(a.num));
    assert(abs(-b.num) == abs(b.num));
    assert(a.den * b.den > 0) by (nonlinear_arith)
        requires
            a.den > 0,
            b.den > 0,
    {
    }
    lemma_reduce_wf(a.num * b.den + b.num * a.den, a.den * b.den);
    lemma_reduce_wf(a.num * b.den + (-b.num) * a.den, a.den * b.den);
    lemma_reduce_wf(a.num * b.num, a.den * b.den);
    if b.num < 0 {
        assert(a.den * (-b.num) > 0) by (nonlinear_arith)
            requires
                a.den > 0,
                b.num < 0,
        {
        }
        lemma_reduce_wf(-(a.num * b.den), a.den * (-b.num));
    } else if b.num > 0 {
        assert(a.den * b.num > 0) by (nonlinear_arith)
            requires
                a.den > 0,
                b.num > 0,
        {
        }
        lemma_reduce_wf(a.num * b.den, a.den * b.num);
    }
    assert(gcd(0, 1) == gcd(1, 0nat % 1nat));
    assert(gcd(1, 1) == gcd(1, 1nat % 1nat));
    assert(gcd(1, 0) == 1);
}

/// Two fractions in lowest terms are equal exactly if they have the same
/// value: equality is equality of the canonical forms.
pub proof fn lemma_equal_iff_same_value(a: Ratio, b: Ratio)
    requires
        a.wf(),
        b.wf(),
    ensures
        a == b <==> a.same_value(b),
{
    if a.same_value(b) {
        lemma_lowest_terms_unique(a, b);
    }
}

/// Turning the sign twice gives the number back.
pub proof fn lemma_neg_neg(a: Ratio)
    ensures
        a.neg().neg() == a,
{
}

/// Adding a number and taking it away again gives the first number back.
pub proof fn lemma_add_sub(a: Ratio, b: Ratio)
    requires
        a.wf(),
        b.wf(),
    ensures
        a.add(b).sub(b) == a,
{
    let n1 = a.num * b.den + b.num * a.den;
    let d1 = a.den * b.den;
    assert(d1 > 0) by (nonlinear_arith)
        requires
            d1 == a.den * b.den,
            a.den > 0,
            b.den > 0,
    {
    }
    let s = Ratio::reduce(n1, d1);
    lemma_reduce_wf(n1, d1);
    lemma_reduce_same_value(n1, d1);
    let n2 = s.num * b.den + (-b.num) * s.den;
    let d2 = s.den * b.den;
    assert(d2 > 0) by (nonlinear_arith)
        requires
            d2 == s.den * b.den,
            s.den > 0,
            b.den > 0,
    {
    }
    let (an, ad, bn, bd, sn, sd) = (a.num, a.den, b.num, b.den, s.num, s.den);
    assert(sn * (ad * bd) == (an * bd + bn * ad) * sd);
    assert(sn * (ad * bd) == sn * bd * ad) by (nonlinear_arith);
    assert((an * bd + bn * ad) * sd == an * bd * sd + bn * ad * sd) by (nonlinear_arith);
    assert((sn * bd + (-bn) * sd) * ad == sn * bd * ad - bn * sd * ad) by (nonlinear_arith);
    assert(bn * ad * sd == bn * sd * ad) by (nonlinear_arith);
    assert(an * (sd * bd) == an * bd * sd) by (nonlinear_arith);
    assert(a.num * d2 == n2 * a.den);
    lemma_reduce_is(n2, d2, a);
}

/// Multiplying by a number other than zero and dividing by it again gives
/// the first number back.
pub proof fn lemma_mul_div(a: Ratio, b: Ratio)
    requires
        a.wf(),
        b.wf(),
        b.num != 0,
    ensures
        a.mul(b).div(b) == a,
{
    let n1 = a.num * b.num;
    let d1 = a.den * b.den;
    assert(d1 > 0) by (nonlinear_arith)
        requires
            d1 == a.den * b.den,
            a.den > 0,
            b.den > 0,
    {
    }
    let p = Ratio::reduce(n1, d1);
    lemma_reduce_wf(n1, d1);
    lemma_reduce_same_value(n1, d1);
    let (an, ad, bn, bd, pn, pd) = (a.num, a.den, b.num, b.den, p.num, p.den);
    assert(pn * (ad * bd) == (an * bn) * pd);
    if bn < 0 {
        let n2 = -(pn * bd);
        let d2 = pd * (-bn);
        assert(d2 > 0 && an * d2 == n2 * ad) by (nonlinear_arith)
            requires
                pn * (ad * bd) == (an * bn) * pd,
                pd > 0,
                bn < 0,
                n2 == -(pn * bd),
                d2 == pd * (-bn),
        {
        }
        lemma_reduce_is(n2, d2, a);
    } else {
        let n2 = pn * bd;
        let d2 = pd * bn;
        assert(d2 > 0 && an * d2 == n2 * ad) by (nonlinear_arith)
            requires
                pn * (ad * bd) == (an * bn) * pd,
                pd > 0,
                bn > 0,
                n2 == pn * bd,
                d2 == pd * bn,
        {
        }
        lemma_reduce_is(n2, d2, a);
    }
}

/// `same_value` is transitive over positive denominators.
pub proof fn lemma_same_value_transitive(x: Ratio, y: Ratio, z: Ratio)
    requires
        x.den > 0,
        y.den > 0,
        z.den > 0,
        x.same_value(y),
        y.same_value(z),
    ensures
        x.same_value(z),
{
    assert(y.den * (x.num * z.den) == y.den * (z.num * x.den)) by (nonlinear_arith)
        requires
            x.num * y.den == y.num * x.den,
            y.num * z.den == z.num * y.den,
    {
    }
    lemma_mul_equality_converse(y.den, x.num * z.den, z.num * x.den);
}

} // verus!
