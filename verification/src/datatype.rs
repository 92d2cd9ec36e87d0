//! The data of the language: numbers, values, expressions, noodles and bowls.
//!
//! Each type has a view in [`crate::model`] or [`crate::rational`], and every
//! contract speaks of the views.

use crate::error::ZeroDenominatorError;
use crate::integer::{abs, Integer};
use crate::model::{BinaryOp, ExprView, NoodleView, UnaryOp, ValueView};
use crate::natural::Natural;
use crate::rational::{gcd, lemma_multiple, lemma_reduce_parts, lemma_reduce_wf, Ratio};
use vstd::prelude::*;

verus! {

/// A rational number in lowest terms, with the sign in the numerator and a
/// denominator above zero.
#[derive(Debug)]
pub struct Number {
    numerator: Integer,
    denominator: Natural,
}

impl View for Number {
    type V = Ratio;

    closed spec fn view(&self) -> Ratio {
        Ratio { num: self.numerator@, den: self.denominator@ as int }
    }
}

/// The greatest common divisor of two numbers, by Euclid's algorithm.
fn natural_gcd(a: Natural, b: Natural) -> (r: Natural)
    ensures
        r@ == gcd(a@, b@),
{
    let ghost a0 = a@;
    let ghost b0 = b@;
    let mut a = a;
    let mut b = b;
    while !b.is_zero()
        invariant
            gcd(a@, b@) == gcd(a0, b0),
        decreases b@,
    {
        let r = a.rem(&b);
        a = b;
        b = r;
    }
    a
}

/// A whole number in a fraction over one is in lowest terms.
pub proof fn lemma_whole_wf(n: int)
    ensures
        Ratio::whole(n).wf(),
        Ratio::reduce(n, 1) == Ratio::whole(n),
{
    let a = abs(n);
    assert(a % 1 == 0);
    assert(gcd(1, 0) == 1);
    assert(gcd(a, 1) == gcd(1, a % 1));
    assert(gcd(abs(n), 1int as nat) == 1);
    assert(Ratio::reduce(n, 1).num == n / 1);
    assert(Ratio::reduce(n, 1).den == 1int / 1);
}

impl Clone for Number {
    fn clone(&self) -> (r: Number)
        ensures
            r@ == self@,
    {
        proof {
            use_type_invariant(self);
        }
        Number { numerator: self.numerator.clone(), denominator: self.denominator.clone() }
    }
}

impl Number {
    /// Every number is in lowest terms.
    #[verifier::type_invariant]
    pub open spec fn lowest_terms(self) -> bool {
        self@.wf()
    }

    /// The fraction `numerator / denominator`, reduced to lowest terms.
    pub fn new(numerator: Integer, denominator: Natural) -> (r: Number)
        requires
            denominator@ != 0,
        ensures
            r@ == Ratio::reduce(numerator@, denominator@ as int),
            r@.wf(),
    {
        proof {
            lemma_reduce_wf(numerator@, denominator@ as int);
            lemma_reduce_parts(numerator@, denominator@ as int);
        }
        let one = Natural::one();
        if denominator.eq(&one) {
            proof {
                lemma_whole_wf(numerator@);
            }
            return Number { numerator, denominator };
        }
        let g = natural_gcd(numerator.abs(), denominator.clone());
        proof {
            lemma_multiple(numerator@, g@ as int, Ratio::reduce(numerator@, denominator@ as int).num);
        }
        Number { numerator: numerator.div_exact(&g), denominator: denominator.div(&g) }
    }

    /// The fraction `numerator / denominator` in lowest terms, or the error
    /// for a denominator of zero.
    pub fn checked_new(numerator: Integer, denominator: Natural) -> (r: Result<
        Number,
        ZeroDenominatorError,
    >)
        ensures
            denominator@ == 0 <==> r is Err,
            r matches Ok(n) ==> n@ == Ratio::reduce(numerator@, denominator@ as int) && n@.wf(),
    {
        if denominator.is_zero() {
            Err(ZeroDenominatorError)
        } else {
            Ok(Number::new(numerator, denominator))
        }
    }

    /// The whole number `x`.
    pub fn from_u64(x: u64) -> (r: Number)
        ensures
            r@ == Ratio::whole(x as int),
    {
        proof {
            lemma_whole_wf(x as int);
        }
        Number { numerator: Integer::from_u64(x), denominator: Natural::one() }
    }

    /// The number 1/1.
    pub fn one() -> (r: Number)
        ensures
            r@ == Ratio::one(),
    {
        Number::from_u64(1)
    }

    /// The number 0/1.
    pub fn zero() -> (r: Number)
        ensures
            r@ == Ratio::zero(),
    {
        Number::from_u64(0)
    }

    /// The numerator, which carries the sign.
    pub fn numerator(&self) -> (r: &Integer)
        ensures
            r@ == self@.num,
    {
        &self.numerator
    }

    /// The denominator.
    pub fn denominator(&self) -> (r: &Natural)
        ensures
            r@ == self@.den,
    {
        &self.denominator
    }

    /// The number with its sign turned.
    pub fn neg(&self) -> (r: Number)
        ensures
            r@ == self@.neg(),
            r@.wf(),
    {
        proof {
            use_type_invariant(self);
            assert(abs(-self@.num) == abs(self@.num));
        }
        Number { numerator: self.numerator.neg(), denominator: self.denominator.clone() }
    }

    /// The sum `(a·d + c·b) / (b·d)` of `a/b` and `c/d`, in lowest terms.
    pub fn add(&self, other: &Number) -> (r: Number)
        ensures
            r@ == self@.add(other@),
            r@.wf(),
    {
        proof {
            use_type_invariant(self);
            use_type_invariant(other);
            lemma_positive_product(self@.den, other@.den);
        }
        let left = self.numerator.mul_natural(&other.denominator);
        let right = other.numerator.mul_natural(&self.denominator);
        let numerator = left.add(&right);
        let denominator = self.denominator.mul(&other.denominator);
        Number::new(numerator, denominator)
    }

    /// The difference: the sum with the other number's negative.
    pub fn sub(&self, other: &Number) -> (r: Number)
        ensures
            r@ == self@.sub(other@),
            r@.wf(),
    {
        let minus = other.neg();
        self.add(&minus)
    }

    /// The product `(a·c) / (b·d)` of `a/b` and `c/d`, in lowest terms.
    pub fn mul(&self, other: &Number) -> (r: Number)
        ensures
            r@ == self@.mul(other@),
            r@.wf(),
    {
        proof {
            use_type_invariant(self);
            use_type_invariant(other);
            lemma_positive_product(self@.den, other@.den);
        }
        Number::new(
            self.numerator.mul(&other.numerator),
            self.denominator.mul(&other.denominator),
        )
    }

    /// The quotient `(a·d) / (b·c)` of `a/b` and `c/d`, in lowest terms and
    /// with the sign in the numerator. The divisor must not be zero.
    pub fn div(&self, other: &Number) -> (r: Number)
        requires
            other@.num != 0,
        ensures
            r@ == self@.div(other@),
            r@.wf(),
    {
        proof {
            use_type_invariant(self);
            use_type_invariant(other);
            lemma_positive_product(self@.den, abs(other@.num) as int);
        }
        let numerator = self.numerator.mul_natural(&other.denominator);
        let denominator = self.denominator.mul(&other.numerator.abs());
        if other.numerator.is_negative() {
            Number::new(numerator.neg(), denominator)
        } else {
            Number::new(numerator, denominator)
        }
    }

    /// The quotient, or the error for a divisor of zero.
    pub fn checked_div(&self, other: &Number) -> (r: Result<Number, ZeroDenominatorError>)
        ensures
            other@.num == 0 <==> r is Err,
            r matches Ok(n) ==> n@ == self@.div(other@) && n@.wf(),
    {
        if other.numerator.is_zero() {
            Err(ZeroDenominatorError)
        } else {
            Ok(self.div(other))
        }
    }

    /// Whether the number counts as true: it is not zero.
    pub fn bool(&self) -> (r: bool)
        ensures
            r == self@.truthy(),
    {
        !self.numerator.is_zero()
    }

    /// Whether both numbers count as true.
    pub fn and(&self, other: &Number) -> (r: bool)
        ensures
            r == (self@.truthy() && other@.truthy()),
    {
        self.bool() && other.bool()
    }

    /// Whether one of the numbers counts as true.
    pub fn or(&self, other: &Number) -> (r: bool)
        ensures
            r == (self@.truthy() || other@.truthy()),
    {
        self.bool() || other.bool()
    }

    /// Whether this number is strictly below the other.
    pub fn lt(&self, other: &Number) -> (r: bool)
        ensures
            r == self@.lt(other@),
    {
        let left = self.numerator.mul_natural(&other.denominator);
        let right = other.numerator.mul_natural(&self.denominator);
        left.lt(&right)
    }

    /// Whether this number is strictly above the other.
    pub fn gt(&self, other: &Number) -> (r: bool)
        ensures
            r == self@.gt(other@),
    {
        let left = self.numerator.mul_natural(&other.denominator);
        let right = other.numerator.mul_natural(&self.denominator);
        right.lt(&left)
    }

    /// Whether the two numbers are equal: their numerators and their
    /// denominators are.
    pub fn eq(&self, other: &Number) -> (r: bool)
        ensures
            r == (self@ == other@),
    {
        self.numerator.eq(&other.numerator) && self.denominator.eq(&other.denominator)
    }

    /// Whether this number is equal to or above the other.
    pub fn ge(&self, other: &Number) -> (r: bool)
        ensures
            r == self@.ge(other@),
    {
        self.eq(other) || self.gt(other)
    }

    /// Whether this number is equal to or below the other.
    pub fn le(&self, other: &Number) -> (r: bool)
        ensures
            r == self@.le(other@),
    {
        self.eq(other) || self.lt(other)
    }

    /// This number as a byte of output, or why it is none.
    pub fn to_byte(&self) -> (r: Result<u8, crate::error::Fault>)
        ensures
            r == crate::model::output_byte(self@),
    {
        let one = Natural::one();
        if !self.denominator.eq(&one) {
            Err(crate::error::Fault::NonIntegerOutput)
        } else if self.numerator.is_negative() {
            Err(crate::error::Fault::NegativeOutput)
        } else {
            match self.numerator.magnitude.to_u8() {
                Some(byte) => Ok(byte),
                None => Err(crate::error::Fault::OversizedOutput),
            }
        }
    }
}

/// The product of two positive numbers is positive.
pub proof fn lemma_positive_product(x: int, y: int)
    requires
        x > 0,
        y > 0,
    ensures
        x * y > 0,
{
    assert(x * y > 0) by (nonlinear_arith)
        requires
            x > 0,
            y > 0,
    {
    }
}

/// A value of the language.
#[derive(Debug)]
pub enum Value {
    Number(Box<Number>),
    /// A handle to a bowl: its position among the bowls of the environment.
    /// Copies of a handle name the same bowl.
    Bowl(usize),
    Null,
}

impl View for Value {
    type V = ValueView;

    open spec fn view(&self) -> ValueView {
        match self {
            Value::Number(n) => ValueView::Number(n@),
            Value::Bowl(h) => ValueView::Bowl(*h as nat),
            Value::Null => ValueView::Null,
        }
    }
}

impl Clone for Value {
    fn clone(&self) -> (r: Value)
        ensures
            r@ == self@,
    {
        match self {
            Value::Number(n) => {
                let m: Number = (**n).clone();
                Value::Number(Box::new(m))
            },
            Value::Bowl(h) => Value::Bowl(*h),
            Value::Null => Value::Null,
        }
    }
}

impl Value {
    /// The value that holds a copy of `number`.
    pub fn from_number(number: &Number) -> (r: Value)
        ensures
            r@ == ValueView::Number(number@),
    {
        Value::Number(Box::new(number.clone()))
    }

    /// The value of the fraction `numerator / denominator`.
    pub fn from_big_int(numerator: &Integer, denominator: &Natural) -> (r: Value)
        requires
            denominator@ != 0,
        ensures
            r@ == ValueView::Number(Ratio::reduce(numerator@, denominator@ as int)),
    {
        let number = Number::new(numerator.clone(), denominator.clone());
        Value::Number(Box::new(number))
    }

    /// Puts `bowl` among `bowls` and returns the handle to it.
    pub fn from_bowl(bowl: Bowl, bowls: &mut Vec<Bowl>) -> (r: Value)
        ensures
            r@ == ValueView::Bowl(old(bowls)@.len()),
            final(bowls)@ == old(bowls)@.push(bowl),
    {
        let handle = bowls.len();
        bowls.push(bowl);
        Value::Bowl(handle)
    }

    /// The value 1/1.
    pub fn new_one() -> (r: Value)
        ensures
            r@ == ValueView::Number(Ratio::one()),
    {
        Value::from_number(&Number::one())
    }

    /// The value 0/1.
    pub fn new_zero() -> (r: Value)
        ensures
            r@ == ValueView::Number(Ratio::zero()),
    {
        Value::from_number(&Number::zero())
    }

    /// 1/1 for true, 0/1 for false.
    pub fn from_truth(truth: bool) -> (r: Value)
        ensures
            r@ == ValueView::Number(Ratio::truth(truth)),
    {
        if truth {
            Value::new_one()
        } else {
            Value::new_zero()
        }
    }
}

/// An expression.
#[derive(Debug)]
pub enum Expr {
    ValueExpr(Value),
    BowlReadExpr(Box<Expr>, Box<Expr>),
    MemReadExpr(Box<Expr>),
    BowlWriteExpr(Box<Expr>, Box<Expr>, Box<Expr>),
    MemWriteExpr(Box<Expr>, Box<Expr>),
    DenoFuncExpr(Box<Expr>),
    PlusFuncExpr(Box<Expr>, Box<Expr>),
    MinusFuncExpr(Box<Expr>, Box<Expr>),
    MulFuncExpr(Box<Expr>, Box<Expr>),
    NumberSepFuncExpr(Box<Expr>, Box<Expr>),
    AndFuncExpr(Box<Expr>, Box<Expr>),
    OrFuncExpr(Box<Expr>, Box<Expr>),
    NotFuncExpr(Box<Expr>),
    EqFuncExpr(Box<Expr>, Box<Expr>),
    GtFuncExpr(Box<Expr>, Box<Expr>),
    LtFuncExpr(Box<Expr>, Box<Expr>),
}

/// The expression of the model that an expression stands for.
pub open spec fn expr_view(e: Expr) -> ExprView
    decreases e,
{
    match e {
        Expr::ValueExpr(v) => ExprView::Value(v@),
        Expr::BowlReadExpr(b, k) => ExprView::BowlRead(
            Box::new(expr_view(*b)),
            Box::new(expr_view(*k)),
        ),
        Expr::MemReadExpr(k) => ExprView::MemRead(Box::new(expr_view(*k))),
        Expr::BowlWriteExpr(b, k, v) => ExprView::BowlWrite(
            Box::new(expr_view(*b)),
            Box::new(expr_view(*k)),
            Box::new(expr_view(*v)),
        ),
        Expr::MemWriteExpr(k, v) => ExprView::MemWrite(
            Box::new(expr_view(*k)),
            Box::new(expr_view(*v)),
        ),
        Expr::DenoFuncExpr(a) => ExprView::Unary(UnaryOp::Denominator, Box::new(expr_view(*a))),
        Expr::NotFuncExpr(a) => ExprView::Unary(UnaryOp::Not, Box::new(expr_view(*a))),
        Expr::PlusFuncExpr(a, b) => binary_view(BinaryOp::Plus, expr_view(*a), expr_view(*b)),
        Expr::MinusFuncExpr(a, b) => binary_view(BinaryOp::Minus, expr_view(*a), expr_view(*b)),
        Expr::MulFuncExpr(a, b) => binary_view(BinaryOp::Times, expr_view(*a), expr_view(*b)),
        Expr::NumberSepFuncExpr(a, b) => binary_view(
            BinaryOp::Over,
            expr_view(*a),
            expr_view(*b),
        ),
        Expr::AndFuncExpr(a, b) => binary_view(BinaryOp::And, expr_view(*a), expr_view(*b)),
        Expr::OrFuncExpr(a, b) => binary_view(BinaryOp::Or, expr_view(*a), expr_view(*b)),
        Expr::EqFuncExpr(a, b) => binary_view(BinaryOp::Equal, expr_view(*a), expr_view(*b)),
        Expr::GtFuncExpr(a, b) => binary_view(BinaryOp::Greater, expr_view(*a), expr_view(*b)),
        Expr::LtFuncExpr(a, b) => binary_view(BinaryOp::Less, expr_view(*a), expr_view(*b)),
    }
}

/// The expression `a op b` of the model.
pub open spec fn binary_view(op: BinaryOp, a: ExprView, b: ExprView) -> ExprView {
    ExprView::Binary(op, Box::new(a), Box::new(b))
}

impl View for Expr {
    type V = ExprView;

    open spec fn view(&self) -> ExprView {
        expr_view(*self)
    }
}

impl Clone for Expr {
    fn clone(&self) -> (r: Expr)
        ensures
            r@ == self@,
        decreases self,
    {
        match self {
            Expr::ValueExpr(v) => Expr::ValueExpr(v.clone()),
            Expr::BowlReadExpr(b, k) => Expr::BowlReadExpr(
                Box::new((**b).clone()),
                Box::new((**k).clone()),
            ),
            Expr::MemReadExpr(k) => Expr::MemReadExpr(Box::new((**k).clone())),
            Expr::BowlWriteExpr(b, k, v) => Expr::BowlWriteExpr(
                Box::new((**b).clone()),
                Box::new((**k).clone()),
                Box::new((**v).clone()),
            ),
            Expr::MemWriteExpr(k, v) => Expr::MemWriteExpr(
                Box::new((**k).clone()),
                Box::new((**v).clone()),
            ),
            Expr::DenoFuncExpr(a) => Expr::DenoFuncExpr(Box::new((**a).clone())),
            Expr::NotFuncExpr(a) => Expr::NotFuncExpr(Box::new((**a).clone())),
            Expr::PlusFuncExpr(a, b) => Expr::PlusFuncExpr(
                Box::new((**a).clone()),
                Box::new((**b).clone()),
            ),
            Expr::MinusFuncExpr(a, b) => Expr::MinusFuncExpr(
                Box::new((**a).clone()),
                Box::new((**b).clone()),
            ),
            Expr::MulFuncExpr(a, b) => Expr::MulFuncExpr(
                Box::new((**a).clone()),
                Box::new((**b).clone()),
            ),
            Expr::NumberSepFuncExpr(a, b) => Expr::NumberSepFuncExpr(
                Box::new((**a).clone()),
                Box::new((**b).clone()),
            ),
            Expr::AndFuncExpr(a, b) => Expr::AndFuncExpr(
                Box::new((**a).clone()),
                Box::new((**b).clone()),
            ),
            Expr::OrFuncExpr(a, b) => Expr::OrFuncExpr(
                Box::new((**a).clone()),
                Box::new((**b).clone()),
            ),
            Expr::EqFuncExpr(a, b) => Expr::EqFuncExpr(
                Box::new((**a).clone()),
                Box::new((**b).clone()),
            ),
            Expr::GtFuncExpr(a, b) => Expr::GtFuncExpr(
                Box::new((**a).clone()),
                Box::new((**b).clone()),
            ),
            Expr::LtFuncExpr(a, b) => Expr::LtFuncExpr(
                Box::new((**a).clone()),
                Box::new((**b).clone()),
            ),
        }
    }
}

/// One entry of a bowl: a key expression and a body expression.
#[derive(Debug)]
pub struct Noodle {
    pub nn_expr: Expr,
    pub expr: Expr,
}

impl View for Noodle {
    type V = NoodleView;

    open spec fn view(&self) -> NoodleView {
        NoodleView { key: self.nn_expr@, body: self.expr@ }
    }
}

impl Clone for Noodle {
    fn clone(&self) -> (r: Noodle)
        ensures
            r@ == self@,
    {
        Noodle { nn_expr: self.nn_expr.clone(), expr: self.expr.clone() }
    }
}

impl Noodle {
    /// The noodle `[key; value]` of two literals.
    pub fn literal(key: Value, value: Value) -> (r: Noodle)
        ensures
            r@ == crate::model::literal_noodle(key@, value@),
    {
        Noodle { nn_expr: Expr::ValueExpr(key), expr: Expr::ValueExpr(value) }
    }
}

/// The noodles of the model that a vector of noodles stands for.
pub open spec fn noodles_view(noodles: Seq<Noodle>) -> Seq<NoodleView> {
    Seq::new(noodles.len(), |i: int| noodles[i]@)
}

/// An ordered list of noodles.
#[derive(Debug)]
pub struct Bowl {
    pub noodles: Vec<Noodle>,
}

impl View for Bowl {
    type V = Seq<NoodleView>;

    open spec fn view(&self) -> Seq<NoodleView> {
        noodles_view(self.noodles@)
    }
}

impl Clone for Bowl {
    fn clone(&self) -> (r: Bowl)
        ensures
            r@ == self@,
    {
        let mut noodles: Vec<Noodle> = Vec::new();
        let mut i: usize = 0;
        while i < self.noodles.len()
            invariant
                i <= self.noodles.len(),
                noodles@.len() == i,
                forall|j: int| 0 <= j < i ==> noodles@[j]@ == self.noodles@[j]@,
            decreases self.noodles.len() - i,
        {
            noodles.push(self.noodles[i].clone());
            i = i + 1;
        }
        let r = Bowl { noodles };
        assert(r@ =~= self@);
        r
    }
}

impl Bowl {
    /// The empty bowl.
    pub fn new() -> (r: Bowl)
        ensures
            r@ == Seq::<NoodleView>::empty(),
    {
        let r = Bowl { noodles: Vec::new() };
        assert(r@ =~= Seq::<NoodleView>::empty());
        r
    }
}

} // verus!
