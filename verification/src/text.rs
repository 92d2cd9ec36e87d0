//! Values, expressions and bowls as text, in ASCII.
//!
//! A bowl value is shown by its contents. Bowls can hold handles to each
//! other, and to themselves, so `depth` bounds how many bowls deep the text
//! goes: a bowl below that is shown as `{...}`.

use crate::datatype::{noodles_view, Bowl, Expr, Noodle, Number, Value};
use crate::env::bowls_view;
use crate::model::{BinaryOp, ExprView, NoodleView, UnaryOp, ValueView};
use crate::natural::decimal_text;
use crate::rational::Ratio;
use vstd::prelude::*;

verus! {

/// An integer in decimal digits, with `-` before a negative one.
pub open spec fn integer_text(i: int) -> Seq<u8> {
    if i < 0 {
        seq![45u8] + decimal_text((-i) as nat)
    } else {
        decimal_text(i as nat)
    }
}

/// A number: `n` where the denominator is one, `n/d` elsewhere.
pub open spec fn number_text(q: Ratio) -> Seq<u8> {
    if q.den == 1 {
        integer_text(q.num)
    } else {
        integer_text(q.num) + seq![47u8] + decimal_text(q.den as nat)
    }
}

/// The position at or after `from` where the parenthesis closes that `open`
/// parentheses before `from` have left open; the length of the text if it
/// never closes.
pub open spec fn closing(text: Seq<u8>, from: int, open: int) -> int
    decreases text.len() - from,
{
    if from < 0 || from >= text.len() {
        text.len() as int
    } else {
        let now = if text[from] == 40 {
            open + 1
        } else if text[from] == 41 {
            open - 1
        } else {
            open
        };
        if now == 0 {
            from
        } else {
            closing(text, from + 1, now)
        }
    }
}

/// Whether the text is wrapped in one pair of parentheses: it starts with
/// `(`, and that parenthesis closes at the very end.
pub open spec fn wrapped(text: Seq<u8>) -> bool {
    text.len() >= 2 && text[0] == 40 && text[text.len() - 1] == 41 && closing(text, 1, 1)
        == text.len() - 1
}

/// The text without the pairs of parentheses that wrap all of it.
pub open spec fn stripped(text: Seq<u8>) -> Seq<u8>
    decreases text.len(),
{
    if wrapped(text) {
        stripped(text.subrange(1, text.len() - 1))
    } else {
        text
    }
}

/// The sign of a binary operator.
pub open spec fn operator_text(op: BinaryOp) -> Seq<u8> {
    match op {
        BinaryOp::Plus => seq![43u8],
        BinaryOp::Minus => seq![45u8],
        BinaryOp::Times => seq![42u8],
        BinaryOp::Over => seq![47u8],
        BinaryOp::And => seq![38u8],
        BinaryOp::Or => seq![124u8],
        BinaryOp::Equal => seq![63u8, 61u8],
        BinaryOp::Greater => seq![62u8],
        BinaryOp::Less => seq![60u8],
    }
}

/// `NULL`.
pub open spec fn null_text() -> Seq<u8> {
    seq![78u8, 85u8, 76u8, 76u8]
}

/// `{...}`, for a bowl that lies too deep to be shown.
pub open spec fn deep_text() -> Seq<u8> {
    seq![123u8, 46u8, 46u8, 46u8, 125u8]
}

/// The bowl that a handle names among `bowls`; the empty bowl if it names
/// none.
pub open spec fn bowl_at(bowls: Seq<Seq<NoodleView>>, handle: nat) -> Seq<NoodleView> {
    if handle < bowls.len() {
        bowls[handle as int]
    } else {
        Seq::empty()
    }
}

/// A value: a number, `NULL`, or the contents of the bowl.
pub open spec fn value_text(v: ValueView, bowls: Seq<Seq<NoodleView>>, depth: nat) -> Seq<u8>
    decreases depth, 1nat,
{
    match v {
        ValueView::Number(q) => number_text(q),
        ValueView::Null => null_text(),
        ValueView::Bowl(h) => if depth == 0 {
            deep_text()
        } else {
            bowl_text(bowl_at(bowls, h), bowls, (depth - 1) as nat)
        },
    }
}

/// An expression. Operands stand in parentheses, without the parentheses
/// that their own text is wrapped in.
pub open spec fn expr_text(e: ExprView, bowls: Seq<Seq<NoodleView>>, depth: nat) -> Seq<u8>
    decreases depth, 2nat, e,
{
    match e {
        ExprView::Value(v) => value_text(v, bowls, depth),
        ExprView::BowlRead(b, k) => seq![40u8, 40u8] + stripped(expr_text(*b, bowls, depth))
            + seq![41u8, 58u8, 40u8] + stripped(expr_text(*k, bowls, depth)) + seq![41u8, 41u8],
        ExprView::MemRead(k) => seq![40u8, 64u8, 58u8, 40u8] + stripped(
            expr_text(*k, bowls, depth),
        ) + seq![41u8, 41u8],
        ExprView::BowlWrite(b, k, v) => seq![40u8, 40u8] + stripped(expr_text(*b, bowls, depth))
            + seq![41u8, 58u8, 40u8] + stripped(expr_text(*k, bowls, depth)) + seq![
            41u8,
            32u8,
            61u8,
            32u8,
            40u8,
        ] + stripped(expr_text(*v, bowls, depth)) + seq![41u8, 41u8],
        ExprView::MemWrite(k, v) => seq![40u8, 64u8, 58u8, 40u8] + stripped(
            expr_text(*k, bowls, depth),
        ) + seq![41u8, 32u8, 61u8, 32u8, 40u8] + stripped(expr_text(*v, bowls, depth)) + seq![
            41u8,
            41u8,
        ],
        ExprView::Unary(UnaryOp::Denominator, a) => seq![94u8, 40u8] + stripped(
            expr_text(*a, bowls, depth),
        ) + seq![41u8],
        ExprView::Unary(UnaryOp::Not, a) => seq![33u8, 40u8] + expr_text(*a, bowls, depth) + seq![
            41u8,
        ],
        ExprView::Binary(op, a, b) => seq![40u8] + stripped(expr_text(*a, bowls, depth)) + seq![
            41u8,
        ] + operator_text(op) + seq![40u8] + stripped(expr_text(*b, bowls, depth)) + seq![41u8],
    }
}

/// A noodle: `[key; body]`.
pub open spec fn noodle_text(noodle: NoodleView, bowls: Seq<Seq<NoodleView>>, depth: nat) -> Seq<
    u8,
>
    decreases depth, 3nat,
{
    seq![91u8] + expr_text(noodle.key, bowls, depth) + seq![59u8, 32u8] + expr_text(
        noodle.body,
        bowls,
        depth,
    ) + seq![93u8]
}

/// The first `count` noodles of a bowl, one after the other.
pub open spec fn noodles_text(
    noodles: Seq<NoodleView>,
    count: nat,
    bowls: Seq<Seq<NoodleView>>,
    depth: nat,
) -> Seq<u8>
    decreases depth, 4nat, count,
{
    if count == 0 || count > noodles.len() {
        Seq::empty()
    } else {
        noodles_text(noodles, (count - 1) as nat, bowls, depth) + noodle_text(
            noodles[count - 1],
            bowls,
            depth,
        )
    }
}

/// A bowl: its noodles between braces.
pub open spec fn bowl_text(noodles: Seq<NoodleView>, bowls: Seq<Seq<NoodleView>>, depth: nat) -> Seq<
    u8,
>
    decreases depth, 5nat,
{
    seq![123u8] + noodles_text(noodles, noodles.len(), bowls, depth) + seq![125u8]
}

/// Adds `more` to the end of `text`.
fn append(text: &mut Vec<u8>, more: &Vec<u8>)
    ensures
        final(text)@ == old(text)@ + more@,
{
    let mut i: usize = 0;
    assert(text@ =~= old(text)@ + more@.subrange(0, 0));
    while i < more.len()
        invariant
            i <= more.len(),
            text@ == old(text)@ + more@.subrange(0, i as int),
        decreases more.len() - i,
    {
        text.push(more[i]);
        assert(text@ =~= old(text)@ + more@.subrange(0, i + 1));
        i = i + 1;
    }
    assert(more@.subrange(0, i as int) =~= more@);
}

/// Finds where the parenthesis closes that opens the text.
fn find_closing(text: &Vec<u8>) -> (r: usize)
    requires
        text@.len() >= 1,
    ensures
        r == closing(text@, 1, 1),
        r <= text@.len(),
{
    let mut i: usize = 1;
    let mut open: usize = 1;
    while i < text.len()
        invariant
            1 <= i <= text@.len(),
            1 <= open <= i,
            closing(text@, 1, 1) == closing(text@, i as int, open as int),
        decreases text@.len() - i,
    {
        if text[i] == 40 {
            open = open + 1;
        } else if text[i] == 41 {
            open = open - 1;
            if open == 0 {
                return i;
            }
        }
        i = i + 1;
    }
    i
}

/// Takes away the pairs of parentheses that wrap all of the text.
pub fn strip_text(whole: Vec<u8>) -> (r: Vec<u8>)
    ensures
        r@ == stripped(whole@),
{
    let mut text = whole;
    loop
        invariant
            stripped(whole@) == stripped(text@),
        decreases text@.len(),
    {
        let n = text.len();
        if n < 2 || text[0] != 40 || text[n - 1] != 41 {
            return text;
        }
        if find_closing(&text) != n - 1 {
            return text;
        }
        let mut inner: Vec<u8> = Vec::new();
        let mut i: usize = 1;
        while i < n - 1
            invariant
                n == text@.len(),
                n >= 2,
                1 <= i <= n - 1,
                inner@ == text@.subrange(1, i as int),
            decreases n - i,
        {
            inner.push(text[i]);
            assert(inner@ =~= text@.subrange(1, i + 1));
            i = i + 1;
        }
        text = inner;
    }
}

impl Number {
    /// The number as text: `n` where the denominator is one, `n/d`
    /// elsewhere.
    pub fn to_text(&self) -> (r: Vec<u8>)
        ensures
            r@ == number_text(self@),
    {
        let mut text: Vec<u8> = Vec::new();
        if self.numerator().is_negative() {
            text.push(45);
        }
        let digits = self.numerator().magnitude.to_decimal();
        append(&mut text, &digits);
        assert(text@ =~= integer_text(self@.num));
        if !self.denominator().eq(&crate::natural::Natural::one()) {
            text.push(47);
            let below = self.denominator().to_decimal();
            append(&mut text, &below);
        }
        assert(text@ =~= number_text(self@));
        text
    }
}

impl Value {
    /// The value as text: a number, `NULL`, or the contents of the bowl that
    /// the handle names among `bowls`.
    pub fn to_text(&self, bowls: &Vec<Bowl>, depth: usize) -> (r: Vec<u8>)
        ensures
            r@ == value_text(self@, bowls_view(bowls@), depth as nat),
        decreases depth, 1nat,
    {
        match self {
            Value::Number(number) => number.to_text(),
            Value::Null => {
                let mut text: Vec<u8> = Vec::new();
                text.push(78);
                text.push(85);
                text.push(76);
                text.push(76);
                assert(text@ =~= null_text());
                text
            },
            Value::Bowl(handle) => {
                if depth == 0 {
                    let mut text: Vec<u8> = Vec::new();
                    text.push(123);
                    text.push(46);
                    text.push(46);
                    text.push(46);
                    text.push(125);
                    assert(text@ =~= deep_text());
                    text
                } else if *handle < bowls.len() {
                    bowls[*handle].to_text(bowls, depth - 1)
                } else {
                    Bowl::new().to_text(bowls, depth - 1)
                }
            },
        }
    }
}

/// The text of an expression without the parentheses that wrap all of it.
pub fn strip_parens(expr: &Expr, bowls: &Vec<Bowl>, depth: usize) -> (r: Vec<u8>)
    ensures
        r@ == stripped(expr_text(expr@, bowls_view(bowls@), depth as nat)),
    decreases depth, 2nat, expr, 1nat,
{
    strip_text(expr.to_text(bowls, depth))
}

/// `(first)sign(second)`.
fn binary_text(op: BinaryOp, first: Vec<u8>, second: Vec<u8>) -> (r: Vec<u8>)
    ensures
        r@ == seq![40u8] + first@ + seq![41u8] + operator_text(op) + seq![40u8] + second@ + seq![
            41u8,
        ],
{
    let mut text: Vec<u8> = Vec::new();
    text.push(40);
    append(&mut text, &first);
    text.push(41);
    match op {
        BinaryOp::Plus => text.push(43),
        BinaryOp::Minus => text.push(45),
        BinaryOp::Times => text.push(42),
        BinaryOp::Over => text.push(47),
        BinaryOp::And => text.push(38),
        BinaryOp::Or => text.push(124),
        BinaryOp::Equal => {
            text.push(63);
            text.push(61);
        },
        BinaryOp::Greater => text.push(62),
        BinaryOp::Less => text.push(60),
    }
    text.push(40);
    append(&mut text, &second);
    text.push(41);
    assert(text@ =~= seq![40u8] + first@ + seq![41u8] + operator_text(op) + seq![40u8] + second@
        + seq![41u8]);
    text
}

impl Expr {
    /// The expression as text. Operands stand in parentheses, without the
    /// parentheses that their own text is wrapped in.
    pub fn to_text(&self, bowls: &Vec<Bowl>, depth: usize) -> (r: Vec<u8>)
        ensures
            r@ == expr_text(self@, bowls_view(bowls@), depth as nat),
        decreases depth, 2nat, self, 0nat,
    {
        let ghost bv = bowls_view(bowls@);
        let ghost d = depth as nat;
        match self {
            Expr::ValueExpr(value) => value.to_text(bowls, depth),
            Expr::BowlReadExpr(bowl_expr, nn_expr) => {
                let mut text: Vec<u8> = Vec::new();
                text.push(40);
                text.push(40);
                let bowl = strip_parens(bowl_expr, bowls, depth);
                append(&mut text, &bowl);
                text.push(41);
                text.push(58);
                text.push(40);
                let key = strip_parens(nn_expr, bowls, depth);
                append(&mut text, &key);
                text.push(41);
                text.push(41);
                assert(text@ =~= expr_text(self@, bv, d));
                text
            },
            Expr::MemReadExpr(nn_expr) => {
                let mut text: Vec<u8> = Vec::new();
                text.push(40);
                text.push(64);
                text.push(58);
                text.push(40);
                let key = strip_parens(nn_expr, bowls, depth);
                append(&mut text, &key);
                text.push(41);
                text.push(41);
                assert(text@ =~= expr_text(self@, bv, d));
                text
            },
            Expr::BowlWriteExpr(bowl_expr, nn_expr, value_expr) => {
                let mut text: Vec<u8> = Vec::new();
                text.push(40);
                text.push(40);
                let bowl = strip_parens(bowl_expr, bowls, depth);
                append(&mut text, &bowl);
                text.push(41);
                text.push(58);
                text.push(40);
                let key = strip_parens(nn_expr, bowls, depth);
                append(&mut text, &key);
                text.push(41);
                text.push(32);
                text.push(61);
                text.push(32);
                text.push(40);
                let value = strip_parens(value_expr, bowls, depth);
                append(&mut text, &value);
                text.push(41);
                text.push(41);
                assert(text@ =~= expr_text(self@, bv, d));
                text
            },
            Expr::MemWriteExpr(nn_expr, value_expr) => {
                let mut text: Vec<u8> = Vec::new();
                text.push(40);
                text.push(64);
                text.push(58);
                text.push(40);
                let key = strip_parens(nn_expr, bowls, depth);
                append(&mut text, &key);
                text.push(41);
                text.push(32);
                text.push(61);
                text.push(32);
                text.push(40);
                let value = strip_parens(value_expr, bowls, depth);
                append(&mut text, &value);
                text.push(41);
                text.push(41);
                assert(text@ =~= expr_text(self@, bv, d));
                text
            },
            Expr::DenoFuncExpr(expr) => {
                let mut text: Vec<u8> = Vec::new();
                text.push(94);
                text.push(40);
                let operand = strip_parens(expr, bowls, depth);
                append(&mut text, &operand);
                text.push(41);
                assert(text@ =~= expr_text(self@, bv, d));
                text
            },
            Expr::NotFuncExpr(expr) => {
                let mut text: Vec<u8> = Vec::new();
                text.push(33);
                text.push(40);
                let operand = expr.to_text(bowls, depth);
                append(&mut text, &operand);
                text.push(41);
                assert(text@ =~= expr_text(self@, bv, d));
                text
            },
            Expr::PlusFuncExpr(expr1, expr2) => binary_text(
                BinaryOp::Plus,
                strip_parens(expr1, bowls, depth),
                strip_parens(expr2, bowls, depth),
            ),
            Expr::MinusFuncExpr(expr1, expr2) => binary_text(
                BinaryOp::Minus,
                strip_parens(expr1, bowls, depth),
                strip_parens(expr2, bowls, depth),
            ),
            Expr::MulFuncExpr(expr1, expr2) => binary_text(
                BinaryOp::Times,
                strip_parens(expr1, bowls, depth),
                strip_parens(expr2, bowls, depth),
            ),
            Expr::NumberSepFuncExpr(expr1, expr2) => binary_text(
                BinaryOp::Over,
                strip_parens(expr1, bowls, depth),
                strip_parens(expr2, bowls, depth),
            ),
            Expr::AndFuncExpr(expr1, expr2) => binary_text(
                BinaryOp::And,
                strip_parens(expr1, bowls, depth),
                strip_parens(expr2, bowls, depth),
            ),
            Expr::OrFuncExpr(expr1, expr2) => binary_text(
                BinaryOp::Or,
                strip_parens(expr1, bowls, depth),
                strip_parens(expr2, bowls, depth),
            ),
            Expr::EqFuncExpr(expr1, expr2) => binary_text(
                BinaryOp::Equal,
                strip_parens(expr1, bowls, depth),
                strip_parens(expr2, bowls, depth),
            ),
            Expr::GtFuncExpr(expr1, expr2) => binary_text(
                BinaryOp::Greater,
                strip_parens(expr1, bowls, depth),
                strip_parens(expr2, bowls, depth),
            ),
            Expr::LtFuncExpr(expr1, expr2) => binary_text(
                BinaryOp::Less,
                strip_parens(expr1, bowls, depth),
                strip_parens(expr2, bowls, depth),
            ),
        }
    }
}

impl Noodle {
    /// The noodle as text: `[key; body]`.
    pub fn to_text(&self, bowls: &Vec<Bowl>, depth: usize) -> (r: Vec<u8>)
        ensures
            r@ == noodle_text(self@, bowls_view(bowls@), depth as nat),
        decreases depth, 3nat,
    {
        let mut text: Vec<u8> = Vec::new();
        text.push(91);
        let key = self.nn_expr.to_text(bowls, depth);
        append(&mut text, &key);
        text.push(59);
        text.push(32);
        let body = self.expr.to_text(bowls, depth);
        append(&mut text, &body);
        text.push(93);
        assert(text@ =~= noodle_text(self@, bowls_view(bowls@), depth as nat));
        text
    }
}

impl Bowl {
    /// The bowl as text: its noodles between braces.
    pub fn to_text(&self, bowls: &Vec<Bowl>, depth: usize) -> (r: Vec<u8>)
        ensures
            r@ == bowl_text(self@, bowls_view(bowls@), depth as nat),
        decreases depth, 5nat,
    {
        let mut text: Vec<u8> = Vec::new();
        text.push(123);
        let mut i: usize = 0;
        while i < self.noodles.len()
            invariant
                i <= self.noodles.len(),
                text@ == seq![123u8] + noodles_text(
                    self@,
                    i as nat,
                    bowls_view(bowls@),
                    depth as nat,
                ),
            decreases self.noodles.len() - i,
        {
            let noodle = self.noodles[i].to_text(bowls, depth);
            assert(self@[i as int] == self.noodles@[i as int]@);
            append(&mut text, &noodle);
            assert(text@ =~= seq![123u8] + noodles_text(
                self@,
                (i + 1) as nat,
                bowls_view(bowls@),
                depth as nat,
            ));
            i = i + 1;
        }
        text.push(125);
        text
    }
}

} // verus!
