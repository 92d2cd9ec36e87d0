//! From tokens to a program.
//!
//! ```text
//! program := bowl
//! bowl    := '{' noodle* '}'
//! noodle  := '[' expr ';' expr ']'
//! expr    := number | bowl | '@' | '(' expr ')' | '^' expr | '!' expr
//!          | expr op expr
//! ```
//!
//! The binary operators, from the loosest to the tightest: `=`; `&` and `|`;
//! `?=`, `>` and `<`; `+` and `-`; `*`; `:`; `/`. `=` groups to the right,
//! the others to the left. `^` and `!` bind tighter than all of them.
//!
//! `@` stands only to the left of a `:`. To the left of `=` stands a read,
//! `b:k` or `@:k`, which the `=` turns into a write.
//!
//! A bowl in the text is one bowl of the machine: it gets a handle when its
//! closing brace is read, and the expression holds the handle. Handles count
//! on from `base`, the number of bowls that the machine holds already.

use crate::datatype::{lemma_whole_wf, Bowl, Expr, Noodle, Value};
use crate::env::bowls_view;
use crate::error::{ParseError, RunError};
use crate::integer::Integer;
use crate::lexer::{lex, tokenize, tokens_view, Symbol, Token, TokenView};
use crate::model::{number_literal, BinaryOp, ExprView, NoodleView, UnaryOp, ValueView};
use crate::natural::Natural;
use crate::rational::Ratio;
use vstd::prelude::*;

verus! {

/// What an expression of the text can be: the memory `@`, or an expression
/// of the machine.
#[derive(Debug)]
pub enum Operand {
    Memory,
    Expr(Expr),
}

/// The model of an [`Operand`].
pub enum OperandView {
    Memory,
    Expr(ExprView),
}

impl View for Operand {
    type V = OperandView;

    open spec fn view(&self) -> OperandView {
        match self {
            Operand::Memory => OperandView::Memory,
            Operand::Expr(e) => OperandView::Expr(e@),
        }
    }
}

/// A program read from its text: the root bowl, and the bowls that the
/// handles in it name, in the order of their handles.
#[derive(Debug)]
pub struct Program {
    pub root: Bowl,
    pub bowls: Vec<Bowl>,
}

/// The bowls of the machine.
pub type Bowls = Seq<Seq<NoodleView>>;

/// How tightly a binary operator binds; `None` for a symbol that is none.
pub open spec fn precedence_of(s: Symbol) -> Option<nat> {
    match s {
        Symbol::Assign => Some(1),
        Symbol::Amp | Symbol::Pipe => Some(2),
        Symbol::Equal | Symbol::Greater | Symbol::Less => Some(3),
        Symbol::Plus | Symbol::Minus => Some(4),
        Symbol::Star => Some(5),
        Symbol::Colon => Some(6),
        Symbol::Slash => Some(7),
        _ => None,
    }
}

/// How tightly the operators in the right operand must bind at least: as
/// tightly as the operator itself for `=`, which groups to the right, and
/// tighter for the others.
pub open spec fn right_precedence_of(s: Symbol) -> nat {
    match precedence_of(s) {
        Some(p) => if s == Symbol::Assign {
            p
        } else {
            p + 1
        },
        None => 0,
    }
}

/// The operator of the machine that a symbol stands for.
pub open spec fn binary_op_of(s: Symbol) -> Option<BinaryOp> {
    match s {
        Symbol::Plus => Some(BinaryOp::Plus),
        Symbol::Minus => Some(BinaryOp::Minus),
        Symbol::Star => Some(BinaryOp::Times),
        Symbol::Slash => Some(BinaryOp::Over),
        Symbol::Amp => Some(BinaryOp::And),
        Symbol::Pipe => Some(BinaryOp::Or),
        Symbol::Equal => Some(BinaryOp::Equal),
        Symbol::Greater => Some(BinaryOp::Greater),
        Symbol::Less => Some(BinaryOp::Less),
        _ => None,
    }
}

/// The expression `lhs s rhs`, or `None` where the operands do not fit the
/// operator.
pub open spec fn join(s: Symbol, lhs: OperandView, rhs: OperandView) -> Option<OperandView> {
    match rhs {
        OperandView::Memory => None,
        OperandView::Expr(right) => match s {
            Symbol::Colon => match lhs {
                OperandView::Memory => Some(OperandView::Expr(ExprView::MemRead(Box::new(right)))),
                OperandView::Expr(bowl) => Some(
                    OperandView::Expr(ExprView::BowlRead(Box::new(bowl), Box::new(right))),
                ),
            },
            Symbol::Assign => match lhs {
                OperandView::Expr(ExprView::BowlRead(bowl, key)) => Some(
                    OperandView::Expr(ExprView::BowlWrite(bowl, key, Box::new(right))),
                ),
                OperandView::Expr(ExprView::MemRead(key)) => Some(
                    OperandView::Expr(ExprView::MemWrite(key, Box::new(right))),
                ),
                _ => None,
            },
            _ => match (lhs, binary_op_of(s)) {
                (OperandView::Expr(left), Some(op)) => Some(
                    OperandView::Expr(ExprView::Binary(op, Box::new(left), Box::new(right))),
                ),
                _ => None,
            },
        },
    }
}

/// A number, `@`, an expression in parentheses, or a bowl, at `pos`.
/// Returns the operand, the position after it, and the bowls allocated so
/// far.
pub open spec fn parse_atom(tokens: Seq<TokenView>, pos: int, base: nat, bowls: Bowls) -> Option<
    (OperandView, int, Bowls),
>
    decreases tokens.len() - pos, 0nat,
{
    if pos < 0 || pos >= tokens.len() {
        None
    } else {
        match tokens[pos] {
            TokenView::Number(n) => Some(
                (OperandView::Expr(number_literal(Ratio::whole(n as int))), pos + 1, bowls),
            ),
            TokenView::Symbol(Symbol::Memory) => Some((OperandView::Memory, pos + 1, bowls)),
            TokenView::Symbol(Symbol::OpenParen) => match parse_expr(tokens, pos + 1, 1, base, bowls) {
                Some((operand, end, after)) => if pos < end < tokens.len() && tokens[end]
                    == TokenView::Symbol(Symbol::CloseParen) {
                    Some((operand, end + 1, after))
                } else {
                    None
                },
                None => None,
            },
            TokenView::Symbol(Symbol::OpenBowl) => match parse_noodles(
                tokens,
                pos + 1,
                Seq::empty(),
                base,
                bowls,
            ) {
                Some((noodles, end, after)) => if base + after.len() <= usize::MAX {
                    Some(
                        (
                            OperandView::Expr(
                                ExprView::Value(ValueView::Bowl((base + after.len()) as nat)),
                            ),
                            end,
                            after.push(noodles),
                        ),
                    )
                } else {
                    None
                },
                None => None,
            },
            _ => None,
        }
    }
}

/// The noodles of a bowl from `pos` on, after those in `noodles`, up to the
/// closing brace. Returns all the noodles and the position after the brace.
pub open spec fn parse_noodles(
    tokens: Seq<TokenView>,
    pos: int,
    noodles: Seq<NoodleView>,
    base: nat,
    bowls: Bowls,
) -> Option<(Seq<NoodleView>, int, Bowls)>
    decreases tokens.len() - pos, 0nat,
{
    if pos < 0 || pos >= tokens.len() {
        None
    } else if tokens[pos] == TokenView::Symbol(Symbol::CloseBowl) {
        Some((noodles, pos + 1, bowls))
    } else if tokens[pos] == TokenView::Symbol(Symbol::OpenNoodle) {
        match parse_expr(tokens, pos + 1, 1, base, bowls) {
            Some((OperandView::Expr(key), semicolon, bowls1)) => if pos < semicolon < tokens.len()
                && tokens[semicolon] == TokenView::Symbol(Symbol::Semicolon) {
                match parse_expr(tokens, semicolon + 1, 1, base, bowls1) {
                    Some((OperandView::Expr(body), close, bowls2)) => if semicolon < close
                        < tokens.len() && tokens[close] == TokenView::Symbol(Symbol::CloseNoodle) {
                        parse_noodles(
                            tokens,
                            close + 1,
                            noodles.push(NoodleView { key, body }),
                            base,
                            bowls2,
                        )
                    } else {
                        None
                    },
                    _ => None,
                }
            } else {
                None
            },
            _ => None,
        }
    } else {
        None
    }
}

/// An atom at `pos` with any number of `^` and `!` before it.
pub open spec fn parse_unary(tokens: Seq<TokenView>, pos: int, base: nat, bowls: Bowls) -> Option<
    (OperandView, int, Bowls),
>
    decreases tokens.len() - pos, 1nat,
{
    if pos < 0 || pos >= tokens.len() {
        None
    } else if tokens[pos] == TokenView::Symbol(Symbol::Caret) {
        match parse_unary(tokens, pos + 1, base, bowls) {
            Some((OperandView::Expr(e), end, after)) => Some(
                (
                    OperandView::Expr(ExprView::Unary(UnaryOp::Denominator, Box::new(e))),
                    end,
                    after,
                ),
            ),
            _ => None,
        }
    } else if tokens[pos] == TokenView::Symbol(Symbol::Bang) {
        match parse_unary(tokens, pos + 1, base, bowls) {
            Some((OperandView::Expr(e), end, after)) => Some(
                (OperandView::Expr(ExprView::Unary(UnaryOp::Not, Box::new(e))), end, after),
            ),
            _ => None,
        }
    } else {
        parse_atom(tokens, pos, base, bowls)
    }
}

/// An expression at `pos` whose binary operators outside parentheses all
/// bind at least as tightly as `min`.
pub open spec fn parse_expr(
    tokens: Seq<TokenView>,
    pos: int,
    min: nat,
    base: nat,
    bowls: Bowls,
) -> Option<(OperandView, int, Bowls)>
    decreases tokens.len() - pos, 2nat,
{
    match parse_unary(tokens, pos, base, bowls) {
        Some((lhs, end, after)) => if pos < end <= tokens.len() {
            parse_rest(tokens, end, min, lhs, base, after)
        } else {
            None
        },
        None => None,
    }
}

/// The rest of an expression whose left operand `lhs` ends before `pos`:
/// as long as a binary operator follows that binds at least as tightly as
/// `min`, the operator and its right operand are joined to the left operand.
pub open spec fn parse_rest(
    tokens: Seq<TokenView>,
    pos: int,
    min: nat,
    lhs: OperandView,
    base: nat,
    bowls: Bowls,
) -> Option<(OperandView, int, Bowls)>
    decreases tokens.len() - pos, 0nat,
{
    if 0 <= pos < tokens.len() && (tokens[pos] matches TokenView::Symbol(s) && (precedence_of(s)
        matches Some(p) && p >= min)) {
        let s = tokens[pos]->Symbol_0;
        match parse_expr(tokens, pos + 1, right_precedence_of(s), base, bowls) {
            Some((rhs, end, after)) => if pos < end <= tokens.len() {
                match join(s, lhs, rhs) {
                    Some(joined) => parse_rest(tokens, end, min, joined, base, after),
                    None => None,
                }
            } else {
                None
            },
            None => None,
        }
    } else {
        Some((lhs, pos, bowls))
    }
}

/// The program that the tokens spell: a bowl and nothing after it. The
/// memory `@` in place of the bowl is an error of its own.
pub open spec fn parse_tokens(tokens: Seq<TokenView>, base: nat) -> Result<
    (Seq<NoodleView>, Bowls),
    RunError,
> {
    if tokens.len() == 1 && tokens[0] == TokenView::Symbol(Symbol::Memory) {
        Err(RunError::RootIsMemory)
    } else if tokens.len() > 0 && tokens[0] == TokenView::Symbol(Symbol::OpenBowl) {
        match parse_noodles(tokens, 1, Seq::empty(), base, Seq::empty()) {
            Some((noodles, end, bowls)) => if end == tokens.len() {
                Ok((noodles, bowls))
            } else {
                Err(RunError::Parse(ParseError))
            },
            None => Err(RunError::Parse(ParseError)),
        }
    } else {
        Err(RunError::Parse(ParseError))
    }
}

/// The program that a source text spells.
pub open spec fn parse_source(bytes: Seq<u8>, base: nat) -> Result<
    (Seq<NoodleView>, Bowls),
    RunError,
> {
    match lex(bytes, 0) {
        Some(tokens) => parse_tokens(tokens, base),
        None => Err(RunError::Parse(ParseError)),
    }
}

/// Whether what the parser returned is what the grammar gives.
pub open spec fn parsed_as(
    r: Option<(Operand, usize)>,
    bowls: Seq<Bowl>,
    expected: Option<(OperandView, int, Bowls)>,
) -> bool {
    match expected {
        Some((operand, end, after)) => r matches Some((found, stop)) && found@ == operand && stop
            == end && bowls_view(bowls) == after,
        None => r is None,
    }
}

/// How tightly a binary operator binds.
fn precedence(s: Symbol) -> (r: Option<u8>)
    ensures
        match precedence_of(s) {
            Some(p) => r == Some(p as u8) && p <= 7,
            None => r is None,
        },
{
    match s {
        Symbol::Assign => Some(1),
        Symbol::Amp | Symbol::Pipe => Some(2),
        Symbol::Equal | Symbol::Greater | Symbol::Less => Some(3),
        Symbol::Plus | Symbol::Minus => Some(4),
        Symbol::Star => Some(5),
        Symbol::Colon => Some(6),
        Symbol::Slash => Some(7),
        _ => None,
    }
}

/// The expression `left s right` for an operator of the machine.
fn binary(s: Symbol, left: Expr, right: Expr) -> (r: Option<Expr>)
    ensures
        match binary_op_of(s) {
            Some(op) => r matches Some(e) && e@ == ExprView::Binary(
                op,
                Box::new(left@),
                Box::new(right@),
            ),
            None => r is None,
        },
{
    match s {
        Symbol::Plus => Some(Expr::PlusFuncExpr(Box::new(left), Box::new(right))),
        Symbol::Minus => Some(Expr::MinusFuncExpr(Box::new(left), Box::new(right))),
        Symbol::Star => Some(Expr::MulFuncExpr(Box::new(left), Box::new(right))),
        Symbol::Slash => Some(Expr::NumberSepFuncExpr(Box::new(left), Box::new(right))),
        Symbol::Amp => Some(Expr::AndFuncExpr(Box::new(left), Box::new(right))),
        Symbol::Pipe => Some(Expr::OrFuncExpr(Box::new(left), Box::new(right))),
        Symbol::Equal => Some(Expr::EqFuncExpr(Box::new(left), Box::new(right))),
        Symbol::Greater => Some(Expr::GtFuncExpr(Box::new(left), Box::new(right))),
        Symbol::Less => Some(Expr::LtFuncExpr(Box::new(left), Box::new(right))),
        _ => None,
    }
}

/// The expression `lhs s rhs`, or `None` where the operands do not fit the
/// operator.
fn join_operands(s: Symbol, lhs: Operand, rhs: Operand) -> (r: Option<Operand>)
    ensures
        match join(s, lhs@, rhs@) {
            Some(joined) => r matches Some(found) && found@ == joined,
            None => r is None,
        },
{
    let right = match rhs {
        Operand::Expr(e) => e,
        Operand::Memory => {
            return None;
        },
    };
    match s {
        Symbol::Colon => match lhs {
            Operand::Memory => Some(Operand::Expr(Expr::MemReadExpr(Box::new(right)))),
            Operand::Expr(bowl) => Some(
                Operand::Expr(Expr::BowlReadExpr(Box::new(bowl), Box::new(right))),
            ),
        },
        Symbol::Assign => match lhs {
            Operand::Expr(Expr::BowlReadExpr(bowl, key)) => Some(
                Operand::Expr(Expr::BowlWriteExpr(bowl, key, Box::new(right))),
            ),
            Operand::Expr(Expr::MemReadExpr(key)) => Some(
                Operand::Expr(Expr::MemWriteExpr(key, Box::new(right))),
            ),
            _ => None,
        },
        _ => match lhs {
            Operand::Expr(left) => match binary(s, left, right) {
                Some(e) => Some(Operand::Expr(e)),
                None => None,
            },
            Operand::Memory => None,
        },
    }
}

/// Reads a number, `@`, an expression in parentheses, or a bowl.
fn atom(tokens: &Vec<Token>, pos: usize, base: usize, bowls: &mut Vec<Bowl>) -> (r: Option<
    (Operand, usize),
>)
    ensures
        parsed_as(
            r,
            final(bowls)@,
            parse_atom(tokens_view(tokens@), pos as int, base as nat, bowls_view(old(bowls)@)),
        ),
        r matches Some((_, end)) ==> pos < end <= tokens@.len(),
    decreases tokens@.len() - pos, 0nat,
{
    if pos >= tokens.len() {
        return None;
    }
    assert(tokens_view(tokens@)[pos as int] == tokens@[pos as int]@);
    match &tokens[pos] {
        Token::Number(n) => {
            proof {
                lemma_whole_wf(n@ as int);
            }
            let numerator = Integer::from_natural(n.clone());
            let value = Value::from_big_int(&numerator, &Natural::one());
            Some((Operand::Expr(Expr::ValueExpr(value)), pos + 1))
        },
        Token::Symbol(Symbol::Memory) => Some((Operand::Memory, pos + 1)),
        Token::Symbol(Symbol::OpenParen) => {
            let (operand, end) = match expr(tokens, pos + 1, 1, base, bowls) {
                Some(found) => found,
                None => {
                    return None;
                },
            };
            if end >= tokens.len() {
                return None;
            }
            assert(tokens_view(tokens@)[end as int] == tokens@[end as int]@);
            match &tokens[end] {
                Token::Symbol(Symbol::CloseParen) => Some((operand, end + 1)),
                _ => None,
            }
        },
        Token::Symbol(Symbol::OpenBowl) => {
            let (bowl, end) = match noodles(tokens, pos + 1, base, bowls) {
                Some(found) => found,
                None => {
                    return None;
                },
            };
            let handle = match base.checked_add(bowls.len()) {
                Some(handle) => handle,
                None => {
                    return None;
                },
            };
            let ghost before = bowls@;
            bowls.push(bowl);
            assert(bowls_view(bowls@) =~= bowls_view(before).push(bowl@));
            Some((Operand::Expr(Expr::ValueExpr(Value::Bowl(handle))), end))
        },
        _ => None,
    }
}

/// Reads the noodles of a bowl whose opening brace stands before `start`, up
/// to the closing brace.
fn noodles(tokens: &Vec<Token>, start: usize, base: usize, bowls: &mut Vec<Bowl>) -> (r: Option<
    (Bowl, usize),
>)
    requires
        start >= 1,
    ensures
        match parse_noodles(
            tokens_view(tokens@),
            start as int,
            Seq::empty(),
            base as nat,
            bowls_view(old(bowls)@),
        ) {
            Some((expected, end, after)) => r matches Some((bowl, stop)) && bowl@ == expected
                && stop == end && bowls_view(final(bowls)@) == after,
            None => r is None,
        },
        r matches Some((_, end)) ==> start < end <= tokens@.len(),
    decreases tokens@.len() - start, 1nat,
{
    let mut found: Vec<Noodle> = Vec::new();
    let mut pos: usize = start;
    let ghost tv = tokens_view(tokens@);
    assert(crate::datatype::noodles_view(found@) =~= Seq::<NoodleView>::empty());
    loop
        invariant
            tv == tokens_view(tokens@),
            start <= pos,
            parse_noodles(tv, start as int, Seq::empty(), base as nat, bowls_view(old(bowls)@))
                == parse_noodles(
                tv,
                pos as int,
                crate::datatype::noodles_view(found@),
                base as nat,
                bowls_view(bowls@),
            ),
        decreases tokens@.len() - pos,
    {
        if pos >= tokens.len() {
            return None;
        }
        assert(tv[pos as int] == tokens@[pos as int]@);
        match &tokens[pos] {
            Token::Symbol(Symbol::CloseBowl) => {
                return Some((Bowl { noodles: found }, pos + 1));
            },
            Token::Symbol(Symbol::OpenNoodle) => {},
            _ => {
                return None;
            },
        }
        let (key, semicolon) = match expr(tokens, pos + 1, 1, base, bowls) {
            Some((Operand::Expr(key), semicolon)) => (key, semicolon),
            _ => {
                return None;
            },
        };
        if semicolon >= tokens.len() {
            return None;
        }
        assert(tv[semicolon as int] == tokens@[semicolon as int]@);
        match &tokens[semicolon] {
            Token::Symbol(Symbol::Semicolon) => {},
            _ => {
                return None;
            },
        }
        let (body, close) = match expr(tokens, semicolon + 1, 1, base, bowls) {
            Some((Operand::Expr(body), close)) => (body, close),
            _ => {
                return None;
            },
        };
        if close >= tokens.len() {
            return None;
        }
        assert(tv[close as int] == tokens@[close as int]@);
        match &tokens[close] {
            Token::Symbol(Symbol::CloseNoodle) => {},
            _ => {
                return None;
            },
        }
        let ghost before = crate::datatype::noodles_view(found@);
        let noodle = Noodle { nn_expr: key, expr: body };
        found.push(noodle);
        assert(crate::datatype::noodles_view(found@) =~= before.push(noodle@));
        pos = close + 1;
    }
}

/// Reads an atom with any number of `^` and `!` before it.
fn unary(tokens: &Vec<Token>, pos: usize, base: usize, bowls: &mut Vec<Bowl>) -> (r: Option<
    (Operand, usize),
>)
    ensures
        parsed_as(
            r,
            final(bowls)@,
            parse_unary(tokens_view(tokens@), pos as int, base as nat, bowls_view(old(bowls)@)),
        ),
        r matches Some((_, end)) ==> pos < end <= tokens@.len(),
    decreases tokens@.len() - pos, 1nat,
{
    if pos >= tokens.len() {
        return None;
    }
    assert(tokens_view(tokens@)[pos as int] == tokens@[pos as int]@);
    match &tokens[pos] {
        Token::Symbol(Symbol::Caret) => match unary(tokens, pos + 1, base, bowls) {
            Some((Operand::Expr(e), end)) => Some(
                (Operand::Expr(Expr::DenoFuncExpr(Box::new(e))), end),
            ),
            _ => None,
        },
        Token::Symbol(Symbol::Bang) => match unary(tokens, pos + 1, base, bowls) {
            Some((Operand::Expr(e), end)) => Some(
                (Operand::Expr(Expr::NotFuncExpr(Box::new(e))), end),
            ),
            _ => None,
        },
        _ => atom(tokens, pos, base, bowls),
    }
}

/// Reads an expression whose binary operators outside parentheses all bind
/// at least as tightly as `min`.
fn expr(tokens: &Vec<Token>, start: usize, min: u8, base: usize, bowls: &mut Vec<Bowl>) -> (r:
    Option<(Operand, usize)>)
    ensures
        parsed_as(
            r,
            final(bowls)@,
            parse_expr(
                tokens_view(tokens@),
                start as int,
                min as nat,
                base as nat,
                bowls_view(old(bowls)@),
            ),
        ),
        r matches Some((_, end)) ==> start < end <= tokens@.len(),
    decreases tokens@.len() - start, 2nat,
{
    let ghost tv = tokens_view(tokens@);
    let ghost goal = parse_expr(tv, start as int, min as nat, base as nat, bowls_view(old(bowls)@));
    let (first, end) = match unary(tokens, start, base, bowls) {
        Some(found) => found,
        None => {
            return None;
        },
    };
    let mut lhs = first;
    let mut pos = end;
    loop
        invariant
            tv == tokens_view(tokens@),
            start < pos <= tokens@.len(),
            goal == parse_rest(tv, pos as int, min as nat, lhs@, base as nat, bowls_view(bowls@)),
            goal == parse_expr(
                tv,
                start as int,
                min as nat,
                base as nat,
                bowls_view(old(bowls)@),
            ),
        decreases tokens@.len() - pos,
    {
        if pos >= tokens.len() {
            return Some((lhs, pos));
        }
        assert(tv[pos as int] == tokens@[pos as int]@);
        let s = match &tokens[pos] {
            Token::Symbol(s) => *s,
            Token::Number(_) => {
                return Some((lhs, pos));
            },
        };
        let p = match precedence(s) {
            Some(p) => p,
            None => {
                return Some((lhs, pos));
            },
        };
        if p < min {
            return Some((lhs, pos));
        }
        let next = if s == Symbol::Assign {
            p
        } else {
            p + 1
        };
        let (rhs, end) = match expr(tokens, pos + 1, next, base, bowls) {
            Some(found) => found,
            None => {
                return None;
            },
        };
        lhs = match join_operands(s, lhs, rhs) {
            Some(joined) => joined,
            None => {
                return None;
            },
        };
        pos = end;
    }
}

/// Reads a program from its tokens: a bowl and nothing after it.
pub fn parse_program(tokens: &Vec<Token>, base: usize) -> (r: Result<Program, RunError>)
    ensures
        match parse_tokens(tokens_view(tokens@), base as nat) {
            Ok((root, bowls)) => r matches Ok(program) && program.root@ == root && bowls_view(
                program.bowls@,
            ) == bowls,
            Err(e) => r matches Err(found) && found == e,
        },
{
    if tokens.len() == 0 {
        return Err(RunError::Parse(ParseError));
    }
    assert(tokens_view(tokens@)[0] == tokens@[0]@);
    match &tokens[0] {
        Token::Symbol(Symbol::Memory) => {
            if tokens.len() == 1 {
                return Err(RunError::RootIsMemory);
            }
            Err(RunError::Parse(ParseError))
        },
        Token::Symbol(Symbol::OpenBowl) => {
            let mut bowls: Vec<Bowl> = Vec::new();
            assert(bowls_view(bowls@) =~= Seq::<Seq<NoodleView>>::empty());
            match noodles(tokens, 1, base, &mut bowls) {
                Some((root, end)) => {
                    if end == tokens.len() {
                        Ok(Program { root, bowls })
                    } else {
                        Err(RunError::Parse(ParseError))
                    }
                },
                None => Err(RunError::Parse(ParseError)),
            }
        },
        _ => Err(RunError::Parse(ParseError)),
    }
}

/// Reads a program from its source text. `base` is the number of bowls that
/// the machine holds already: the handles of the program's bowls count on
/// from there.
pub fn parse(code: &[u8], base: usize) -> (r: Result<Program, RunError>)
    ensures
        match parse_source(code@, base as nat) {
            Ok((root, bowls)) => r matches Ok(program) && program.root@ == root && bowls_view(
                program.bowls@,
            ) == bowls,
            Err(e) => r matches Err(found) && found == e,
        },
{
    match tokenize(code) {
        Ok(tokens) => parse_program(&tokens, base),
        Err(e) => Err(RunError::Parse(e)),
    }
}

} // verus!
