//! The interpreter: evaluating expressions, reading and writing bowls, and
//! firing the noodles of a program in the order of their keys.
//!
//! Every function computes the function of the same name in [`crate::model`].

use crate::datatype::{binary_view, lemma_whole_wf, Bowl, Expr, Noodle, Number, Value};
use crate::env::{value_result, Env};
use crate::error::Fault;
use crate::integer::Integer;
use crate::model;
use crate::model::{BinaryOp, ExprView, UnaryOp, ValueView};
use crate::natural::Natural;
use vstd::prelude::*;

verus! {

/// What an operator with one operand gives.
pub fn apply_unary(op: UnaryOp, value: &Value) -> (r: Value)
    ensures
        r@ == model::apply_unary(op, value@),
{
    match op {
        UnaryOp::Denominator => match value {
            Value::Number(number) => {
                proof {
                    lemma_whole_wf(number@.den);
                }
                let one = Natural::one();
                let numerator = Integer::from_natural(number.denominator().clone());
                Value::from_big_int(&numerator, &one)
            },
            _ => Value::Null,
        },
        UnaryOp::Not => match value {
            Value::Number(number) => Value::from_truth(!number.eq(&Number::one())),
            _ => Value::new_one(),
        },
    }
}

/// What an operator with two operands gives. Unless both operands are
/// numbers, the arithmetic operators give `Null` and the others 0/1. Only a
/// division by zero fails.
pub fn apply_binary(op: BinaryOp, left: &Value, right: &Value) -> (r: Result<Value, Fault>)
    ensures
        value_result(r) == model::apply_binary(op, left@, right@),
{
    match (left, right) {
        (Value::Number(number1), Value::Number(number2)) => match op {
            BinaryOp::Plus => Ok(Value::from_number(&number1.add(number2))),
            BinaryOp::Minus => Ok(Value::from_number(&number1.sub(number2))),
            BinaryOp::Times => Ok(Value::from_number(&number1.mul(number2))),
            BinaryOp::Over => match number1.checked_div(number2) {
                Ok(quotient) => Ok(Value::from_number(&quotient)),
                Err(_) => Err(Fault::ZeroDenominator),
            },
            BinaryOp::And => Ok(Value::from_truth(number1.and(number2))),
            BinaryOp::Or => Ok(Value::from_truth(number1.or(number2))),
            BinaryOp::Equal => Ok(Value::from_truth(number1.eq(number2))),
            BinaryOp::Greater => Ok(Value::from_truth(number1.gt(number2))),
            BinaryOp::Less => Ok(Value::from_truth(number1.lt(number2))),
        },
        _ => match op {
            BinaryOp::Plus | BinaryOp::Minus | BinaryOp::Times | BinaryOp::Over => Ok(Value::Null),
            _ => Ok(Value::new_zero()),
        },
    }
}

/// Whether a scanned key is the key looked for: both are numbers, and equal.
pub fn key_matches(found: &Value, wanted: &Value) -> (r: bool)
    ensures
        r == model::key_matches(found@, wanted@),
{
    match (found, wanted) {
        (Value::Number(a), Value::Number(b)) => a.eq(b),
        _ => false,
    }
}

/// Evaluates the operand of a unary operator one level down and applies the
/// operator.
fn eval_unary(env: &mut Env, op: UnaryOp, operand: &Expr, depth: usize) -> (r: Result<
    Value,
    Fault,
>)
    requires
        depth < usize::MAX,
    ensures
        (final(env)@, value_result(r)) == model::eval_expr(
            old(env)@,
            ExprView::Unary(op, Box::new(operand@)),
            (depth + 1) as nat,
        ),
    decreases depth, 1nat,
{
    match eval_expr(env, operand, depth) {
        Ok(value) => Ok(apply_unary(op, &value)),
        Err(fault) => Err(fault),
    }
}

/// Evaluates the operands of a binary operator one level down, the left one
/// first, and applies the operator.
fn eval_binary(env: &mut Env, op: BinaryOp, left: &Expr, right: &Expr, depth: usize) -> (r:
    Result<Value, Fault>)
    requires
        depth < usize::MAX,
    ensures
        (final(env)@, value_result(r)) == model::eval_expr(
            old(env)@,
            binary_view(op, left@, right@),
            (depth + 1) as nat,
        ),
    decreases depth, 1nat,
{
    let value1 = match eval_expr(env, left, depth) {
        Ok(value) => value,
        Err(fault) => {
            return Err(fault);
        },
    };
    let value2 = match eval_expr(env, right, depth) {
        Ok(value) => value,
        Err(fault) => {
            return Err(fault);
        },
    };
    apply_binary(op, &value1, &value2)
}

/// Evaluates `bowl_expr : nn_expr` one level down: the bowl, then the key,
/// then the read of the bowl that the handle names. `Null` unless the first
/// is a bowl and the second a number.
fn eval_bowl_read(env: &mut Env, bowl_expr: &Expr, nn_expr: &Expr, depth: usize) -> (r: Result<
    Value,
    Fault,
>)
    requires
        depth < usize::MAX,
    ensures
        (final(env)@, value_result(r)) == model::eval_expr(
            old(env)@,
            ExprView::BowlRead(Box::new(bowl_expr@), Box::new(nn_expr@)),
            (depth + 1) as nat,
        ),
    decreases depth, 2nat,
{
    let bowl = match eval_expr(env, bowl_expr, depth) {
        Ok(value) => value,
        Err(fault) => {
            return Err(fault);
        },
    };
    let nn = match eval_expr(env, nn_expr, depth) {
        Ok(value) => value,
        Err(fault) => {
            return Err(fault);
        },
    };
    match (&bowl, &nn) {
        (Value::Bowl(handle), Value::Number(_)) => {
            let contents = env.bowl(*handle);
            contents.read(env, &nn, depth)
        },
        _ => Ok(Value::Null),
    }
}

/// Evaluates `@ : nn_expr` one level down: the key, then the read of the
/// memory.
fn eval_mem_read(env: &mut Env, nn_expr: &Expr, depth: usize) -> (r: Result<Value, Fault>)
    requires
        depth < usize::MAX,
    ensures
        (final(env)@, value_result(r)) == model::eval_expr(
            old(env)@,
            ExprView::MemRead(Box::new(nn_expr@)),
            (depth + 1) as nat,
        ),
    decreases depth, 2nat,
{
    let nn = match eval_expr(env, nn_expr, depth) {
        Ok(value) => value,
        Err(fault) => {
            return Err(fault);
        },
    };
    Ok(env.read_mem(&nn))
}

/// Evaluates `bowl_expr : nn_expr = value_expr` one level down: the bowl,
/// the key, the value, then the write into the bowl that the handle names.
/// Nothing is written unless the first is a bowl and the second a number. The
/// result is `Null`.
fn eval_bowl_write(
    env: &mut Env,
    bowl_expr: &Expr,
    nn_expr: &Expr,
    value_expr: &Expr,
    depth: usize,
) -> (r: Result<Value, Fault>)
    requires
        depth < usize::MAX,
    ensures
        (final(env)@, value_result(r)) == model::eval_expr(
            old(env)@,
            ExprView::BowlWrite(Box::new(bowl_expr@), Box::new(nn_expr@), Box::new(value_expr@)),
            (depth + 1) as nat,
        ),
    decreases depth, 2nat,
{
    let bowl = match eval_expr(env, bowl_expr, depth) {
        Ok(value) => value,
        Err(fault) => {
            return Err(fault);
        },
    };
    let nn = match eval_expr(env, nn_expr, depth) {
        Ok(value) => value,
        Err(fault) => {
            return Err(fault);
        },
    };
    let value = match eval_expr(env, value_expr, depth) {
        Ok(value) => value,
        Err(fault) => {
            return Err(fault);
        },
    };
    match (&bowl, &nn) {
        (Value::Bowl(handle), Value::Number(_)) => {
            let mut contents = env.bowl(*handle);
            match contents.write(env, &nn, &value, depth) {
                Ok(_) => {
                    env.set_bowl(*handle, contents);
                    Ok(Value::Null)
                },
                Err(fault) => Err(fault),
            }
        },
        _ => Ok(Value::Null),
    }
}

/// Evaluates `@ : nn_expr = value_expr` one level down: the key, the value,
/// then the write into the memory. The result is `Null`.
fn eval_mem_write(env: &mut Env, nn_expr: &Expr, value_expr: &Expr, depth: usize) -> (r: Result<
    Value,
    Fault,
>)
    requires
        depth < usize::MAX,
    ensures
        (final(env)@, value_result(r)) == model::eval_expr(
            old(env)@,
            ExprView::MemWrite(Box::new(nn_expr@), Box::new(value_expr@)),
            (depth + 1) as nat,
        ),
    decreases depth, 4nat,
{
    let nn = match eval_expr(env, nn_expr, depth) {
        Ok(value) => value,
        Err(fault) => {
            return Err(fault);
        },
    };
    let value = match eval_expr(env, value_expr, depth) {
        Ok(value) => value,
        Err(fault) => {
            return Err(fault);
        },
    };
    match env.write_mem(&nn, &value, depth) {
        Ok(_) => Ok(Value::Null),
        Err(fault) => Err(fault),
    }
}

/// Evaluates an expression against the environment. Operands are evaluated
/// from left to right, each with all its effects, before the expression
/// itself; `depth` bounds how deep evaluations may nest.
pub fn eval_expr(env: &mut Env, expr: &Expr, depth: usize) -> (r: Result<Value, Fault>)
    ensures
        (final(env)@, value_result(r)) == model::eval_expr(old(env)@, expr@, depth as nat),
    decreases depth, 0nat,
{
    if depth == 0 {
        return Err(Fault::DepthExhausted);
    }
    let d = depth - 1;
    match expr {
        Expr::ValueExpr(value) => Ok(value.clone()),
        Expr::BowlReadExpr(bowl_expr, nn_expr) => eval_bowl_read(env, bowl_expr, nn_expr, d),
        Expr::MemReadExpr(nn_expr) => eval_mem_read(env, nn_expr, d),
        Expr::BowlWriteExpr(bowl_expr, nn_expr, value_expr) => eval_bowl_write(
            env,
            bowl_expr,
            nn_expr,
            value_expr,
            d,
        ),
        Expr::MemWriteExpr(nn_expr, value_expr) => eval_mem_write(env, nn_expr, value_expr, d),
        Expr::DenoFuncExpr(expr) => eval_unary(env, UnaryOp::Denominator, expr, d),
        Expr::NotFuncExpr(expr) => eval_unary(env, UnaryOp::Not, expr, d),
        Expr::PlusFuncExpr(expr1, expr2) => eval_binary(env, BinaryOp::Plus, expr1, expr2, d),
        Expr::MinusFuncExpr(expr1, expr2) => eval_binary(env, BinaryOp::Minus, expr1, expr2, d),
        Expr::MulFuncExpr(expr1, expr2) => eval_binary(env, BinaryOp::Times, expr1, expr2, d),
        Expr::NumberSepFuncExpr(expr1, expr2) => eval_binary(env, BinaryOp::Over, expr1, expr2, d),
        Expr::AndFuncExpr(expr1, expr2) => eval_binary(env, BinaryOp::And, expr1, expr2, d),
        Expr::OrFuncExpr(expr1, expr2) => eval_binary(env, BinaryOp::Or, expr1, expr2, d),
        Expr::EqFuncExpr(expr1, expr2) => eval_binary(env, BinaryOp::Equal, expr1, expr2, d),
        Expr::GtFuncExpr(expr1, expr2) => eval_binary(env, BinaryOp::Greater, expr1, expr2, d),
        Expr::LtFuncExpr(expr1, expr2) => eval_binary(env, BinaryOp::Less, expr1, expr2, d),
    }
}

impl Bowl {
    /// Reads the bowl under `noodle_number`: the noodles are scanned in
    /// order; each key is evaluated, and the body of the first noodle whose
    /// key is the number looked for is evaluated and returned. `Null` if no
    /// key matches.
    pub fn read(&self, env: &mut Env, noodle_number: &Value, depth: usize) -> (r: Result<
        Value,
        Fault,
    >)
        ensures
            (final(env)@, value_result(r)) == model::read_bowl(
                old(env)@,
                self@,
                0,
                noodle_number@,
                depth as nat,
            ),
        decreases depth, 1nat,
    {
        let mut i: usize = 0;
        while i < self.noodles.len()
            invariant
                i <= self.noodles.len(),
                model::read_bowl(old(env)@, self@, 0, noodle_number@, depth as nat) == model::read_bowl(
                    env@,
                    self@,
                    i as int,
                    noodle_number@,
                    depth as nat,
                ),
            decreases self.noodles.len() - i,
        {
            let inner_nn = match eval_expr(env, &self.noodles[i].nn_expr, depth) {
                Ok(value) => value,
                Err(fault) => {
                    return Err(fault);
                },
            };
            if key_matches(&inner_nn, noodle_number) {
                return eval_expr(env, &self.noodles[i].expr, depth);
            }
            i = i + 1;
        }
        Ok(Value::Null)
    }

    /// Writes `value` into the bowl under `noodle_number`: the same scan as
    /// for a read. The first noodle whose key matches gets the literal
    /// `value` as its body; if none matches, the noodle of the two literals
    /// is added at the end. A fault leaves the bowl as it was.
    pub fn write(&mut self, env: &mut Env, noodle_number: &Value, value: &Value, depth: usize) -> (r:
        Result<Value, Fault>)
        ensures
            final(env)@ == model::write_bowl(
                old(env)@,
                old(self)@,
                0,
                noodle_number@,
                value@,
                depth as nat,
            ).0,
            match model::write_bowl(
                old(env)@,
                old(self)@,
                0,
                noodle_number@,
                value@,
                depth as nat,
            ).1 {
                Ok(noodles) => final(self)@ == noodles && (r matches Ok(v) && v@
                    == ValueView::Null),
                Err(fault) => final(self)@ == old(self)@ && (r matches Err(f) && f == fault),
            },
        decreases depth, 1nat,
    {
        let mut i: usize = 0;
        while i < self.noodles.len()
            invariant
                *self == *old(self),
                i <= self.noodles.len(),
                model::write_bowl(old(env)@, old(self)@, 0, noodle_number@, value@, depth as nat)
                    == model::write_bowl(
                    env@,
                    self@,
                    i as int,
                    noodle_number@,
                    value@,
                    depth as nat,
                ),
            decreases self.noodles.len() - i,
        {
            let inner_nn = match eval_expr(env, &self.noodles[i].nn_expr, depth) {
                Ok(value) => value,
                Err(fault) => {
                    return Err(fault);
                },
            };
            if key_matches(&inner_nn, noodle_number) {
                let key = self.noodles[i].nn_expr.clone();
                self.noodles.set(i, Noodle { nn_expr: key, expr: Expr::ValueExpr(value.clone()) });
                assert(self@ =~= old(self)@.update(
                    i as int,
                    model::NoodleView { key: old(self)@[i as int].key, body: ExprView::Value(value@) },
                ));
                return Ok(Value::Null);
            }
            i = i + 1;
        }
        self.noodles.push(Noodle::literal(noodle_number.clone(), value.clone()));
        assert(self@ =~= old(self)@.push(model::literal_noodle(noodle_number@, value@)));
        Ok(Value::Null)
    }
}

/// Fires one noodle of the program: the noodle is chosen, its key, evaluated
/// once more, becomes the cursor, and its body is evaluated. `Ok(false)` if
/// no noodle can fire: the program has come to its end.
pub fn step(env: &mut Env, bowl: &Bowl, depth: usize) -> (r: Result<bool, Fault>)
    ensures
        (final(env)@, r) == model::step(old(env)@, bowl@, depth as nat),
{
    let noodle = match env.get_next_noodle(bowl, depth) {
        Ok(Some(noodle)) => noodle,
        Ok(None) => {
            return Ok(false);
        },
        Err(fault) => {
            return Err(fault);
        },
    };
    let new_cursor = match eval_expr(env, &noodle.nn_expr, depth) {
        Ok(value) => value,
        Err(fault) => {
            return Err(fault);
        },
    };
    if let Value::Number(number) = new_cursor {
        env.cursor = Some(*number);
    } else {
        return Err(Fault::NonNumberCursor);
    }
    match eval_expr(env, &noodle.expr, depth) {
        Ok(_) => Ok(true),
        Err(fault) => Err(fault),
    }
}

/// Runs the program for at most `steps` steps. `Ok(true)` if the program
/// came to its end, `Ok(false)` if a noodle could still fire when the steps
/// were used up: a further call then goes on where this one stopped.
pub fn eval(env: &mut Env, bowl: Bowl, depth: usize, steps: u64) -> (r: Result<bool, Fault>)
    ensures
        (final(env)@, r) == model::run(old(env)@, bowl@, depth as nat, steps as nat),
{
    let mut left = steps;
    while left > 0
        invariant
            model::run(old(env)@, bowl@, depth as nat, steps as nat) == model::run(
                env@,
                bowl@,
                depth as nat,
                left as nat,
            ),
        decreases left,
    {
        match step(env, &bowl, depth) {
            Ok(true) => {},
            Ok(false) => {
                return Ok(true);
            },
            Err(fault) => {
                return Err(fault);
            },
        }
        left = left - 1;
    }
    Ok(false)
}

} // verus!
