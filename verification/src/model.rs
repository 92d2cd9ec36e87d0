//! The meaning of programs, as mathematics.
//!
//! A [`Machine`] is the whole state of a running program. Every function here
//! takes a machine and returns the machine that results together with a value
//! or a [`Fault`]: effects are committed in the order in which the functions
//! thread the machine through. The executable interpreter is proved to compute
//! exactly these functions.
//!
//! `depth` bounds how deep evaluations may nest. An expression needs one level
//! more than its operands; reading or writing a bowl evaluates the bowl's
//! noodles one level below the expression that reads or writes.

use crate::error::Fault;
use crate::rational::Ratio;
use vstd::prelude::*;

verus! {

/// A value of the language.
pub enum ValueView {
    Number(Ratio),
    /// A handle: the position of a bowl among the bowls of the machine.
    Bowl(nat),
    Null,
}

/// The operators with one operand.
#[derive(Debug, Clone, Copy, PartialEq, Eq)]
pub enum UnaryOp {
    /// `^`: the denominator.
    Denominator,
    /// `!`: 0/1 for 1/1, and 1/1 for everything else.
    Not,
}

/// The operators with two operands.
#[derive(Debug, Clone, Copy, PartialEq, Eq)]
pub enum BinaryOp {
    Plus,
    Minus,
    Times,
    Over,
    And,
    Or,
    Equal,
    Greater,
    Less,
}

/// An expression.
pub enum ExprView {
    Value(ValueView),
    BowlRead(Box<ExprView>, Box<ExprView>),
    MemRead(Box<ExprView>),
    BowlWrite(Box<ExprView>, Box<ExprView>, Box<ExprView>),
    MemWrite(Box<ExprView>, Box<ExprView>),
    Unary(UnaryOp, Box<ExprView>),
    Binary(BinaryOp, Box<ExprView>, Box<ExprView>),
}

/// One entry of a bowl.
pub struct NoodleView {
    pub key: ExprView,
    pub body: ExprView,
}

/// The state of a running program.
pub struct Machine {
    /// The general slots of the memory, in the order in which they were first
    /// written.
    pub mem: Seq<(Ratio, ValueView)>,
    /// The key of the noodle that fired last.
    pub cursor: Option<Ratio>,
    /// Every bowl that a handle can name.
    pub bowls: Seq<Seq<NoodleView>>,
    /// The bytes of the host's input that no read has taken yet.
    pub input: Seq<u8>,
    /// The bytes written to the host's output so far.
    pub output: Seq<u8>,
}

/// The literal expression for a number.
pub open spec fn number_literal(q: Ratio) -> ExprView {
    ExprView::Value(ValueView::Number(q))
}

/// The noodle `[key; value]` of two literals.
pub open spec fn literal_noodle(key: ValueView, value: ValueView) -> NoodleView {
    NoodleView { key: ExprView::Value(key), body: ExprView::Value(value) }
}

/// The bowl that holds the given bytes under the keys `0`, `1`, `2`, ...
pub open spec fn bytes_bowl(bytes: Seq<u8>) -> Seq<NoodleView> {
    Seq::new(
        bytes.len(),
        |i: int|
            literal_noodle(
                ValueView::Number(Ratio::whole(i)),
                ValueView::Number(Ratio::whole(bytes[i] as int)),
            ),
    )
}

impl Machine {
    /// The bowl that a handle names. A handle that names none stands for an
    /// empty bowl.
    pub open spec fn bowl(self, handle: nat) -> Seq<NoodleView> {
        if handle < self.bowls.len() {
            self.bowls[handle as int]
        } else {
            Seq::empty()
        }
    }

    /// The machine after the bowl under `handle` got new contents. A handle
    /// that names no bowl changes nothing.
    pub open spec fn set_bowl(self, handle: nat, noodles: Seq<NoodleView>) -> Machine {
        if handle < self.bowls.len() {
            Machine { bowls: self.bowls.update(handle as int, noodles), ..self }
        } else {
            self
        }
    }

    /// The machine after `noodles` became a new bowl; its handle is the
    /// number of bowls before.
    pub open spec fn with_new_bowl(self, noodles: Seq<NoodleView>) -> Machine {
        Machine { bowls: self.bowls.push(noodles), ..self }
    }
}

/// The first position at or after `from` whose key is `q`, or the length of
/// the memory if there is none.
pub open spec fn mem_position(mem: Seq<(Ratio, ValueView)>, q: Ratio, from: int) -> int
    decreases mem.len() - from,
{
    if from < 0 || from >= mem.len() {
        mem.len() as int
    } else if mem[from].0 == q {
        from
    } else {
        mem_position(mem, q, from + 1)
    }
}

/// The value stored under `q` in the general slots, `Null` if there is none.
pub open spec fn mem_lookup(mem: Seq<(Ratio, ValueView)>, q: Ratio) -> ValueView {
    let i = mem_position(mem, q, 0);
    if i < mem.len() {
        mem[i].1
    } else {
        ValueView::Null
    }
}

/// The general slots after `value` was stored under `q`: in place where the
/// key is present, at the end where it is not.
pub open spec fn mem_store(mem: Seq<(Ratio, ValueView)>, q: Ratio, value: ValueView) -> Seq<
    (Ratio, ValueView),
> {
    let i = mem_position(mem, q, 0);
    if i < mem.len() {
        mem.update(i, (q, value))
    } else {
        mem.push((q, value))
    }
}

/// What an operator with one operand gives.
pub open spec fn apply_unary(op: UnaryOp, v: ValueView) -> ValueView {
    match op {
        UnaryOp::Denominator => match v {
            ValueView::Number(q) => ValueView::Number(Ratio::whole(q.den)),
            _ => ValueView::Null,
        },
        UnaryOp::Not => ValueView::Number(Ratio::truth(v != ValueView::Number(Ratio::one()))),
    }
}

/// What an operator with two operands gives on two numbers. Only a division
/// by zero fails.
pub open spec fn apply_to_numbers(op: BinaryOp, x: Ratio, y: Ratio) -> Result<Ratio, Fault> {
    match op {
        BinaryOp::Plus => Ok(x.add(y)),
        BinaryOp::Minus => Ok(x.sub(y)),
        BinaryOp::Times => Ok(x.mul(y)),
        BinaryOp::Over => if y.num == 0 {
            Err(Fault::ZeroDenominator)
        } else {
            Ok(x.div(y))
        },
        BinaryOp::And => Ok(Ratio::truth(x.truthy() && y.truthy())),
        BinaryOp::Or => Ok(Ratio::truth(x.truthy() || y.truthy())),
        BinaryOp::Equal => Ok(Ratio::truth(x == y)),
        BinaryOp::Greater => Ok(Ratio::truth(x.gt(y))),
        BinaryOp::Less => Ok(Ratio::truth(x.lt(y))),
    }
}

/// Whether the operator is one of `+ - * /`.
pub open spec fn is_arithmetic(op: BinaryOp) -> bool {
    op == BinaryOp::Plus || op == BinaryOp::Minus || op == BinaryOp::Times || op == BinaryOp::Over
}

/// What an operator with two operands gives. Unless both operands are
/// numbers, the arithmetic operators give `Null` and the others 0/1.
pub open spec fn apply_binary(op: BinaryOp, a: ValueView, b: ValueView) -> Result<
    ValueView,
    Fault,
> {
    match (a, b) {
        (ValueView::Number(x), ValueView::Number(y)) => match apply_to_numbers(op, x, y) {
            Ok(q) => Ok(ValueView::Number(q)),
            Err(f) => Err(f),
        },
        _ => if is_arithmetic(op) {
            Ok(ValueView::Null)
        } else {
            Ok(ValueView::Number(Ratio::zero()))
        },
    }
}

/// Whether a noodle with this key can fire next: the key is a number, and it
/// is above the cursor if there is one.
pub open spec fn nextable(key: ValueView, cursor: Option<Ratio>) -> bool {
    match key {
        ValueView::Number(q) => match cursor {
            Some(c) => q.gt(c),
            None => true,
        },
        _ => false,
    }
}

/// Whether a scanned key is the key looked for: both are numbers, and equal.
pub open spec fn key_matches(found: ValueView, wanted: ValueView) -> bool {
    found is Number && found == wanted
}

/// Reading the input: every byte not yet taken goes into a bowl under the keys
/// 0, 1, 2, ..., and the input is left empty.
pub open spec fn read_io(m: Machine) -> (Machine, Seq<NoodleView>) {
    (Machine { input: Seq::empty(), ..m }, bytes_bowl(m.input))
}

/// Reading the memory under the key `q`: the cursor under 0, the input as a
/// fresh bowl under 1, a general slot otherwise.
pub open spec fn read_mem(m: Machine, key: ValueView) -> (Machine, ValueView) {
    match key {
        ValueView::Number(q) => if q == Ratio::zero() {
            (
                m,
                match m.cursor {
                    Some(c) => ValueView::Number(c),
                    None => ValueView::Null,
                },
            )
        } else if q == Ratio::one() {
            let (m1, noodles) = read_io(m);
            (m1.with_new_bowl(noodles), ValueView::Bowl(m1.bowls.len()))
        } else {
            (m, mem_lookup(m.mem, q))
        },
        _ => (m, ValueView::Null),
    }
}

/// Evaluating an expression.
pub open spec fn eval_expr(m: Machine, e: ExprView, depth: nat) -> (Machine, Result<
    ValueView,
    Fault,
>)
    decreases depth, 0nat, 0nat,
{
    if depth == 0 {
        (m, Err(Fault::DepthExhausted))
    } else {
        let d = (depth - 1) as nat;
        match e {
            ExprView::Value(v) => (m, Ok(v)),
            ExprView::Unary(op, a) => {
                let (m1, r1) = eval_expr(m, *a, d);
                match r1 {
                    Ok(v) => (m1, Ok(apply_unary(op, v))),
                    Err(f) => (m1, Err(f)),
                }
            },
            ExprView::Binary(op, a, b) => {
                let (m1, r1) = eval_expr(m, *a, d);
                match r1 {
                    Ok(v1) => {
                        let (m2, r2) = eval_expr(m1, *b, d);
                        match r2 {
                            Ok(v2) => (m2, apply_binary(op, v1, v2)),
                            Err(f) => (m2, Err(f)),
                        }
                    },
                    Err(f) => (m1, Err(f)),
                }
            },
            ExprView::BowlRead(b, k) => {
                let (m1, r1) = eval_expr(m, *b, d);
                match r1 {
                    Ok(vb) => {
                        let (m2, r2) = eval_expr(m1, *k, d);
                        match r2 {
                            Ok(vk) => match (vb, vk) {
                                (ValueView::Bowl(h), ValueView::Number(_)) => read_bowl(
                                    m2,
                                    m2.bowl(h),
                                    0,
                                    vk,
                                    d,
                                ),
                                _ => (m2, Ok(ValueView::Null)),
                            },
                            Err(f) => (m2, Err(f)),
                        }
                    },
                    Err(f) => (m1, Err(f)),
                }
            },
            ExprView::MemRead(k) => {
                let (m1, r1) = eval_expr(m, *k, d);
                match r1 {
                    Ok(vk) => {
                        let (m2, v) = read_mem(m1, vk);
                        (m2, Ok(v))
                    },
                    Err(f) => (m1, Err(f)),
                }
            },
            ExprView::BowlWrite(b, k, v) => {
                let (m1, r1) = eval_expr(m, *b, d);
                match r1 {
                    Ok(vb) => {
                        let (m2, r2) = eval_expr(m1, *k, d);
                        match r2 {
                            Ok(vk) => {
                                let (m3, r3) = eval_expr(m2, *v, d);
                                match r3 {
                                    Ok(vv) => match (vb, vk) {
                                        (ValueView::Bowl(h), ValueView::Number(_)) => {
                                            let (m4, r4) = write_bowl(m3, m3.bowl(h), 0, vk, vv, d);
                                            match r4 {
                                                Ok(noodles) => (
                                                    m4.set_bowl(h, noodles),
                                                    Ok(ValueView::Null),
                                                ),
                                                Err(f) => (m4, Err(f)),
                                            }
                                        },
                                        _ => (m3, Ok(ValueView::Null)),
                                    },
                                    Err(f) => (m3, Err(f)),
                                }
                            },
                            Err(f) => (m2, Err(f)),
                        }
                    },
                    Err(f) => (m1, Err(f)),
                }
            },
            ExprView::MemWrite(k, v) => {
                let (m1, r1) = eval_expr(m, *k, d);
                match r1 {
                    Ok(vk) => {
                        let (m2, r2) = eval_expr(m1, *v, d);
                        match r2 {
                            Ok(vv) => {
                                let (m3, r3) = write_mem(m2, vk, vv, d);
                                match r3 {
                                    Ok(_) => (m3, Ok(ValueView::Null)),
                                    Err(f) => (m3, Err(f)),
                                }
                            },
                            Err(f) => (m2, Err(f)),
                        }
                    },
                    Err(f) => (m1, Err(f)),
                }
            },
        }
    }
}

/// Reading a bowl under `key`, from the noodle at `from` on: each noodle's key
/// is evaluated in turn, and the body of the first noodle whose key is the
/// number looked for is evaluated and returned. `Null` if no key matches.
pub open spec fn read_bowl(
    m: Machine,
    noodles: Seq<NoodleView>,
    from: int,
    key: ValueView,
    depth: nat,
) -> (Machine, Result<ValueView, Fault>)
    decreases depth, 1nat, noodles.len() - from,
{
    if from < 0 || from >= noodles.len() {
        (m, Ok(ValueView::Null))
    } else {
        let (m1, r1) = eval_expr(m, noodles[from].key, depth);
        match r1 {
            Ok(found) => if key_matches(found, key) {
                eval_expr(m1, noodles[from].body, depth)
            } else {
                read_bowl(m1, noodles, from + 1, key, depth)
            },
            Err(f) => (m1, Err(f)),
        }
    }
}

/// Writing `value` under `key` into a bowl, from the noodle at `from` on: the
/// same scan as for a read. The first noodle whose key matches gets the
/// literal `value` as its body; if none matches, the noodle `[key; value]` is
/// added at the end. Returns the new contents of the bowl.
pub open spec fn write_bowl(
    m: Machine,
    noodles: Seq<NoodleView>,
    from: int,
    key: ValueView,
    value: ValueView,
    depth: nat,
) -> (Machine, Result<Seq<NoodleView>, Fault>)
    decreases depth, 1nat, noodles.len() - from,
{
    if from < 0 || from >= noodles.len() {
        (m, Ok(noodles.push(literal_noodle(key, value))))
    } else {
        let (m1, r1) = eval_expr(m, noodles[from].key, depth);
        match r1 {
            Ok(found) => if key_matches(found, key) {
                (
                    m1,
                    Ok(
                        noodles.update(
                            from,
                            NoodleView { key: noodles[from].key, body: ExprView::Value(value) },
                        ),
                    ),
                )
            } else {
                write_bowl(m1, noodles, from + 1, key, value, depth)
            },
            Err(f) => (m1, Err(f)),
        }
    }
}

/// The byte that a value written to the output stands for.
pub open spec fn output_byte(q: Ratio) -> Result<u8, Fault> {
    if q.den != 1 {
        Err(Fault::NonIntegerOutput)
    } else if q.num < 0 {
        Err(Fault::NegativeOutput)
    } else if q.num > 255 {
        Err(Fault::OversizedOutput)
    } else {
        Ok(q.num as u8)
    }
}

/// Writing a bowl to the output, from the key `index` on: the bowl is read
/// under 0, 1, 2, ... until a read gives something other than a number. The
/// bytes read, after those in `sent`, are then added to the output together.
pub open spec fn write_io_from(
    m: Machine,
    noodles: Seq<NoodleView>,
    index: nat,
    sent: Seq<u8>,
    depth: nat,
) -> (Machine, Result<(), Fault>)
    decreases depth, 2nat, usize::MAX - index,
{
    if index >= usize::MAX {
        (m, Err(Fault::OutputTooLong))
    } else {
        let (m1, r1) = read_bowl(m, noodles, 0, ValueView::Number(Ratio::whole(index as int)), depth);
        match r1 {
            Ok(ValueView::Number(q)) => match output_byte(q) {
                Ok(byte) => write_io_from(m1, noodles, index + 1, sent.push(byte), depth),
                Err(f) => (m1, Err(f)),
            },
            Ok(_) => (Machine { output: m1.output + sent, ..m1 }, Ok(())),
            Err(f) => (m1, Err(f)),
        }
    }
}

/// Writing a bowl to the output.
pub open spec fn write_io(m: Machine, noodles: Seq<NoodleView>, depth: nat) -> (Machine, Result<
    (),
    Fault,
>) {
    write_io_from(m, noodles, 0, Seq::empty(), depth)
}

/// Writing `value` into the memory under `key`: under 1 the value must be a
/// bowl, which goes to the output; a write under 0 is dropped, since the
/// cursor is not the program's to set; every other number names a general
/// slot. A key that is no number writes nothing.
pub open spec fn write_mem(m: Machine, key: ValueView, value: ValueView, depth: nat) -> (
    Machine,
    Result<(), Fault>,
)
    decreases depth, 3nat, 0nat,
{
    match key {
        ValueView::Number(q) => if q == Ratio::one() {
            match value {
                ValueView::Bowl(h) => write_io_from(m, m.bowl(h), 0, Seq::empty(), depth),
                _ => (m, Err(Fault::NonBowlOutput)),
            }
        } else if q == Ratio::zero() {
            (m, Ok(()))
        } else {
            (Machine { mem: mem_store(m.mem, q, value), ..m }, Ok(()))
        },
        _ => (m, Ok(())),
    }
}

/// The noodle chosen so far while the program's bowl is scanned: its
/// position and the key it had.
pub struct Choice {
    pub position: int,
    pub key: Ratio,
}

/// Choosing the noodle to fire, from the noodle at `from` on: every key is
/// evaluated in turn; among the keys that can fire next the smallest wins,
/// and among equal keys the first.
pub open spec fn select_next(
    m: Machine,
    noodles: Seq<NoodleView>,
    from: int,
    best: Option<Choice>,
    depth: nat,
) -> (Machine, Result<Option<Choice>, Fault>)
    decreases depth, 1nat, noodles.len() - from,
{
    if from < 0 || from >= noodles.len() {
        (m, Ok(best))
    } else {
        let (m1, r1) = eval_expr(m, noodles[from].key, depth);
        match r1 {
            Ok(found) => select_next(m1, noodles, from + 1, better(m1, from, found, best), depth),
            Err(f) => (m1, Err(f)),
        }
    }
}

/// The choice after the noodle at `position` was found to have the key
/// `found`.
pub open spec fn better(m: Machine, position: int, found: ValueView, best: Option<Choice>) -> Option<
    Choice,
> {
    match found {
        ValueView::Number(q) => if nextable(found, m.cursor) && (match best {
            Some(c) => q.lt(c.key),
            None => true,
        }) {
            Some(Choice { position, key: q })
        } else {
            best
        },
        _ => best,
    }
}

/// One step of the program: the noodle to fire is chosen; its key, evaluated
/// once more, becomes the cursor; its body is evaluated. `Ok(false)` means
/// that no noodle could fire: the program has come to its end.
pub open spec fn step(m: Machine, noodles: Seq<NoodleView>, depth: nat) -> (Machine, Result<
    bool,
    Fault,
>) {
    let (m1, r1) = select_next(m, noodles, 0, None, depth);
    match r1 {
        Ok(Some(choice)) => {
            let (m2, r2) = eval_expr(m1, noodles[choice.position].key, depth);
            match r2 {
                Ok(ValueView::Number(q)) => {
                    let m3 = Machine { cursor: Some(q), ..m2 };
                    let (m4, r4) = eval_expr(m3, noodles[choice.position].body, depth);
                    match r4 {
                        Ok(_) => (m4, Ok(true)),
                        Err(f) => (m4, Err(f)),
                    }
                },
                Ok(_) => (m2, Err(Fault::NonNumberCursor)),
                Err(f) => (m2, Err(f)),
            }
        },
        Ok(None) => (m1, Ok(false)),
        Err(f) => (m1, Err(f)),
    }
}

/// At most `steps` steps of the program. `Ok(true)` means that the program
/// came to its end, `Ok(false)` that a noodle could still fire when the steps
/// were used up.
pub open spec fn run(m: Machine, noodles: Seq<NoodleView>, depth: nat, steps: nat) -> (
    Machine,
    Result<bool, Fault>,
)
    decreases steps,
{
    if steps == 0 {
        (m, Ok(false))
    } else {
        let (m1, r1) = step(m, noodles, depth);
        match r1 {
            Ok(true) => run(m1, noodles, depth, (steps - 1) as nat),
            Ok(false) => (m1, Ok(true)),
            Err(f) => (m1, Err(f)),
        }
    }
}

} // verus!
