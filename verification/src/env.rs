//! The environment of a running program: the memory `@`, the cursor, the
//! bowls that handles name, and the host's input and output.

use crate::datatype::{Bowl, Expr, Noodle, Number, Value};
use crate::error::Fault;
use crate::eval::eval_expr;
use crate::model;
use crate::model::{Choice, Machine, NoodleView, ValueView};
use crate::rational::Ratio;
use vstd::prelude::*;

verus! {

/// The state of a running program.
#[derive(Debug)]
pub struct Env {
    /// The general slots of the memory, in the order in which they were first
    /// written.
    pub mem: Vec<(Number, Value)>,
    /// The key of the noodle that fired last.
    pub cursor: Option<Number>,
    /// Whether the host wants the run traced. The library itself prints
    /// nothing.
    pub is_debug: bool,
    /// Every bowl that a handle can name.
    pub bowls: Vec<Bowl>,
    /// The bytes of the host's input that no read has taken yet.
    pub input: Vec<u8>,
    /// The bytes written to the host's output so far.
    pub output: Vec<u8>,
}

/// The general slots of the model that a vector of slots stands for.
pub open spec fn mem_view(mem: Seq<(Number, Value)>) -> Seq<(Ratio, ValueView)> {
    Seq::new(mem.len(), |i: int| (mem[i].0@, mem[i].1@))
}

/// The bowls of the model that a vector of bowls stands for.
pub open spec fn bowls_view(bowls: Seq<Bowl>) -> Seq<Seq<NoodleView>> {
    Seq::new(bowls.len(), |i: int| bowls[i]@)
}

/// The cursor of the model.
pub open spec fn cursor_view(cursor: Option<Number>) -> Option<Ratio> {
    match cursor {
        Some(c) => Some(c@),
        None => None,
    }
}

impl View for Env {
    type V = Machine;

    open spec fn view(&self) -> Machine {
        Machine {
            mem: mem_view(self.mem@),
            cursor: cursor_view(self.cursor),
            bowls: bowls_view(self.bowls@),
            input: self.input@,
            output: self.output@,
        }
    }
}

/// The result of the model that a result of the interpreter stands for.
pub open spec fn value_result(r: Result<Value, Fault>) -> Result<ValueView, Fault> {
    match r {
        Ok(v) => Ok(v@),
        Err(f) => Err(f),
    }
}

impl Env {
    /// An environment at the start of a run: nothing stored, no cursor, no
    /// bowls, nothing written, and `input` waiting to be read.
    pub fn new(input: Vec<u8>) -> (r: Env)
        ensures
            r@ == (Machine {
                mem: Seq::empty(),
                cursor: None,
                bowls: Seq::empty(),
                input: input@,
                output: Seq::empty(),
            }),
    {
        let r = Env {
            mem: Vec::new(),
            cursor: None,
            is_debug: false,
            bowls: Vec::new(),
            input,
            output: Vec::new(),
        };
        assert(r@.mem =~= Seq::empty());
        assert(r@.bowls =~= Seq::empty());
        r
    }

    /// A copy of the bowl that `handle` names; the empty bowl if it names
    /// none.
    pub fn bowl(&self, handle: usize) -> (r: Bowl)
        ensures
            r@ == self@.bowl(handle as nat),
    {
        if handle < self.bowls.len() {
            self.bowls[handle].clone()
        } else {
            Bowl::new()
        }
    }

    /// Gives the bowl that `handle` names new contents. A handle that names
    /// no bowl changes nothing.
    pub fn set_bowl(&mut self, handle: usize, bowl: Bowl)
        ensures
            final(self)@ == old(self)@.set_bowl(handle as nat, bowl@),
    {
        if handle < self.bowls.len() {
            self.bowls.set(handle, bowl);
            assert(self@.bowls =~= old(self)@.set_bowl(handle as nat, bowl@).bowls);
        }
    }

    /// Takes every byte of input not yet read and returns a bowl that holds
    /// them under the keys 0, 1, 2, ...
    pub fn read_io(&mut self) -> (r: Bowl)
        ensures
            (final(self)@, r@) == model::read_io(old(self)@),
    {
        let mut noodles: Vec<Noodle> = Vec::new();
        let mut i: usize = 0;
        while i < self.input.len()
            invariant
                *self == *old(self),
                i <= self.input.len(),
                noodles@.len() == i,
                forall|j: int|
                    0 <= j < i ==> noodles@[j]@ == model::bytes_bowl(self.input@)[j],
            decreases self.input.len() - i,
        {
            let key = Value::from_number(&Number::from_u64(i as u64));
            let value = Value::from_number(&Number::from_u64(self.input[i] as u64));
            noodles.push(Noodle::literal(key, value));
            i = i + 1;
        }
        let bowl = Bowl { noodles };
        assert(bowl@ =~= model::bytes_bowl(self.input@));
        self.input = Vec::new();
        bowl
    }

    /// Writes a bowl to the output: the bowl is read under 0, 1, 2, ... until
    /// a read gives something other than a number; the bytes read are then
    /// added to the output together. Fails on a number that is no byte.
    pub fn write_io(&mut self, bowl: &Bowl, depth: usize) -> (r: Result<(), Fault>)
        ensures
            (final(self)@, r) == model::write_io(old(self)@, bowl@, depth as nat),
        decreases depth, 2nat,
    {
        let mut data: Vec<u8> = Vec::new();
        loop
            invariant
                model::write_io(old(self)@, bowl@, depth as nat) == model::write_io_from(
                    self@,
                    bowl@,
                    data@.len(),
                    data@,
                    depth as nat,
                ),
            decreases usize::MAX - data.len(),
        {
            if data.len() == usize::MAX {
                return Err(Fault::OutputTooLong);
            }
            let key = Value::from_number(&Number::from_u64(data.len() as u64));
            let value = match bowl.read(self, &key, depth) {
                Ok(value) => value,
                Err(fault) => {
                    return Err(fault);
                },
            };
            match value {
                Value::Number(number) => {
                    match number.to_byte() {
                        Ok(byte) => {
                            data.push(byte);
                        },
                        Err(fault) => {
                            return Err(fault);
                        },
                    }
                },
                _ => {
                    let ghost m1 = self@;
                    let mut i: usize = 0;
                    while i < data.len()
                        invariant
                            i <= data.len(),
                            self@ == (Machine {
                                output: m1.output + data@.subrange(0, i as int),
                                ..m1
                            }),
                        decreases data.len() - i,
                    {
                        self.output.push(data[i]);
                        assert(self@.output =~= m1.output + data@.subrange(0, i + 1));
                        i = i + 1;
                    }
                    assert(data@.subrange(0, i as int) =~= data@);
                    return Ok(());
                },
            }
        }
    }

    /// Reads the memory under `noodle_number`: the cursor under 0 (`Null`
    /// before the first noodle fired), the input as a fresh bowl under 1, a
    /// general slot otherwise. `Null` where nothing is stored, or where the
    /// key is no number.
    pub fn read_mem(&mut self, noodle_number: &Value) -> (r: Value)
        ensures
            (final(self)@, r@) == model::read_mem(old(self)@, noodle_number@),
    {
        if let Value::Number(nn_number) = noodle_number {
            if nn_number.eq(&Number::zero()) {
                return match &self.cursor {
                    Some(cursor) => Value::from_number(cursor),
                    None => Value::Null,
                };
            }
            if nn_number.eq(&Number::one()) {
                let bowl = self.read_io();
                let ghost before = self.bowls@;
                let value = Value::from_bowl(bowl, &mut self.bowls);
                assert(bowls_view(self.bowls@) =~= bowls_view(before).push(bowl@));
                return value;
            }
            let mut i: usize = 0;
            while i < self.mem.len()
                invariant
                    *self == *old(self),
                    i <= self.mem.len(),
                    noodle_number@ == ValueView::Number(nn_number@),
                    nn_number@ != Ratio::zero(),
                    nn_number@ != Ratio::one(),
                    model::mem_position(self@.mem, nn_number@, 0) == model::mem_position(
                        self@.mem,
                        nn_number@,
                        i as int,
                    ),
                decreases self.mem.len() - i,
            {
                assert(self@.mem[i as int] == (self.mem@[i as int].0@, self.mem@[i as int].1@));
                if self.mem[i].0.eq(nn_number) {
                    assert(model::mem_position(self@.mem, nn_number@, i as int) == i);
                    return self.mem[i].1.clone();
                }
                i = i + 1;
            }
        }
        Value::Null
    }

    /// Writes `value` into the memory under `noodle_number`: under 1 the
    /// value must be a bowl, which goes to the output; a write under 0 is
    /// dropped; every other number names a general slot, which is updated in
    /// place or added at the end. A key that is no number writes nothing.
    pub fn write_mem(&mut self, noodle_number: &Value, value: &Value, depth: usize) -> (r: Result<
        (),
        Fault,
    >)
        ensures
            (final(self)@, r) == model::write_mem(
                old(self)@,
                noodle_number@,
                value@,
                depth as nat,
            ),
        decreases depth, 3nat,
    {
        if let Value::Number(nn_number) = noodle_number {
            if nn_number.eq(&Number::one()) {
                if let Value::Bowl(handle) = value {
                    let bowl = self.bowl(*handle);
                    return self.write_io(&bowl, depth);
                } else {
                    return Err(Fault::NonBowlOutput);
                }
            }
            if nn_number.eq(&Number::zero()) {
                return Ok(());
            }
            let mut i: usize = 0;
            while i < self.mem.len()
                invariant
                    *self == *old(self),
                    i <= self.mem.len(),
                    noodle_number@ == ValueView::Number(nn_number@),
                    nn_number@ != Ratio::zero(),
                    nn_number@ != Ratio::one(),
                    model::mem_position(self@.mem, nn_number@, 0) == model::mem_position(
                        self@.mem,
                        nn_number@,
                        i as int,
                    ),
                decreases self.mem.len() - i,
            {
                assert(self@.mem[i as int] == (self.mem@[i as int].0@, self.mem@[i as int].1@));
                if self.mem[i].0.eq(nn_number) {
                    assert(model::mem_position(self@.mem, nn_number@, i as int) == i);
                    self.mem.set(i, ((**nn_number).clone(), value.clone()));
                    assert(self@.mem =~= model::mem_store(old(self)@.mem, nn_number@, value@));
                    return Ok(());
                }
                i = i + 1;
            }
            self.mem.push(((**nn_number).clone(), value.clone()));
            assert(self@.mem =~= model::mem_store(old(self)@.mem, nn_number@, value@));
        }
        Ok(())
    }

    /// Whether a noodle with this key can fire next: the key is a number, and
    /// it is above the cursor if there is one.
    pub fn is_nextable(&self, noodle_number: &Value) -> (r: bool)
        ensures
            r == model::nextable(noodle_number@, self@.cursor),
    {
        match noodle_number {
            Value::Number(noodle_number_number) => match &self.cursor {
                Some(current_cursor_number) => noodle_number_number.gt(current_cursor_number),
                None => true,
            },
            _ => false,
        }
    }

    /// Chooses the noodle of `bowl` that fires next: every key is evaluated
    /// in turn; among the keys that can fire the smallest wins, and among
    /// equal keys the first. `None` if no noodle can fire.
    pub fn get_next_noodle(&mut self, bowl: &Bowl, depth: usize) -> (r: Result<
        Option<Noodle>,
        Fault,
    >)
        ensures
            final(self)@ == model::select_next(old(self)@, bowl@, 0, None, depth as nat).0,
            match model::select_next(old(self)@, bowl@, 0, None, depth as nat).1 {
                Ok(Some(choice)) => 0 <= choice.position < bowl@.len() && (r matches Ok(Some(n))
                    && n@ == bowl@[choice.position]),
                Ok(None) => r matches Ok(None),
                Err(fault) => r matches Err(f) && f == fault,
            },
        decreases depth, 1nat,
    {
        let mut min_nextable_noodle_number: Option<Number> = None;
        let mut min_nextable_noodle: Option<usize> = None;
        let ghost mut best: Option<Choice> = None;
        let mut i: usize = 0;
        while i < bowl.noodles.len()
            invariant
                i <= bowl.noodles.len(),
                model::select_next(old(self)@, bowl@, 0, None, depth as nat) == model::select_next(
                    self@,
                    bowl@,
                    i as int,
                    best,
                    depth as nat,
                ),
                best matches Some(c) ==> 0 <= c.position < i && min_nextable_noodle == Some(
                    c.position as usize,
                ) && cursor_view(min_nextable_noodle_number) == Some(c.key),
                best is None ==> min_nextable_noodle is None && min_nextable_noodle_number is None,
            decreases bowl.noodles.len() - i,
        {
            let noodle_number = match eval_expr(self, &bowl.noodles[i].nn_expr, depth) {
                Ok(value) => value,
                Err(fault) => {
                    return Err(fault);
                },
            };
            proof {
                best = model::better(self@, i as int, noodle_number@, best);
            }
            if self.is_nextable(&noodle_number) {
                if let Value::Number(noodle_number_number) = noodle_number {
                    let smaller = match &min_nextable_noodle_number {
                        Some(min) => noodle_number_number.lt(min),
                        None => true,
                    };
                    if smaller {
                        min_nextable_noodle_number = Some(*noodle_number_number);
                        min_nextable_noodle = Some(i);
                    }
                }
            }
            i = i + 1;
        }
        match min_nextable_noodle {
            Some(position) => Ok(Some(bowl.noodles[position].clone())),
            None => Ok(None),
        }
    }

    /// The general slots of the memory as a bowl of literal noodles.
    pub fn mem_to_bowl(&self) -> (r: Bowl)
        ensures
            r@ == Seq::new(
                self@.mem.len(),
                |i: int|
                    model::literal_noodle(ValueView::Number(self@.mem[i].0), self@.mem[i].1),
            ),
    {
        let mut noodles: Vec<Noodle> = Vec::new();
        let mut i: usize = 0;
        while i < self.mem.len()
            invariant
                i <= self.mem.len(),
                noodles@.len() == i,
                forall|j: int|
                    0 <= j < i ==> noodles@[j]@ == model::literal_noodle(
                        ValueView::Number(self@.mem[j].0),
                        self@.mem[j].1,
                    ),
            decreases self.mem.len() - i,
        {
            noodles.push(
                Noodle::literal(Value::from_number(&self.mem[i].0), self.mem[i].1.clone()),
            );
            i = i + 1;
        }
        let r = Bowl { noodles };
        assert(r@ =~= Seq::new(
            self@.mem.len(),
            |i: int| model::literal_noodle(ValueView::Number(self@.mem[i].0), self@.mem[i].1),
        ));
        r
    }
}

} // verus!
