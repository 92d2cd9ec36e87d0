//! Laws of the language, proved of the model in [`crate::model`].
//!
//! A key or a body that is a literal evaluates to its value and changes
//! nothing. The laws on bowls are stated for bowls whose keys are literals,
//! as every bowl is that was built by writes or read from the input: a key
//! that is a computation may give another value each time it is evaluated.

use crate::error::Fault;
use crate::model::{
    apply_unary, bytes_bowl, eval_expr, key_matches, literal_noodle, mem_lookup, mem_position,
    mem_store, number_literal, read_bowl, read_io, write_bowl, write_io, write_io_from, ExprView,
    Machine, NoodleView, UnaryOp, ValueView,
};
use crate::rational::Ratio;
use vstd::prelude::*;

verus! {

/// `!x` is 0/1 exactly if `x` is 1/1; every other value, number or not,
/// negates to 1/1.
pub proof fn lemma_not(v: ValueView)
    ensures
        apply_unary(UnaryOp::Not, v) == ValueView::Number(Ratio::zero()) <==> v
            == ValueView::Number(Ratio::one()),
        v != ValueView::Number(Ratio::one()) ==> apply_unary(UnaryOp::Not, v) == ValueView::Number(
            Ratio::one(),
        ),
{
}

/// Every key of the bowl is a literal.
pub open spec fn literal_keys(noodles: Seq<NoodleView>) -> bool {
    forall|i: int| 0 <= i < noodles.len() ==> (#[trigger] noodles[i]).key is Value
}

/// Whether the noodle's key is a literal number equal to the key looked for.
pub open spec fn noodle_has_key(noodle: NoodleView, key: ValueView) -> bool {
    noodle.key matches ExprView::Value(found) && key_matches(found, key)
}

/// The first position at or after `from` whose literal key is the number
/// `key`, or the length of the bowl if there is none.
pub open spec fn key_position(noodles: Seq<NoodleView>, key: ValueView, from: int) -> int
    decreases noodles.len() - from,
{
    if from < 0 || from >= noodles.len() {
        noodles.len() as int
    } else if noodle_has_key(noodles[from], key) {
        from
    } else {
        key_position(noodles, key, from + 1)
    }
}

/// No two noodles of the bowl have literal keys that are the same number.
pub open spec fn number_keys_distinct(noodles: Seq<NoodleView>) -> bool {
    forall|i: int, j: int|
        0 <= i < j < noodles.len() && (#[trigger] noodles[i]).key is Value ==> !noodle_has_key(
            #[trigger] noodles[j],
            noodles[i].key->Value_0,
        )
}

/// `key_position` is the first position that has the key.
pub proof fn lemma_key_position(noodles: Seq<NoodleView>, key: ValueView, from: int)
    requires
        0 <= from <= noodles.len(),
    ensures
        from <= key_position(noodles, key, from) <= noodles.len(),
        key_position(noodles, key, from) < noodles.len() ==> noodle_has_key(
            noodles[key_position(noodles, key, from)],
            key,
        ),
        forall|j: int|
            from <= j < key_position(noodles, key, from) ==> !noodle_has_key(
                #[trigger] noodles[j],
                key,
            ),
    decreases noodles.len() - from,
{
    if from < noodles.len() && !noodle_has_key(noodles[from], key) {
        lemma_key_position(noodles, key, from + 1);
    }
}

/// A position that has the key, with none before it that has, is what
/// `key_position` gives; so is the length, if no position has the key.
pub proof fn lemma_key_position_is(noodles: Seq<NoodleView>, key: ValueView, from: int, p: int)
    requires
        0 <= from <= p <= noodles.len(),
        p < noodles.len() ==> noodle_has_key(noodles[p], key),
        forall|j: int| from <= j < p ==> !noodle_has_key(#[trigger] noodles[j], key),
    ensures
        key_position(noodles, key, from) == p,
    decreases p - from,
{
    if from < p {
        lemma_key_position_is(noodles, key, from + 1, p);
    }
}

/// A literal evaluates to its value and changes nothing.
pub proof fn lemma_eval_literal(m: Machine, v: ValueView, depth: nat)
    requires
        depth >= 1,
    ensures
        eval_expr(m, ExprView::Value(v), depth) == (m, Ok::<ValueView, Fault>(v)),
{
}

/// Reading a bowl of literal keys evaluates nothing but the body under the
/// key: the machine is the same until then, and a key that is absent gives
/// `Null`.
pub proof fn lemma_read_literal_keys(
    m: Machine,
    noodles: Seq<NoodleView>,
    from: int,
    key: ValueView,
    depth: nat,
)
    requires
        literal_keys(noodles),
        depth >= 1,
        0 <= from <= noodles.len(),
    ensures
        read_bowl(m, noodles, from, key, depth) == (if key_position(noodles, key, from)
            < noodles.len() {
            eval_expr(m, noodles[key_position(noodles, key, from)].body, depth)
        } else {
            (m, Ok(ValueView::Null))
        }),
    decreases noodles.len() - from,
{
    lemma_key_position(noodles, key, from);
    if from < noodles.len() {
        let found = noodles[from].key->Value_0;
        assert(noodles[from].key == ExprView::Value(found));
        lemma_eval_literal(m, found, depth);
        if !noodle_has_key(noodles[from], key) {
            lemma_read_literal_keys(m, noodles, from + 1, key, depth);
        }
    }
}

/// What a write makes of a bowl of literal keys: the body under the key
/// replaced by the literal value, or the noodle of the two literals added at
/// the end.
pub open spec fn written(noodles: Seq<NoodleView>, key: ValueView, value: ValueView) -> Seq<
    NoodleView,
> {
    let p = key_position(noodles, key, 0);
    if p < noodles.len() {
        noodles.update(p, NoodleView { key: noodles[p].key, body: ExprView::Value(value) })
    } else {
        noodles.push(literal_noodle(key, value))
    }
}

/// Writing into a bowl of literal keys never fails and changes nothing but
/// the bowl.
pub proof fn lemma_write_literal_keys(
    m: Machine,
    noodles: Seq<NoodleView>,
    from: int,
    key: ValueView,
    value: ValueView,
    depth: nat,
)
    requires
        literal_keys(noodles),
        depth >= 1,
        0 <= from <= noodles.len(),
    ensures
        write_bowl(m, noodles, from, key, value, depth) == (
            m,
            Ok::<Seq<NoodleView>, Fault>(
                if key_position(noodles, key, from) < noodles.len() {
                    noodles.update(
                        key_position(noodles, key, from),
                        NoodleView {
                            key: noodles[key_position(noodles, key, from)].key,
                            body: ExprView::Value(value),
                        },
                    )
                } else {
                    noodles.push(literal_noodle(key, value))
                },
            ),
        ),
    decreases noodles.len() - from,
{
    lemma_key_position(noodles, key, from);
    if from < noodles.len() {
        let found = noodles[from].key->Value_0;
        assert(noodles[from].key == ExprView::Value(found));
        lemma_eval_literal(m, found, depth);
        if !noodle_has_key(noodles[from], key) {
            lemma_write_literal_keys(m, noodles, from + 1, key, value, depth);
        }
    }
}

/// After `write(k, v)` on a bowl, `read(k)` gives `v`: for a bowl of literal
/// keys and a key that is a number. The write changes nothing but the bowl,
/// and the read changes nothing at all.
pub proof fn lemma_read_after_write(
    m: Machine,
    noodles: Seq<NoodleView>,
    key: ValueView,
    value: ValueView,
    depth: nat,
)
    requires
        literal_keys(noodles),
        key is Number,
        depth >= 1,
    ensures
        write_bowl(m, noodles, 0, key, value, depth) == (
            m,
            Ok::<Seq<NoodleView>, Fault>(written(noodles, key, value)),
        ),
        literal_keys(written(noodles, key, value)),
        read_bowl(m, written(noodles, key, value), 0, key, depth) == (
            m,
            Ok::<ValueView, Fault>(value),
        ),
{
    lemma_write_literal_keys(m, noodles, 0, key, value, depth);
    lemma_key_position(noodles, key, 0);
    let p = key_position(noodles, key, 0);
    let after = written(noodles, key, value);
    assert forall|j: int| 0 <= j < p implies !noodle_has_key(#[trigger] after[j], key) by {
        assert(after[j] == noodles[j]);
    }
    assert(noodle_has_key(after[p], key));
    lemma_key_position_is(after, key, 0, p);
    lemma_read_literal_keys(m, after, 0, key, depth);
}

/// A write keeps the keys of a bowl apart: if no two noodles had the same
/// number as their literal key before, none have after.
pub proof fn lemma_write_keeps_keys_distinct(
    noodles: Seq<NoodleView>,
    key: ValueView,
    value: ValueView,
)
    requires
        literal_keys(noodles),
        number_keys_distinct(noodles),
    ensures
        literal_keys(written(noodles, key, value)),
        number_keys_distinct(written(noodles, key, value)),
{
    lemma_key_position(noodles, key, 0);
    let p = key_position(noodles, key, 0);
    let after = written(noodles, key, value);
    assert forall|i: int, j: int|
        0 <= i < j < after.len() && (#[trigger] after[i]).key is Value implies !noodle_has_key(
        #[trigger] after[j],
        after[i].key->Value_0,
    ) by {
        if j < noodles.len() {
            assert(after[i].key == noodles[i].key);
            assert(after[j].key == noodles[j].key);
            assert(!noodle_has_key(noodles[j], noodles[i].key->Value_0));
        } else {
            assert(after[i] == noodles[i]);
            assert(!noodle_has_key(noodles[i], key));
        }
    }
}

/// The empty bowl and every bowl read from the input have literal keys, no
/// two of them the same.
pub proof fn lemma_bytes_bowl_keys(bytes: Seq<u8>)
    ensures
        literal_keys(bytes_bowl(bytes)),
        number_keys_distinct(bytes_bowl(bytes)),
        literal_keys(Seq::<NoodleView>::empty()),
        number_keys_distinct(Seq::<NoodleView>::empty()),
{
}

/// The general slots of the memory hold no key twice.
pub open spec fn slots_distinct(mem: Seq<(Ratio, ValueView)>) -> bool {
    forall|i: int, j: int| 0 <= i < j < mem.len() ==> (#[trigger] mem[i]).0 != (#[trigger] mem[j]).0
}

/// `mem_position` is the first position that has the key.
pub proof fn lemma_mem_position(mem: Seq<(Ratio, ValueView)>, q: Ratio, from: int)
    requires
        0 <= from <= mem.len(),
    ensures
        from <= mem_position(mem, q, from) <= mem.len(),
        mem_position(mem, q, from) < mem.len() ==> mem[mem_position(mem, q, from)].0 == q,
        forall|j: int| from <= j < mem_position(mem, q, from) ==> (#[trigger] mem[j]).0 != q,
    decreases mem.len() - from,
{
    if from < mem.len() && mem[from].0 != q {
        lemma_mem_position(mem, q, from + 1);
    }
}

/// A position that has the key, with none before it that has, is what
/// `mem_position` gives; so is the length, if no position has the key.
pub proof fn lemma_mem_position_is(mem: Seq<(Ratio, ValueView)>, q: Ratio, from: int, p: int)
    requires
        0 <= from <= p <= mem.len(),
        p < mem.len() ==> mem[p].0 == q,
        forall|j: int| from <= j < p ==> (#[trigger] mem[j]).0 != q,
    ensures
        mem_position(mem, q, from) == p,
    decreases p - from,
{
    if from < p {
        lemma_mem_position_is(mem, q, from + 1, p);
    }
}

/// A value stored in a general slot is the value found there afterwards,
/// the other slots keep what they held, and no key comes to stand twice.
pub proof fn lemma_mem_store(mem: Seq<(Ratio, ValueView)>, q: Ratio, value: ValueView, other: Ratio)
    ensures
        mem_lookup(mem_store(mem, q, value), q) == value,
        other != q ==> mem_lookup(mem_store(mem, q, value), other) == mem_lookup(mem, other),
        slots_distinct(mem) ==> slots_distinct(mem_store(mem, q, value)),
{
    lemma_mem_position(mem, q, 0);
    let p = mem_position(mem, q, 0);
    let after = mem_store(mem, q, value);
    assert forall|j: int| 0 <= j < p implies (#[trigger] after[j]).0 != q by {
        assert(after[j] == mem[j]);
    }
    lemma_mem_position_is(after, q, 0, p);
    if other != q {
        lemma_mem_position(mem, other, 0);
        let o = mem_position(mem, other, 0);
        assert forall|j: int| 0 <= j < o implies (#[trigger] after[j]).0 != other by {
            if j != p {
                assert(after[j] == mem[j]);
            }
        }
        if o < mem.len() {
            assert(after[o] == mem[o]);
            lemma_mem_position_is(after, other, 0, o);
        } else {
            lemma_mem_position_is(after, other, 0, after.len() as int);
        }
    }
    if slots_distinct(mem) {
        assert forall|i: int, j: int| 0 <= i < j < after.len() implies (#[trigger] after[i]).0 != (
        #[trigger] after[j]).0 by {
            if j < mem.len() {
                assert(after[i].0 == mem[i].0);
                assert(after[j].0 == mem[j].0);
            } else {
                assert(after[i] == mem[i]);
            }
        }
    }
}

/// The bowl holds exactly the bytes `bytes`: its keys are literals, it holds
/// the literal byte `bytes[i]` under every key `i` below their number, and
/// under the key after the last it holds nothing, or a literal that is no
/// number.
pub open spec fn holds_bytes(noodles: Seq<NoodleView>, bytes: Seq<u8>) -> bool {
    &&& literal_keys(noodles)
    &&& forall|i: int|
        0 <= i < bytes.len() ==> {
            let p = #[trigger] key_position(noodles, ValueView::Number(Ratio::whole(i)), 0);
            p < noodles.len() && noodles[p].body == number_literal(Ratio::whole(bytes[i] as int))
        }
    &&& {
        let p = key_position(noodles, ValueView::Number(Ratio::whole(bytes.len() as int)), 0);
        p < noodles.len() ==> (noodles[p].body matches ExprView::Value(v) && !(v is Number))
    }
}

/// Writing a bowl that holds bytes from the key `index` on sends the rest of
/// the bytes after those already gathered.
proof fn lemma_write_io_from(
    m: Machine,
    noodles: Seq<NoodleView>,
    bytes: Seq<u8>,
    index: nat,
    depth: nat,
)
    requires
        holds_bytes(noodles, bytes),
        depth >= 1,
        index <= bytes.len() < usize::MAX,
    ensures
        write_io_from(m, noodles, index, bytes.subrange(0, index as int), depth) == (
            Machine { output: m.output + bytes, ..m },
            Ok::<(), Fault>(()),
        ),
    decreases bytes.len() - index,
{
    let key = ValueView::Number(Ratio::whole(index as int));
    lemma_read_literal_keys(m, noodles, 0, key, depth);
    let p = key_position(noodles, key, 0);
    if index < bytes.len() {
        assert(noodles[p].body == number_literal(Ratio::whole(bytes[index as int] as int)));
        assert(bytes.subrange(0, index as int).push(bytes[index as int]) =~= bytes.subrange(
            0,
            index as int + 1,
        ));
        lemma_write_io_from(m, noodles, bytes, index + 1, depth);
    } else {
        assert(bytes.subrange(0, index as int) =~= bytes);
    }
}

/// Writing a bowl whose keys `0..n` hold the bytes `b0..bn-1` sends exactly
/// those bytes, in order, and changes nothing else.
pub proof fn lemma_write_io_sends_bytes(
    m: Machine,
    noodles: Seq<NoodleView>,
    bytes: Seq<u8>,
    depth: nat,
)
    requires
        holds_bytes(noodles, bytes),
        depth >= 1,
        bytes.len() < usize::MAX,
    ensures
        write_io(m, noodles, depth) == (
            Machine { output: m.output + bytes, ..m },
            Ok::<(), Fault>(()),
        ),
{
    assert(bytes.subrange(0, 0) =~= Seq::<u8>::empty());
    lemma_write_io_from(m, noodles, bytes, 0, depth);
}

/// The bowl that a read of the input gives holds the bytes read.
pub proof fn lemma_bytes_bowl_holds_bytes(bytes: Seq<u8>)
    ensures
        holds_bytes(bytes_bowl(bytes), bytes),
{
    let noodles = bytes_bowl(bytes);
    assert forall|i: int| 0 <= i <= bytes.len() implies key_position(
        noodles,
        ValueView::Number(Ratio::whole(i)),
        0,
    ) == i by {
        lemma_key_position_is(noodles, ValueView::Number(Ratio::whole(i)), 0, i);
    }
}

/// Input read and written back comes out as it went in: the bytes taken by
/// a read of the input are the bytes that a write of the bowl sends.
pub proof fn lemma_echo(m: Machine, depth: nat)
    requires
        depth >= 1,
        m.input.len() < usize::MAX,
    ensures
        write_io(read_io(m).0, read_io(m).1, depth) == (
            Machine { input: Seq::empty(), output: m.output + m.input, ..m },
            Ok::<(), Fault>(()),
        ),
{
    lemma_bytes_bowl_holds_bytes(m.input);
    lemma_write_io_sends_bytes(read_io(m).0, bytes_bowl(m.input), m.input, depth);
}

} // verus!
