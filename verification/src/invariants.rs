//! What every evaluation keeps: the cursor, which only the scheduler sets,
//! and the lowest terms of every number in the machine. From these follow
//! the laws of the scheduler: the cursor of a run only ever grows.

use crate::datatype::lemma_whole_wf;
use crate::error::Fault;
use crate::laws::lemma_mem_position;
use crate::model::{
    apply_binary, apply_unary, better, bytes_bowl, eval_expr, mem_position, mem_store, nextable,
    read_bowl, read_mem, run, select_next, step, write_bowl, write_io_from, write_mem, BinaryOp,
    Choice, ExprView, Machine, NoodleView, UnaryOp, ValueView,
};
use crate::rational::{lemma_operations_wf, Ratio};
use vstd::prelude::*;

verus! {

/// A number among the values is in lowest terms.
pub open spec fn value_wf(v: ValueView) -> bool {
    v matches ValueView::Number(q) ==> q.wf()
}

/// Every literal number of the expression is in lowest terms.
pub open spec fn expr_wf(e: ExprView) -> bool
    decreases e,
{
    match e {
        ExprView::Value(v) => value_wf(v),
        ExprView::BowlRead(b, k) => expr_wf(*b) && expr_wf(*k),
        ExprView::MemRead(k) => expr_wf(*k),
        ExprView::BowlWrite(b, k, v) => expr_wf(*b) && expr_wf(*k) && expr_wf(*v),
        ExprView::MemWrite(k, v) => expr_wf(*k) && expr_wf(*v),
        ExprView::Unary(_, a) => expr_wf(*a),
        ExprView::Binary(_, a, b) => expr_wf(*a) && expr_wf(*b),
    }
}

/// Every literal number of the bowl is in lowest terms.
pub open spec fn noodles_wf(noodles: Seq<NoodleView>) -> bool {
    forall|i: int|
        0 <= i < noodles.len() ==> expr_wf((#[trigger] noodles[i]).key) && expr_wf(noodles[i].body)
}

/// Every number of the machine is in lowest terms: the keys and values of
/// the memory, the cursor, and the literals of every bowl.
pub open spec fn machine_wf(m: Machine) -> bool {
    &&& forall|i: int|
        0 <= i < m.mem.len() ==> (#[trigger] m.mem[i]).0.wf() && value_wf(m.mem[i].1)
    &&& (m.cursor matches Some(c) ==> c.wf())
    &&& forall|h: int| 0 <= h < m.bowls.len() ==> noodles_wf(#[trigger] m.bowls[h])
}

/// A number that an evaluation gave is in lowest terms.
pub open spec fn result_wf(r: Result<ValueView, Fault>) -> bool {
    r matches Ok(v) ==> value_wf(v)
}

/// The operators with one operand give numbers in lowest terms.
pub proof fn lemma_apply_unary_wf(op: UnaryOp, v: ValueView)
    ensures
        value_wf(apply_unary(op, v)),
{
    lemma_whole_wf(0);
    lemma_whole_wf(1);
    if let ValueView::Number(q) = v {
        lemma_whole_wf(q.den);
    }
}

/// The operators with two operands give numbers in lowest terms.
pub proof fn lemma_apply_binary_wf(op: BinaryOp, a: ValueView, b: ValueView)
    requires
        value_wf(a),
        value_wf(b),
    ensures
        result_wf(apply_binary(op, a, b)),
{
    lemma_whole_wf(0);
    lemma_whole_wf(1);
    if let ValueView::Number(x) = a {
        if let ValueView::Number(y) = b {
            lemma_operations_wf(x, y);
        }
    }
}

/// A read of the memory keeps the cursor and the lowest terms.
pub proof fn lemma_read_mem_preserves(m: Machine, key: ValueView)
    ensures
        read_mem(m, key).0.cursor == m.cursor,
        machine_wf(m) ==> machine_wf(read_mem(m, key).0) && value_wf(read_mem(m, key).1),
{
    if machine_wf(m) {
        if let ValueView::Number(q) = key {
            if q == Ratio::zero() {
            } else if q == Ratio::one() {
                let noodles = bytes_bowl(m.input);
                assert forall|i: int| 0 <= i < noodles.len() implies expr_wf(
                    (#[trigger] noodles[i]).key,
                ) && expr_wf(noodles[i].body) by {
                    lemma_whole_wf(i);
                    lemma_whole_wf(m.input[i] as int);
                }
                let m2 = read_mem(m, key).0;
                assert forall|h: int| 0 <= h < m2.bowls.len() implies noodles_wf(
                    #[trigger] m2.bowls[h],
                ) by {
                    if h < m.bowls.len() {
                        assert(m2.bowls[h] == m.bowls[h]);
                    }
                }
            } else {
                lemma_mem_position(m.mem, q, 0);
            }
        }
    }
}

/// An evaluation keeps the cursor, and keeps every number in lowest terms.
pub proof fn lemma_eval_preserves(m: Machine, e: ExprView, depth: nat)
    ensures
        eval_expr(m, e, depth).0.cursor == m.cursor,
        machine_wf(m) && expr_wf(e) ==> machine_wf(eval_expr(m, e, depth).0) && result_wf(
            eval_expr(m, e, depth).1,
        ),
    decreases depth, 0nat, 0nat,
{
    if depth > 0 {
        let d = (depth - 1) as nat;
        match e {
            ExprView::Value(v) => {},
            ExprView::Unary(op, a) => {
                lemma_eval_preserves(m, *a, d);
                let (m1, r1) = eval_expr(m, *a, d);
                if let Ok(v) = r1 {
                    lemma_apply_unary_wf(op, v);
                }
            },
            ExprView::Binary(op, a, b) => {
                lemma_eval_preserves(m, *a, d);
                let (m1, r1) = eval_expr(m, *a, d);
                if let Ok(v1) = r1 {
                    lemma_eval_preserves(m1, *b, d);
                    let (m2, r2) = eval_expr(m1, *b, d);
                    if let Ok(v2) = r2 {
                        if machine_wf(m) && expr_wf(e) {
                            lemma_apply_binary_wf(op, v1, v2);
                        }
                    }
                }
            },
            ExprView::BowlRead(b, k) => {
                lemma_eval_preserves(m, *b, d);
                let (m1, r1) = eval_expr(m, *b, d);
                if let Ok(vb) = r1 {
                    lemma_eval_preserves(m1, *k, d);
                    let (m2, r2) = eval_expr(m1, *k, d);
                    if let Ok(vk) = r2 {
                        if let ValueView::Bowl(h) = vb {
                            lemma_read_preserves(m2, m2.bowl(h), 0, vk, d);
                        }
                    }
                }
            },
            ExprView::MemRead(k) => {
                lemma_eval_preserves(m, *k, d);
                let (m1, r1) = eval_expr(m, *k, d);
                if let Ok(vk) = r1 {
                    lemma_read_mem_preserves(m1, vk);
                }
            },
            ExprView::BowlWrite(b, k, v) => {
                lemma_eval_preserves(m, *b, d);
                let (m1, r1) = eval_expr(m, *b, d);
                if let Ok(vb) = r1 {
                    lemma_eval_preserves(m1, *k, d);
                    let (m2, r2) = eval_expr(m1, *k, d);
                    if let Ok(vk) = r2 {
                        lemma_eval_preserves(m2, *v, d);
                        let (m3, r3) = eval_expr(m2, *v, d);
                        if let Ok(vv) = r3 {
                            if let ValueView::Bowl(h) = vb {
                                lemma_write_preserves(m3, m3.bowl(h), 0, vk, vv, d);
                                let (m4, r4) = write_bowl(m3, m3.bowl(h), 0, vk, vv, d);
                                if let Ok(noodles) = r4 {
                                    let m5 = m4.set_bowl(h, noodles);
                                    if machine_wf(m) && expr_wf(e) {
                                        assert forall|j: int|
                                            0 <= j < m5.bowls.len() implies noodles_wf(
                                            #[trigger] m5.bowls[j],
                                        ) by {
                                            if j != h {
                                                assert(m5.bowls[j] == m4.bowls[j]);
                                            }
                                        }
                                    }
                                }
                            }
                        }
                    }
                }
            },
            ExprView::MemWrite(k, v) => {
                lemma_eval_preserves(m, *k, d);
                let (m1, r1) = eval_expr(m, *k, d);
                if let Ok(vk) = r1 {
                    lemma_eval_preserves(m1, *v, d);
                    let (m2, r2) = eval_expr(m1, *v, d);
                    if let Ok(vv) = r2 {
                        lemma_write_mem_preserves(m2, vk, vv, d);
                    }
                }
            },
        }
    }
}

/// A read of a bowl keeps the cursor and the lowest terms.
pub proof fn lemma_read_preserves(
    m: Machine,
    noodles: Seq<NoodleView>,
    from: int,
    key: ValueView,
    depth: nat,
)
    ensures
        read_bowl(m, noodles, from, key, depth).0.cursor == m.cursor,
        machine_wf(m) && noodles_wf(noodles) ==> machine_wf(
            read_bowl(m, noodles, from, key, depth).0,
        ) && result_wf(read_bowl(m, noodles, from, key, depth).1),
    decreases depth, 1nat, noodles.len() - from,
{
    if 0 <= from < noodles.len() {
        lemma_eval_preserves(m, noodles[from].key, depth);
        let (m1, r1) = eval_expr(m, noodles[from].key, depth);
        if let Ok(found) = r1 {
            lemma_eval_preserves(m1, noodles[from].body, depth);
            lemma_read_preserves(m1, noodles, from + 1, key, depth);
        }
    }
}

/// A write into a bowl keeps the cursor and the lowest terms, also in the
/// bowl written.
pub proof fn lemma_write_preserves(
    m: Machine,
    noodles: Seq<NoodleView>,
    from: int,
    key: ValueView,
    value: ValueView,
    depth: nat,
)
    ensures
        write_bowl(m, noodles, from, key, value, depth).0.cursor == m.cursor,
        machine_wf(m) && noodles_wf(noodles) && value_wf(key) && value_wf(value) ==> machine_wf(
            write_bowl(m, noodles, from, key, value, depth).0,
        ) && (write_bowl(m, noodles, from, key, value, depth).1 matches Ok(after) ==> noodles_wf(
            after,
        )),
    decreases depth, 1nat, noodles.len() - from,
{
    if 0 <= from < noodles.len() {
        lemma_eval_preserves(m, noodles[from].key, depth);
        let (m1, r1) = eval_expr(m, noodles[from].key, depth);
        if let Ok(found) = r1 {
            lemma_write_preserves(m1, noodles, from + 1, key, value, depth);
            if noodles_wf(noodles) && value_wf(value) {
                let after = noodles.update(
                    from,
                    NoodleView { key: noodles[from].key, body: ExprView::Value(value) },
                );
                assert forall|i: int| 0 <= i < after.len() implies expr_wf(
                    (#[trigger] after[i]).key,
                ) && expr_wf(after[i].body) by {
                    if i != from {
                        assert(after[i] == noodles[i]);
                    }
                }
            }
        }
    } else {
        if noodles_wf(noodles) && value_wf(key) && value_wf(value) {
            let after = noodles.push(crate::model::literal_noodle(key, value));
            assert forall|i: int| 0 <= i < after.len() implies expr_wf((#[trigger] after[i]).key)
                && expr_wf(after[i].body) by {
                if i < noodles.len() {
                    assert(after[i] == noodles[i]);
                }
            }
        }
    }
}

/// A write to the output keeps the cursor and the lowest terms.
pub proof fn lemma_write_io_preserves(
    m: Machine,
    noodles: Seq<NoodleView>,
    index: nat,
    sent: Seq<u8>,
    depth: nat,
)
    ensures
        write_io_from(m, noodles, index, sent, depth).0.cursor == m.cursor,
        machine_wf(m) && noodles_wf(noodles) ==> machine_wf(
            write_io_from(m, noodles, index, sent, depth).0,
        ),
    decreases depth, 2nat, usize::MAX - index,
{
    if index < usize::MAX {
        let key = ValueView::Number(Ratio::whole(index as int));
        lemma_read_preserves(m, noodles, 0, key, depth);
        let (m1, r1) = read_bowl(m, noodles, 0, key, depth);
        if let Ok(ValueView::Number(q)) = r1 {
            if let Ok(byte) = crate::model::output_byte(q) {
                lemma_write_io_preserves(m1, noodles, index + 1, sent.push(byte), depth);
            }
        }
    }
}

/// A write into the memory keeps the cursor and the lowest terms.
pub proof fn lemma_write_mem_preserves(m: Machine, key: ValueView, value: ValueView, depth: nat)
    ensures
        write_mem(m, key, value, depth).0.cursor == m.cursor,
        machine_wf(m) && value_wf(key) && value_wf(value) ==> machine_wf(
            write_mem(m, key, value, depth).0,
        ),
    decreases depth, 3nat, 0nat,
{
    if let ValueView::Number(q) = key {
        if q == Ratio::one() {
            if let ValueView::Bowl(h) = value {
                lemma_write_io_preserves(m, m.bowl(h), 0, Seq::empty(), depth);
            }
        } else if q != Ratio::zero() {
            lemma_mem_position(m.mem, q, 0);
            if machine_wf(m) && value_wf(key) && value_wf(value) {
                let after = mem_store(m.mem, q, value);
                assert forall|i: int| 0 <= i < after.len() implies (#[trigger] after[i]).0.wf()
                    && value_wf(after[i].1) by {
                    if i < m.mem.len() && i != mem_position(m.mem, q, 0) {
                        assert(after[i] == m.mem[i]);
                    }
                }
            }
        }
    }
}

/// What the scan for the next noodle keeps of its choice: a position in the
/// bowl, and a key in lowest terms that is above the cursor.
pub open spec fn choice_ok(best: Option<Choice>, cursor: Option<Ratio>, len: int, wf: bool) -> bool {
    best matches Some(c) ==> 0 <= c.position < len && nextable(ValueView::Number(c.key), cursor)
        && (wf ==> c.key.wf())
}

/// The scan for the next noodle keeps the cursor and, where `wf` says that
/// the numbers are in lowest terms, the lowest terms; the noodle it chooses
/// lies in the bowl and has a key above the cursor.
pub proof fn lemma_select_preserves(
    m: Machine,
    noodles: Seq<NoodleView>,
    from: int,
    best: Option<Choice>,
    depth: nat,
    wf: bool,
)
    requires
        0 <= from <= noodles.len(),
        wf ==> machine_wf(m) && noodles_wf(noodles),
        choice_ok(best, m.cursor, from, wf),
    ensures
        select_next(m, noodles, from, best, depth).0.cursor == m.cursor,
        wf ==> machine_wf(select_next(m, noodles, from, best, depth).0),
        select_next(m, noodles, from, best, depth).1 matches Ok(chosen) ==> choice_ok(
            chosen,
            m.cursor,
            noodles.len() as int,
            wf,
        ),
    decreases depth, 1nat, noodles.len() - from,
{
    if from < noodles.len() {
        lemma_eval_preserves(m, noodles[from].key, depth);
        let (m1, r1) = eval_expr(m, noodles[from].key, depth);
        if let Ok(found) = r1 {
            lemma_select_preserves(
                m1,
                noodles,
                from + 1,
                better(m1, from, found, best),
                depth,
                wf,
            );
        }
    }
}

/// What a step learns of the noodle it fires: the key at which the noodle
/// was chosen, and what the key gave when it was evaluated again to become
/// the cursor. `None` if no noodle was chosen, or if a fault came first.
pub open spec fn step_keys(m: Machine, noodles: Seq<NoodleView>, depth: nat) -> Option<
    (Ratio, ValueView),
> {
    let (m1, r1) = select_next(m, noodles, 0, None, depth);
    match r1 {
        Ok(Some(choice)) => match eval_expr(m1, noodles[choice.position].key, depth).1 {
            Ok(again) => Some((choice.key, again)),
            Err(_) => None,
        },
        _ => None,
    }
}

/// The key of the noodle that the step fires gives, evaluated again, the
/// number at which the noodle was chosen. A key that is a literal, or that
/// only reads what no key writes, is steady.
pub open spec fn steady(m: Machine, noodles: Seq<NoodleView>, depth: nat) -> bool {
    step_keys(m, noodles, depth) matches Some((chosen, again)) ==> again == ValueView::Number(
        chosen,
    )
}

/// A step that fires a noodle sets the cursor to the noodle's key, evaluated
/// again; where that key is steady, the new cursor is strictly above the old
/// one. A step that fires none leaves the cursor as it is. Every number
/// stays in lowest terms.
pub proof fn lemma_step_advances(m: Machine, noodles: Seq<NoodleView>, depth: nat)
    ensures
        step(m, noodles, depth).1 == Ok::<bool, Fault>(true) ==> (step_keys(m, noodles, depth)
            matches Some((chosen, again)) && (again matches ValueView::Number(q) && step(
            m,
            noodles,
            depth,
        ).0.cursor == Some(q) && nextable(ValueView::Number(chosen), m.cursor))),
        step(m, noodles, depth).1 == Ok::<bool, Fault>(true) && steady(m, noodles, depth) ==> (step(
            m,
            noodles,
            depth,
        ).0.cursor matches Some(q) && nextable(ValueView::Number(q), m.cursor)),
        step(m, noodles, depth).1 == Ok::<bool, Fault>(false) ==> step(m, noodles, depth).0.cursor
            == m.cursor,
        machine_wf(m) && noodles_wf(noodles) ==> machine_wf(step(m, noodles, depth).0),
{
    let wf = machine_wf(m) && noodles_wf(noodles);
    lemma_select_preserves(m, noodles, 0, None, depth, wf);
    let (m1, r1) = select_next(m, noodles, 0, None, depth);
    if let Ok(Some(choice)) = r1 {
        let noodle = noodles[choice.position];
        lemma_eval_preserves(m1, noodle.key, depth);
        let (m2, r2) = eval_expr(m1, noodle.key, depth);
        if let Ok(ValueView::Number(q)) = r2 {
            let m3 = Machine { cursor: Some(q), ..m2 };
            lemma_eval_preserves(m3, noodle.body, depth);
        }
    }
}

/// The machine after `n` steps, and whether each of them fired a noodle. Once
/// a step fires none, or fails, the machine stays as that step left it.
pub open spec fn after_steps(m: Machine, noodles: Seq<NoodleView>, depth: nat, n: nat) -> (
    Machine,
    bool,
)
    decreases n,
{
    if n == 0 {
        (m, true)
    } else {
        let (m1, live) = after_steps(m, noodles, depth, (n - 1) as nat);
        if live {
            let (m2, r) = step(m1, noodles, depth);
            (m2, r == Ok::<bool, Fault>(true))
        } else {
            (m1, false)
        }
    }
}

/// The machine after `n` steps is the machine after `n - 1` steps from where
/// the first step leaves it.
pub proof fn lemma_after_steps_first(m: Machine, noodles: Seq<NoodleView>, depth: nat, n: nat)
    requires
        n >= 1,
    ensures
        after_steps(m, noodles, depth, n) == (if step(m, noodles, depth).1 == Ok::<bool, Fault>(
            true,
        ) {
            after_steps(step(m, noodles, depth).0, noodles, depth, (n - 1) as nat)
        } else {
            (step(m, noodles, depth).0, false)
        }),
    decreases n,
{
    if n > 1 {
        lemma_after_steps_first(m, noodles, depth, (n - 1) as nat);
    } else {
        assert(after_steps(m, noodles, depth, 0) == (m, true));
    }
}

/// A run of `n` steps that all fired is where `after_steps` says, with a
/// noodle still to fire or not yet looked for.
pub proof fn lemma_run_is_steps(m: Machine, noodles: Seq<NoodleView>, depth: nat, n: nat)
    requires
        after_steps(m, noodles, depth, n).1,
    ensures
        run(m, noodles, depth, n) == (
            after_steps(m, noodles, depth, n).0,
            Ok::<bool, Fault>(false),
        ),
    decreases n,
{
    if n > 0 {
        lemma_after_steps_first(m, noodles, depth, n);
        lemma_run_is_steps(step(m, noodles, depth).0, noodles, depth, (n - 1) as nat);
    }
}

/// Every step of the first `n` that fires a noodle fires it at a steady key.
pub open spec fn steady_run(m: Machine, noodles: Seq<NoodleView>, depth: nat, n: nat) -> bool {
    forall|k: nat|
        k < n && (#[trigger] after_steps(m, noodles, depth, k)).1 ==> steady(
            after_steps(m, noodles, depth, k).0,
            noodles,
            depth,
        )
}

/// `<` on fractions with denominators above zero is transitive.
pub proof fn lemma_lt_transitive(a: Ratio, b: Ratio, c: Ratio)
    requires
        a.den > 0,
        b.den > 0,
        c.den > 0,
        a.lt(b),
        b.lt(c),
    ensures
        a.lt(c),
{
    let (an, ad, bn, bd, cn, cd) = (a.num, a.den, b.num, b.den, c.num, c.den);
    assert((an * bd) * cd < (bn * ad) * cd) by (nonlinear_arith)
        requires
            an * bd < bn * ad,
            cd > 0,
    {
    }
    assert((bn * cd) * ad < (cn * bd) * ad) by (nonlinear_arith)
        requires
            bn * cd < cn * bd,
            ad > 0,
    {
    }
    assert((an * bd) * cd == (an * cd) * bd) by (nonlinear_arith);
    assert((bn * ad) * cd == (bn * cd) * ad) by (nonlinear_arith);
    assert((cn * bd) * ad == (cn * ad) * bd) by (nonlinear_arith);
    assert(an * cd < cn * ad) by (nonlinear_arith)
        requires
            (an * cd) * bd < (cn * ad) * bd,
            bd > 0,
    {
    }
}

/// If `n` steps fired, so did every number of steps below; the numbers stay
/// in lowest terms, and from the first step on there is a cursor.
pub proof fn lemma_after_steps(m: Machine, noodles: Seq<NoodleView>, depth: nat, n: nat, k: nat)
    requires
        k <= n,
        after_steps(m, noodles, depth, n).1,
    ensures
        after_steps(m, noodles, depth, k).1,
        machine_wf(m) && noodles_wf(noodles) ==> machine_wf(after_steps(m, noodles, depth, k).0),
        k >= 1 ==> after_steps(m, noodles, depth, k).0.cursor is Some,
    decreases n,
{
    if k < n {
        lemma_after_steps(m, noodles, depth, (n - 1) as nat, k);
    } else if n > 0 {
        lemma_after_steps(m, noodles, depth, (n - 1) as nat, (n - 1) as nat);
        lemma_step_advances(after_steps(m, noodles, depth, (n - 1) as nat).0, noodles, depth);
    }
}

/// The cursors of one run grow: of two steps that fired, the later left the
/// cursor strictly above where the earlier left it. So no two steps of a run
/// fire under the same cursor. This holds of a run whose steps fire at steady
/// keys.
pub proof fn lemma_cursor_grows(
    m: Machine,
    noodles: Seq<NoodleView>,
    depth: nat,
    i: nat,
    j: nat,
)
    requires
        machine_wf(m),
        noodles_wf(noodles),
        1 <= i < j,
        after_steps(m, noodles, depth, j).1,
        steady_run(m, noodles, depth, j),
    ensures
        after_steps(m, noodles, depth, i).0.cursor matches Some(earlier) && (after_steps(
            m,
            noodles,
            depth,
            j,
        ).0.cursor matches Some(later) && earlier.lt(later) && earlier != later),
    decreases j,
{
    let before = (j - 1) as nat;
    lemma_after_steps(m, noodles, depth, j, before);
    lemma_after_steps(m, noodles, depth, j, j);
    lemma_after_steps(m, noodles, depth, j, i);
    let m1 = after_steps(m, noodles, depth, before).0;
    assert(after_steps(m, noodles, depth, before).1);
    assert(steady(m1, noodles, depth));
    lemma_step_advances(m1, noodles, depth);
    let middle = m1.cursor->Some_0;
    let later = after_steps(m, noodles, depth, j).0.cursor->Some_0;
    assert(middle.lt(later));
    if i < before {
        assert(steady_run(m, noodles, depth, before)) by {
            assert forall|k: nat|
                k < before && (#[trigger] after_steps(m, noodles, depth, k)).1 implies steady(
                after_steps(m, noodles, depth, k).0,
                noodles,
                depth,
            ) by {}
        }
        lemma_cursor_grows(m, noodles, depth, i, before);
        let earlier = after_steps(m, noodles, depth, i).0.cursor->Some_0;
        lemma_lt_transitive(earlier, middle, later);
    }
}

} // verus!
