//! Programs whose keys are quiet.
//!
//! A key is quiet if evaluating it changes nothing: it is built from
//! literals, operators, and reads of the memory under constant keys other
//! than 1, the key of the input. `1/2`, `@:2 + 1` and `@:(0 - 4)/11` are
//! quiet. A quiet key gives the same number when its noodle is chosen and
//! when the noodle fires, so in a program whose keys are all quiet the cursor
//! grows with every step.

use crate::error::Fault;
use crate::invariants::{
    after_steps, lemma_cursor_grows, machine_wf, noodles_wf, steady, steady_run,
};
use crate::model::{
    better, eval_expr, key_matches, literal_noodle, read_bowl, select_next, write_bowl, Choice,
    ExprView, Machine, NoodleView, ValueView,
};
use crate::rational::Ratio;
use vstd::prelude::*;

verus! {

/// A machine with nothing in it.
pub open spec fn blank() -> Machine {
    Machine {
        mem: Seq::empty(),
        cursor: None,
        bowls: Seq::empty(),
        input: Seq::empty(),
        output: Seq::empty(),
    }
}

/// The expression is built from literals and operators alone.
pub open spec fn constant(e: ExprView) -> bool
    decreases e,
{
    match e {
        ExprView::Value(_) => true,
        ExprView::Unary(_, a) => constant(*a),
        ExprView::Binary(_, a, b) => constant(*a) && constant(*b),
        _ => false,
    }
}

/// What a constant expression evaluates to, in whatever machine.
pub open spec fn constant_result(e: ExprView, depth: nat) -> Result<ValueView, Fault> {
    eval_expr(blank(), e, depth).1
}

/// A constant expression evaluates to the same in every machine, and changes
/// none.
pub proof fn lemma_constant(m: Machine, e: ExprView, depth: nat)
    requires
        constant(e),
    ensures
        eval_expr(m, e, depth) == (m, constant_result(e, depth)),
    decreases e,
{
    if depth > 0 {
        let d = (depth - 1) as nat;
        match e {
            ExprView::Unary(_, a) => {
                lemma_constant(m, *a, d);
                lemma_constant(blank(), *a, d);
            },
            ExprView::Binary(_, a, b) => {
                lemma_constant(m, *a, d);
                lemma_constant(blank(), *a, d);
                lemma_constant(m, *b, d);
                lemma_constant(blank(), *b, d);
            },
            _ => {},
        }
    }
}

/// The expression is built from literals, operators, and reads of the memory
/// under constant keys that are not 1.
pub open spec fn quiet(e: ExprView, depth: nat) -> bool
    decreases e,
{
    depth == 0 || match e {
        ExprView::Value(_) => true,
        ExprView::Unary(_, a) => quiet(*a, (depth - 1) as nat),
        ExprView::Binary(_, a, b) => quiet(*a, (depth - 1) as nat) && quiet(*b, (depth - 1) as nat),
        ExprView::MemRead(k) => constant(*k) && constant_result(*k, (depth - 1) as nat) != Ok::<
            ValueView,
            Fault,
        >(ValueView::Number(Ratio::one())),
        _ => false,
    }
}

/// Every key of the bowl is quiet.
pub open spec fn quiet_keys(noodles: Seq<NoodleView>, depth: nat) -> bool {
    forall|i: int| 0 <= i < noodles.len() ==> quiet((#[trigger] noodles[i]).key, depth)
}

/// Evaluating a quiet expression changes nothing.
pub proof fn lemma_quiet(m: Machine, e: ExprView, depth: nat)
    requires
        quiet(e, depth),
    ensures
        eval_expr(m, e, depth).0 == m,
    decreases e,
{
    if depth > 0 {
        let d = (depth - 1) as nat;
        match e {
            ExprView::Unary(_, a) => {
                lemma_quiet(m, *a, d);
            },
            ExprView::Binary(_, a, b) => {
                lemma_quiet(m, *a, d);
                lemma_quiet(m, *b, d);
            },
            ExprView::MemRead(k) => {
                lemma_constant(m, *k, d);
            },
            _ => {},
        }
    }
}

/// The noodle chosen so far has, in the machine as it is, the key that it
/// was chosen at.
pub open spec fn choice_current(
    best: Option<Choice>,
    m: Machine,
    noodles: Seq<NoodleView>,
    depth: nat,
) -> bool {
    best matches Some(c) ==> 0 <= c.position < noodles.len() && eval_expr(
        m,
        noodles[c.position].key,
        depth,
    ).1 == Ok::<ValueView, Fault>(ValueView::Number(c.key))
}

/// Choosing among quiet keys changes nothing, and the noodle chosen still
/// has the key that it was chosen at.
pub proof fn lemma_select_quiet(
    m: Machine,
    noodles: Seq<NoodleView>,
    from: int,
    best: Option<Choice>,
    depth: nat,
)
    requires
        quiet_keys(noodles, depth),
        0 <= from <= noodles.len(),
        choice_current(best, m, noodles, depth),
    ensures
        select_next(m, noodles, from, best, depth).0 == m,
        select_next(m, noodles, from, best, depth).1 matches Ok(chosen) ==> choice_current(
            chosen,
            m,
            noodles,
            depth,
        ),
    decreases noodles.len() - from,
{
    if from < noodles.len() {
        lemma_quiet(m, noodles[from].key, depth);
        if let Ok(found) = eval_expr(m, noodles[from].key, depth).1 {
            lemma_select_quiet(m, noodles, from + 1, better(m, from, found, best), depth);
        }
    }
}

/// A step of a program with quiet keys fires its noodle at a steady key.
pub proof fn lemma_quiet_keys_steady(m: Machine, noodles: Seq<NoodleView>, depth: nat)
    requires
        quiet_keys(noodles, depth),
    ensures
        steady(m, noodles, depth),
{
    lemma_select_quiet(m, noodles, 0, None, depth);
}

/// In a program with quiet keys the cursor grows with every step: of two
/// steps that fired, the later left the cursor strictly above where the
/// earlier left it, and so no two steps fire under the same cursor.
pub proof fn lemma_cursor_grows_with_quiet_keys(
    m: Machine,
    noodles: Seq<NoodleView>,
    depth: nat,
    i: nat,
    j: nat,
)
    requires
        machine_wf(m),
        noodles_wf(noodles),
        quiet_keys(noodles, depth),
        1 <= i < j,
        after_steps(m, noodles, depth, j).1,
    ensures
        after_steps(m, noodles, depth, i).0.cursor matches Some(earlier) && (after_steps(
            m,
            noodles,
            depth,
            j,
        ).0.cursor matches Some(later) && earlier.lt(later) && earlier != later),
{
    assert(steady_run(m, noodles, depth, j)) by {
        assert forall|k: nat|
            k < j && (#[trigger] after_steps(m, noodles, depth, k)).1 implies steady(
            after_steps(m, noodles, depth, k).0,
            noodles,
            depth,
        ) by {
            lemma_quiet_keys_steady(after_steps(m, noodles, depth, k).0, noodles, depth);
        }
    }
    lemma_cursor_grows(m, noodles, depth, i, j);
}

/// Whether the noodle's key is, in the machine `m`, the number looked for.
pub open spec fn noodle_matches(m: Machine, noodle: NoodleView, key: ValueView, depth: nat) -> bool {
    eval_expr(m, noodle.key, depth).1 matches Ok(found) && key_matches(found, key)
}

/// Every key of the bowl is quiet and can be evaluated in the machine `m`
/// without a fault.
pub open spec fn sound_keys(m: Machine, noodles: Seq<NoodleView>, depth: nat) -> bool {
    forall|i: int|
        0 <= i < noodles.len() ==> quiet((#[trigger] noodles[i]).key, depth) && eval_expr(
            m,
            noodles[i].key,
            depth,
        ).1 is Ok
}

/// The first position at or after `from` whose key is the number looked for,
/// or the length of the bowl if there is none.
pub open spec fn match_position(
    m: Machine,
    noodles: Seq<NoodleView>,
    key: ValueView,
    from: int,
    depth: nat,
) -> int
    decreases noodles.len() - from,
{
    if from < 0 || from >= noodles.len() {
        noodles.len() as int
    } else if noodle_matches(m, noodles[from], key, depth) {
        from
    } else {
        match_position(m, noodles, key, from + 1, depth)
    }
}

/// `match_position` is the first position that has the key.
pub proof fn lemma_match_position(
    m: Machine,
    noodles: Seq<NoodleView>,
    key: ValueView,
    from: int,
    depth: nat,
)
    requires
        0 <= from <= noodles.len(),
    ensures
        from <= match_position(m, noodles, key, from, depth) <= noodles.len(),
        match_position(m, noodles, key, from, depth) < noodles.len() ==> noodle_matches(
            m,
            noodles[match_position(m, noodles, key, from, depth)],
            key,
            depth,
        ),
        forall|j: int|
            from <= j < match_position(m, noodles, key, from, depth) ==> !noodle_matches(
                m,
                #[trigger] noodles[j],
                key,
                depth,
            ),
    decreases noodles.len() - from,
{
    if from < noodles.len() && !noodle_matches(m, noodles[from], key, depth) {
        lemma_match_position(m, noodles, key, from + 1, depth);
    }
}

/// A position that has the key, with none before it that has, is what
/// `match_position` gives; so is the length, if no position has the key.
pub proof fn lemma_match_position_is(
    m: Machine,
    noodles: Seq<NoodleView>,
    key: ValueView,
    from: int,
    p: int,
    depth: nat,
)
    requires
        0 <= from <= p <= noodles.len(),
        p < noodles.len() ==> noodle_matches(m, noodles[p], key, depth),
        forall|j: int| from <= j < p ==> !noodle_matches(m, #[trigger] noodles[j], key, depth),
    ensures
        match_position(m, noodles, key, from, depth) == p,
    decreases p - from,
{
    if from < p {
        lemma_match_position_is(m, noodles, key, from + 1, p, depth);
    }
}

/// What a write makes of a bowl of quiet keys: the body under the key
/// replaced by the literal value, or the noodle of the two literals added at
/// the end.
pub open spec fn written_in(
    m: Machine,
    noodles: Seq<NoodleView>,
    key: ValueView,
    value: ValueView,
    depth: nat,
) -> Seq<NoodleView> {
    let p = match_position(m, noodles, key, 0, depth);
    if p < noodles.len() {
        noodles.update(p, NoodleView { key: noodles[p].key, body: ExprView::Value(value) })
    } else {
        noodles.push(literal_noodle(key, value))
    }
}

/// Reading a bowl of quiet keys evaluates nothing that changes the machine
/// but the body under the key.
pub proof fn lemma_read_quiet_keys(
    m: Machine,
    noodles: Seq<NoodleView>,
    from: int,
    key: ValueView,
    depth: nat,
)
    requires
        sound_keys(m, noodles, depth),
        0 <= from <= noodles.len(),
    ensures
        read_bowl(m, noodles, from, key, depth) == (if match_position(
            m,
            noodles,
            key,
            from,
            depth,
        ) < noodles.len() {
            eval_expr(m, noodles[match_position(m, noodles, key, from, depth)].body, depth)
        } else {
            (m, Ok(ValueView::Null))
        }),
    decreases noodles.len() - from,
{
    lemma_match_position(m, noodles, key, from, depth);
    if from < noodles.len() {
        lemma_quiet(m, noodles[from].key, depth);
        if !noodle_matches(m, noodles[from], key, depth) {
            lemma_read_quiet_keys(m, noodles, from + 1, key, depth);
        }
    }
}

/// Writing into a bowl of quiet keys changes nothing but the bowl.
pub proof fn lemma_write_quiet_keys(
    m: Machine,
    noodles: Seq<NoodleView>,
    from: int,
    key: ValueView,
    value: ValueView,
    depth: nat,
)
    requires
        sound_keys(m, noodles, depth),
        0 <= from <= noodles.len(),
    ensures
        write_bowl(m, noodles, from, key, value, depth) == (
            m,
            Ok::<Seq<NoodleView>, Fault>(
                if match_position(m, noodles, key, from, depth) < noodles.len() {
                    noodles.update(
                        match_position(m, noodles, key, from, depth),
                        NoodleView {
                            key: noodles[match_position(m, noodles, key, from, depth)].key,
                            body: ExprView::Value(value),
                        },
                    )
                } else {
                    noodles.push(literal_noodle(key, value))
                },
            ),
        ),
    decreases noodles.len() - from,
{
    lemma_match_position(m, noodles, key, from, depth);
    if from < noodles.len() {
        lemma_quiet(m, noodles[from].key, depth);
        if !noodle_matches(m, noodles[from], key, depth) {
            lemma_write_quiet_keys(m, noodles, from + 1, key, value, depth);
        }
    }
}

/// After `write(k, v)` on a bowl, `read(k)` gives `v`: for a bowl whose keys
/// are quiet and evaluate without a fault, and for a key that is a number.
/// The write changes nothing but the bowl, and the read changes nothing at
/// all.
pub proof fn lemma_read_after_write_with_quiet_keys(
    m: Machine,
    noodles: Seq<NoodleView>,
    key: ValueView,
    value: ValueView,
    depth: nat,
)
    requires
        sound_keys(m, noodles, depth),
        key is Number,
        depth >= 1,
    ensures
        write_bowl(m, noodles, 0, key, value, depth) == (
            m,
            Ok::<Seq<NoodleView>, Fault>(written_in(m, noodles, key, value, depth)),
        ),
        sound_keys(m, written_in(m, noodles, key, value, depth), depth),
        read_bowl(m, written_in(m, noodles, key, value, depth), 0, key, depth) == (
            m,
            Ok::<ValueView, Fault>(value),
        ),
{
    lemma_write_quiet_keys(m, noodles, 0, key, value, depth);
    lemma_match_position(m, noodles, key, 0, depth);
    let p = match_position(m, noodles, key, 0, depth);
    let after = written_in(m, noodles, key, value, depth);
    assert forall|i: int| 0 <= i < after.len() implies quiet((#[trigger] after[i]).key, depth)
        && eval_expr(m, after[i].key, depth).1 is Ok by {
        if i < noodles.len() {
            assert(after[i].key == noodles[i].key);
        }
    }
    assert forall|j: int| 0 <= j < p implies !noodle_matches(m, #[trigger] after[j], key, depth) by {
        assert(after[j] == noodles[j]);
    }
    assert(noodle_matches(m, after[p], key, depth));
    lemma_match_position_is(m, after, key, 0, p, depth);
    lemma_read_quiet_keys(m, after, 0, key, depth);
}

} // verus!
