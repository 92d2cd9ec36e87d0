//! An interpreter for a small language of bowls, noodles and rational numbers.
//!
//! A program is a bowl: an ordered list of noodles, each a pair of a key
//! expression and a body expression. A cursor walks the bowl upwards: at every
//! step the noodle with the smallest key above the cursor fires. All numbers
//! are exact rationals in lowest terms.

pub mod datatype;
pub mod env;
pub mod error;
pub mod eval;
pub mod integer;
pub mod invariants;
pub mod laws;
pub mod lexer;
pub mod model;
pub mod natural;
pub mod parser;
pub mod quiet;
pub mod rational;
pub mod text;

use crate::env::{bowls_view, Env};
use crate::error::{Fault, RunError};
use crate::model::Machine;
use crate::parser::{parse, parse_source, Program};
use vstd::prelude::*;
use vstd::utf8::encode_utf8;

verus! {

/// What running a program's source text makes of a machine: the text is
/// read, the bowls of the program join the bowls of the machine, and the
/// program runs for at most `steps` steps. A text that is no program leaves
/// the machine as it is.
pub open spec fn run_source(m: Machine, bytes: Seq<u8>, depth: nat, steps: nat) -> (
    Machine,
    Result<bool, RunError>,
) {
    match parse_source(bytes, m.bowls.len()) {
        Ok((root, bowls)) => {
            let (m1, r) = model::run(Machine { bowls: m.bowls + bowls, ..m }, root, depth, steps);
            (
                m1,
                match r {
                    Ok(ended) => Ok(ended),
                    Err(fault) => Err(RunError::Fault(fault)),
                },
            )
        },
        Err(e) => (m, Err(e)),
    }
}

/// Reads a program from `code` and runs it in `env` for at most `steps`
/// steps, with evaluations nested at most `depth` deep. `Ok(true)` if the
/// program came to its end, `Ok(false)` if a noodle could still fire when the
/// steps were used up.
pub fn run(code: String, env: &mut Env, depth: usize, steps: u64) -> (r: Result<bool, RunError>)
    ensures
        (final(env)@, r) == run_source(
            old(env)@,
            encode_utf8(code@),
            depth as nat,
            steps as nat,
        ),
{
    let program = match parse(code.as_str().as_bytes(), env.bowls.len()) {
        Ok(program) => program,
        Err(e) => {
            return Err(e);
        },
    };
    let Program { root, bowls } = program;
    let mut bowls = bowls;
    let ghost added = bowls@;
    env.bowls.append(&mut bowls);
    assert(bowls_view(env.bowls@) =~= bowls_view(old(env).bowls@) + bowls_view(added));
    match eval::eval(env, root, depth, steps) {
        Ok(ended) => Ok(ended),
        Err(fault) => Err(RunError::Fault(fault)),
    }
}

} // verus!
