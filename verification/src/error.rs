//! What can go wrong while a program is read or run.

use vstd::prelude::*;
use vstd::string::StringExecFns;

verus! {

/// The source text is not a program.
#[derive(Debug, Clone, Copy, PartialEq, Eq)]
pub struct ParseError;

impl ParseError {
    /// The message shown to the user.
    pub fn message(&self) -> (r: String)
        ensures
            r@ == "code parsing is failed"@,
    {
        String::from_str("code parsing is failed")
    }
}

/// A rational number was asked for with a denominator of zero.
#[derive(Debug, Clone, Copy, PartialEq, Eq)]
pub struct ZeroDenominatorError;

impl ZeroDenominatorError {
    /// The message shown to the user.
    pub fn message(&self) -> (r: String)
        ensures
            r@ == "denominator cannot be zero"@,
    {
        String::from_str("denominator cannot be zero")
    }
}

/// A fatal error of a running program.
#[derive(Debug, Clone, Copy, PartialEq, Eq)]
pub enum Fault {
    /// A division by zero.
    ZeroDenominator,
    /// A value written to the output is a number, but not a whole one.
    NonIntegerOutput,
    /// A value written to the output is below zero.
    NegativeOutput,
    /// A value written to the output is above 255.
    OversizedOutput,
    /// What was written to the output is not a bowl.
    NonBowlOutput,
    /// The key of the noodle about to fire is not a number.
    NonNumberCursor,
    /// Expressions were nested deeper than the evaluation was allowed to go.
    DepthExhausted,
    /// One write to the output holds more bytes than the machine can address.
    OutputTooLong,
}

impl Fault {
    /// The text of the message for each fault.
    pub open spec fn message_text(self) -> Seq<char> {
        match self {
            Fault::ZeroDenominator => "denominator cannot be zero"@,
            Fault::NonIntegerOutput => "Cannot write non-integer value"@,
            Fault::NegativeOutput => "Cannot write negative value"@,
            Fault::OversizedOutput => "Cannot write too large value"@,
            Fault::NonBowlOutput => "Cannot write non-bowl value"@,
            Fault::NonNumberCursor => "Cannot set cursor to non-number value"@,
            Fault::DepthExhausted => "expressions are nested too deeply"@,
            Fault::OutputTooLong => "Cannot write that many values"@,
        }
    }

    /// The message shown to the user.
    pub fn message(&self) -> (r: String)
        ensures
            r@ == self.message_text(),
    {
        match self {
            Fault::ZeroDenominator => ZeroDenominatorError.message(),
            Fault::NonIntegerOutput => String::from_str("Cannot write non-integer value"),
            Fault::NegativeOutput => String::from_str("Cannot write negative value"),
            Fault::OversizedOutput => String::from_str("Cannot write too large value"),
            Fault::NonBowlOutput => String::from_str("Cannot write non-bowl value"),
            Fault::NonNumberCursor => String::from_str("Cannot set cursor to non-number value"),
            Fault::DepthExhausted => String::from_str("expressions are nested too deeply"),
            Fault::OutputTooLong => String::from_str("Cannot write that many values"),
        }
    }
}

/// Why a program could not be run to its end.
#[derive(Debug, Clone, Copy, PartialEq, Eq)]
pub enum RunError {
    /// The source text is not a program.
    Parse(ParseError),
    /// The program is the memory symbol `@` instead of a bowl.
    RootIsMemory,
    /// The program failed while it ran.
    Fault(Fault),
}

impl RunError {
    /// The text of the message for each error.
    pub open spec fn message_text(self) -> Seq<char> {
        match self {
            RunError::Parse(_) => "code parsing is failed"@,
            RunError::RootIsMemory => "the program cannot be the memory"@,
            RunError::Fault(fault) => fault.message_text(),
        }
    }

    /// The message shown to the user.
    pub fn message(&self) -> (r: String)
        ensures
            r@ == self.message_text(),
    {
        match self {
            RunError::Parse(e) => e.message(),
            RunError::RootIsMemory => String::from_str("the program cannot be the memory"),
            RunError::Fault(f) => f.message(),
        }
    }
}

} // verus!
