use vstd::prelude::*;

use crate::operations::EvalError;
use crate::parser::ParseError;

verus! {

/// The coarse kind of a unified user-facing error.
#[derive(Clone, Copy, Debug, PartialEq, Eq, Structural)]
pub enum ErrorKind {
    Other,
    EvalError,
    ParseError,
}

/// A unified user-facing error: a coarse kind and a human-readable message.
/// The pipeline itself only produces its typed errors; this value is what a
/// surrounding orchestrator reports.
#[derive(Clone, Debug, PartialEq)]
pub struct RispError {
    pub kind: ErrorKind,
    pub msg: String,
}

impl ParseError {
    /// A human-readable description of this error.
    pub fn message(&self) -> (r: String)
        ensures
            r@ == "unexpected end of input"@,
    {
        String::from_str("unexpected end of input")
    }
}

impl EvalError {
    /// A human-readable description of this error.
    pub fn message(&self) -> (r: String)
        ensures
            (match self {
                EvalError::TypeMismatch => r@ == "type mismatch between operands"@,
                EvalError::IdentOp => r@ == "an identifier cannot be evaluated"@,
            }),
    {
        match self {
            EvalError::TypeMismatch => String::from_str("type mismatch between operands"),
            EvalError::IdentOp => String::from_str("an identifier cannot be evaluated"),
        }
    }
}

impl RispError {
    /// Wraps a parsing failure, keeping its message.
    pub fn from_parse(e: ParseError) -> (r: RispError)
        ensures
            r.kind == ErrorKind::ParseError,
            r.msg@ == "unexpected end of input"@,
    {
        RispError { kind: ErrorKind::ParseError, msg: e.message() }
    }

    /// Wraps an evaluation failure, keeping its message.
    pub fn from_eval(e: EvalError) -> (r: RispError)
        ensures
            r.kind == ErrorKind::EvalError,
            (match e {
                EvalError::TypeMismatch => r.msg@ == "type mismatch between operands"@,
                EvalError::IdentOp => r.msg@ == "an identifier cannot be evaluated"@,
            }),
    {
        RispError { kind: ErrorKind::EvalError, msg: e.message() }
    }
}

} // verus!
