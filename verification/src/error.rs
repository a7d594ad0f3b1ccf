//! Errors: a kind the semantics pins down, and a free-form message.

use vstd::prelude::*;

verus! {

/// The kind of a failure, the part of an error that the language
/// semantics pins down. The message text is free-form.
#[derive(Clone, Copy, PartialEq, Eq, Structural, Debug)]
pub enum ErrKind {
    /// Scanning failed: unterminated string, illegal character, malformed number.
    Lex,
    /// The token stream does not match the grammar.
    Parse,
    /// An identifier was read or assigned without a prior declaration.
    Name,
    /// An operator or statement was applied to operands of the wrong type.
    Type,
    /// A function was called with the wrong number of arguments.
    Arity,
    /// Division by zero, or an exact integer result out of range.
    Arithmetic,
    /// An abstract-syntax node of a shape the parser never produces.
    Internal,
    /// The step bound of the evaluator was exhausted.
    OutOfFuel,
}

/// An error of the interpreter: a kind plus a human-readable message.
#[derive(Debug)]
pub struct LoxError {
    pub kind: ErrKind,
    pub msg: String,
}

impl LoxError {
    /// Builds an error of the given kind.
    pub fn new(kind: ErrKind, msg: &str) -> (r: LoxError)
        ensures
            r.kind == kind,
    {
        LoxError { kind, msg: msg.to_owned() }
    }

    /// The message text, free-form and not part of any contract.
    pub fn message(&self) -> &String {
        &self.msg
    }
}

} // verus!
