//! The ways in which scanning, parsing and evaluation fail.

use vstd::prelude::*;

verus! {

/// What the scanner found unclosed at the end of the source.
#[derive(Debug, Clone, Copy, PartialEq, Eq, Structural)]
pub enum LexError {
    UnclosedString,
    UnclosedParenthesis,
    UnclosedBracket,
}

/// Why a source text could not be run. Each aborts the statement at hand.
#[derive(Debug, Clone, Copy, PartialEq, Eq, Structural)]
pub enum Error {
    /// The scanner gave up.
    Lexer(LexError),
    /// The tokens do not form a statement.
    Syntax,
    /// A symbol was read before it was given a value.
    UndefinedSymbol,
    /// A name that holds a value was assigned again.
    ReassignmentError,
    /// A value is not in the set that constrains it.
    TypeMismatch,
    /// An expression in the place of a type is not a set.
    NotASet,
    /// The target of a call is not a function.
    NotCallable,
    /// Too many arguments, or two functions of different arity combined.
    ArityError,
    /// An operator met operands that it has no rule for.
    UnsupportedOperation,
    /// The language has no meaning for this yet.
    NotYetImplemented,
    /// Calls are nested deeper than the interpreter follows them.
    DepthExceeded,
    /// The file to run does not exist.
    FileNotFound,
}

/// What went wrong, in words.
pub open spec fn message_of(error: Error) -> Seq<char> {
    match error {
        Error::Lexer(LexError::UnclosedString) => "a string is left open"@,
        Error::Lexer(LexError::UnclosedParenthesis) => "a parenthesis is left open"@,
        Error::Lexer(LexError::UnclosedBracket) => "a bracket is left open"@,
        Error::Syntax => "the tokens do not form a statement"@,
        Error::UndefinedSymbol => "a variable is not defined"@,
        Error::ReassignmentError => "a variable cannot be reassigned"@,
        Error::TypeMismatch => "a value is not in the set that constrains it"@,
        Error::NotASet => "the type is not a set"@,
        Error::NotCallable => "the value is not callable"@,
        Error::ArityError => "the number of arguments does not fit"@,
        Error::UnsupportedOperation => "the operator cannot be applied to these operands"@,
        Error::NotYetImplemented => "not yet implemented"@,
        Error::DepthExceeded => "calls are nested too deep"@,
        Error::FileNotFound => "File not found"@,
    }
}

impl Error {
    /// What went wrong, in words.
    pub fn message(&self) -> (r: &'static str)
        ensures
            r@ == message_of(*self),
    {
        match self {
            Error::Lexer(LexError::UnclosedString) => "a string is left open",
            Error::Lexer(LexError::UnclosedParenthesis) => "a parenthesis is left open",
            Error::Lexer(LexError::UnclosedBracket) => "a bracket is left open",
            Error::Syntax => "the tokens do not form a statement",
            Error::UndefinedSymbol => "a variable is not defined",
            Error::ReassignmentError => "a variable cannot be reassigned",
            Error::TypeMismatch => "a value is not in the set that constrains it",
            Error::NotASet => "the type is not a set",
            Error::NotCallable => "the value is not callable",
            Error::ArityError => "the number of arguments does not fit",
            Error::UnsupportedOperation => "the operator cannot be applied to these operands",
            Error::NotYetImplemented => "not yet implemented",
            Error::DepthExceeded => "calls are nested too deep",
            Error::FileNotFound => "File not found",
        }
    }
}

} // verus!
