//! An interpreter for a small language of mathematics: numbers of any size
//! (integers, rationals, complex numbers), texts, booleans, tuples, sets that
//! serve as types, and functions that can be called in part.
//!
//! A source text is scanned by [`lexer`], parsed by [`parser`] and run by
//! [`interpreter`]. What the tokens mean is laid down in [`grammar`], what
//! the statements mean in [`semantics`]; the executable code is proved to
//! compute just that. [`laws`] holds what follows for every program.

pub mod arithmetic;
pub mod ast;
pub mod config;
pub mod environment;
pub mod error;
pub mod grammar;
pub mod hashing;
pub mod interpreter;
pub mod laws;
pub mod lexer;
pub mod number;
pub mod parser;
pub mod render;
pub mod semantics;
pub mod set;
pub mod token;
pub mod types;
pub mod value;
