//! A JSON recognizer driven by a shift-reduce automaton.
//!
//! The [`lexer`] turns characters into tokens with one token of lookahead,
//! [`parsetable`] holds the grammar and the action and goto tables derived
//! from it, and [`parser`] runs the automaton over the lexer's tokens.

pub mod lexer;
pub mod parser;
pub mod parsetable;
