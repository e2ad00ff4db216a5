//! A scanner for a small C-family expression language, and the board of a
//! cellular automaton.

pub mod lexer;
pub mod life;
pub mod token;
