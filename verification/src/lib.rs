//! Parser combinators over regular-expression atoms.
//!
//! A grammar is a value: atoms that match a pattern at a fixed place, put together by
//! sequence, choice, repetition and two operators that shape the reported value. A
//! grammar may refer to the parser that a parse is started on, which is how rules
//! that contain themselves are written. [`parser::Parser::parse`] runs a grammar on a
//! whole input and returns a success with a value, or a failure with the furthest
//! position reached and what was expected there.
//!
//! Positions count code points (`char`s) from the start of the input, everywhere.
//!
//! What a grammar means is defined in [`grammar`], as a function of the grammar and
//! the input; the executable parser is proved to compute it. The regular expressions
//! themselves are the `regex` crate's: [`atom`] states what is believed of it.

pub mod atom;
pub mod grammar;
pub mod laws;
pub mod outcome;
pub mod parser;
mod text;
pub mod value;
