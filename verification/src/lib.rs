//! A minimal line-oriented stack-and-variable language.
//!
//! A script is a text with one command per line. [`parser::parse`] turns it
//! into a sequence of [`command::Command`]s and [`evaluator::Evaluator`] runs
//! that sequence against a table of variables and an operand stack. Both are
//! verified against mathematical models: the parser against a grammar over
//! sequences of chars, the evaluator against a step function over a map and
//! a sequence.

pub mod command;
pub mod error;
pub mod evaluator;
pub mod laws;
pub mod parser;
pub mod text;
pub mod value;
