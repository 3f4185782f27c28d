//! Autosys-style condition expressions: the AST, its text form, the parser and
//! the evaluator.
//!
//! Parses condition strings like `success(jobA) and (failure(jobB) or done(jobC))`
//! and evaluates them against upstream job state.

pub mod expr;
pub mod eval;
pub mod grammar;
pub mod parse;
pub mod roundtrip;
