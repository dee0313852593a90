//! A small dynamically typed scripting language: a tokenizer that builds the
//! syntax tree while it scans, and a tree-walking evaluator.
//!
//! A program is a text. [`lexer`] tokenizes it into syntax nodes, which
//! [`token`] defines; [`grammar`] states what the nodes of a text are.
//! [`parser`] evaluates nodes to values, which [`value`] defines together
//! with the environment; [`semantics`] states what an evaluation may yield.
//! Numbers are 64-bit binary floating-point values held as bit patterns:
//! [`number`] decides what can be read off a pattern, and the evaluator's
//! host computes with them and runs the native functions. [`libs`] holds the
//! standard bindings, [`error`] the two kinds of failure, and [`text`] the
//! classes of characters and a few string operations. [`laws`] proves what
//! holds of every text and of every program.

pub mod error;
pub mod text;
pub mod token;
pub mod grammar;
pub mod lexer;
pub mod number;
pub mod value;
pub mod semantics;
pub mod parser;
pub mod libs;
pub mod laws;
