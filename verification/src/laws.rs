//! Laws of the language: what holds of every text that is tokenized and of
//! every program that is evaluated.

pub mod evaluator;
pub mod tokenizer;
