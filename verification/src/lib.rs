//! A tree-walking interpreter for a small dynamically typed scripting
//! language: a lexer, a recursive-descent parser and an evaluator, each with
//! a machine-checked contract.

pub mod diagnostics;
pub mod error;
pub mod expression;
pub mod grammar;
pub mod interpreter;
pub mod lexemes;
pub mod lexer;
pub mod parser;
pub mod precedence;
pub mod progress;
pub mod span;
pub mod statement;
pub mod text;
