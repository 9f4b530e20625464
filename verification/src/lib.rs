//! A small dynamically-typed scripting language: a lexer that turns source
//! text into tokens, a precedence-climbing parser that builds an abstract
//! syntax tree, and a tree-walking evaluator that runs the tree against a
//! runtime value model with lexical scoping and closures.
//!
//! Each stage carries a mathematical model: spec functions over sequences
//! describe what lexing, parsing and evaluation return, and the executable
//! code is proved to follow those models exactly.

pub mod ast;
pub mod evaluator;
pub mod object;
pub mod parser;
pub mod laws;
pub mod lexer;
pub mod token;
