//! A small dynamically-typed expression language: a lexer turns source text
//! into tokens, a precedence-climbing parser builds an abstract syntax tree,
//! and two back ends execute it — a tree-walking evaluator with lexical
//! closures, and a bytecode compiler paired with a stack virtual machine that
//! covers the literal/arithmetic subset of the language.
//!
//! Every component carries a full functional contract: each executable
//! function is proved to return exactly what the corresponding specification
//! function describes.

pub mod code;
pub mod compiler;
pub mod evaluator;
pub mod lexer;
pub mod parser;
pub mod text;
pub mod vm;
