//! Front end and evaluator for a small scripting language: a lexer that turns
//! source text into tokens, a recursive-descent parser that builds an abstract
//! syntax tree under a fixed operator-precedence grammar, and a tree-walking
//! evaluator that folds the tree into runtime values.
//!
//! Numbers are modelled as exact decimal rationals held in machine integers,
//! so every arithmetic contract in this crate speaks about the mathematical
//! value of a result, not about a particular machine encoding.

pub mod ast;
pub mod ast_printer;
pub mod interpreter;
