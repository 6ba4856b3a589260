//! The lexical and syntactic layer: tokens, the number model, the expression
//! and statement trees, the scanner and the parser.

pub mod expr;
pub mod expr_visitor;
pub mod number;
pub mod object;
pub mod parser;
pub mod printer;
pub mod scanner;
pub mod stmt;
pub mod token;
