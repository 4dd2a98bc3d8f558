//! Front end of a small scripting language: tokens, a scanner, an
//! expression tree, a precedence parser and a prefix-notation printer.

pub mod ast;
pub mod parser;
pub mod report;
pub mod scanner;
pub mod text;
pub mod token;
