//! The expression tree and its traversals.

pub mod ast_printer;
pub mod expr;
pub mod visitor;
