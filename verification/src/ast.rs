//! The syntax tree: expressions, statements, and their printer.

pub mod expr;
pub mod stmt;
pub mod printer;
