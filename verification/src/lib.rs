//! A tree-walking interpreter for a small Lox-like language: a scanner that
//! turns source text into tokens, a recursive-descent parser that builds the
//! syntax tree, a printer for that tree, and an interpreter that evaluates it.
//!
//! Single-precision floating-point values are carried as their IEEE-754 bit
//! patterns; every computation on them is asked of a caller-supplied float
//! engine (see [`float`]).

pub mod text;
pub mod float;
pub mod token;
pub mod errors;
pub mod scanner;
pub mod ast;
pub mod parser;
pub mod object;
pub mod environment;
pub mod interpreter;
pub mod generator;
