//! Statements.

use vstd::prelude::*;

use crate::ast::expr::{expr_text, Expr};
use crate::float::{engine_ok, FloatAnswer, FloatQuery};
use crate::text::append;
use crate::token::{token_text, Token};

verus! {

/// An expression evaluated for its effect.
pub struct Expression {
    pub expression: Expr,
}

/// An expression whose value is printed.
pub struct Print {
    pub expression: Expr,
}

/// A variable declaration: `let name = initializer;`.
pub struct Let {
    pub name: Token,
    pub initializer: Expr,
}

/// A constant declaration: `const name = initializer;`.
pub struct Const {
    pub name: Token,
    pub initializer: Expr,
}

/// A statement.
pub enum Stmt {
    Expression(Expression),
    Print(Print),
    Let(Let),
    Const(Const),
}

impl Expression {
    pub fn new(expression: Expr) -> (r: Self)
        ensures
            r.expression == expression,
    {
        Expression { expression }
    }
}

impl Print {
    pub fn new(expression: Expr) -> (r: Self)
        ensures
            r.expression == expression,
    {
        Print { expression }
    }
}

impl Let {
    pub fn new(name: Token, initializer: Expr) -> (r: Self)
        ensures
            r.name == name,
            r.initializer == initializer,
    {
        Let { name, initializer }
    }
}

impl Const {
    pub fn new(name: Token, initializer: Expr) -> (r: Self)
        ensures
            r.name == name,
            r.initializer == initializer,
    {
        Const { name, initializer }
    }
}

/// The rendering of a statement: the expression of an expression or print
/// statement; the name and initializer of a declaration.
pub open spec fn stmt_text<F: Fn(FloatQuery) -> FloatAnswer>(f: F, s: Stmt) -> Seq<char> {
    match s {
        Stmt::Expression(e) => expr_text(f, e.expression),
        Stmt::Print(p) => expr_text(f, p.expression),
        Stmt::Let(l) => token_text(f, l.name@) + " "@ + expr_text(f, l.initializer),
        Stmt::Const(c) => token_text(f, c.name@) + " "@ + expr_text(f, c.initializer),
    }
}

impl Stmt {
    /// The rendering of the statement (see [`stmt_text`]).
    pub fn to_string<F: Fn(FloatQuery) -> FloatAnswer>(&self, floats: &F) -> (r: String)
        requires
            engine_ok(*floats),
        ensures
            r@ == stmt_text(*floats, *self),
    {
        match self {
            Stmt::Expression(e) => e.expression.to_string(floats),
            Stmt::Print(p) => p.expression.to_string(floats),
            Stmt::Let(l) => {
                let mut r = l.name.to_string(floats);
                append(&mut r, " ");
                let v = l.initializer.to_string(floats);
                append(&mut r, v.as_str());
                r
            },
            Stmt::Const(c) => {
                let mut r = c.name.to_string(floats);
                append(&mut r, " ");
                let v = c.initializer.to_string(floats);
                append(&mut r, v.as_str());
                r
            },
        }
    }
}

} // verus!
