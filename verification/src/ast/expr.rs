//! Expressions.

use vstd::prelude::*;

use crate::float::{engine_ok, FloatAnswer, FloatQuery};
use crate::text::append;
use crate::token;
use crate::token::{literal_text, token_text, Token};

verus! {

/// Assignment of a value to a variable: `name = value`.
pub struct Assign {
    pub name: Token,
    pub value: Box<Expr>,
}

/// A binary operation: `left operator right`.
pub struct Binary {
    pub left: Box<Expr>,
    pub operator: Token,
    pub right: Box<Expr>,
}

/// A parenthesized expression.
pub struct Grouping {
    pub expression: Box<Expr>,
}

/// A literal value.
pub struct Literal {
    pub value: token::Literal,
}

/// A unary operation: `operator right`.
pub struct Unary {
    pub operator: Token,
    pub right: Box<Expr>,
}

/// A reference to a variable.
pub struct Variable {
    pub name: Token,
}

/// An expression.
pub enum Expr {
    Assign(Assign),
    Binary(Binary),
    Grouping(Grouping),
    Literal(Literal),
    Unary(Unary),
    Variable(Variable),
}

impl Assign {
    pub fn new(name: Token, value: Box<Expr>) -> (r: Self)
        ensures
            r.name == name,
            r.value == value,
    {
        Assign { name, value }
    }
}

impl Binary {
    pub fn new(left: Box<Expr>, operator: Token, right: Box<Expr>) -> (r: Self)
        ensures
            r.left == left,
            r.operator == operator,
            r.right == right,
    {
        Binary { left, operator, right }
    }
}

impl Grouping {
    pub fn new(expression: Box<Expr>) -> (r: Self)
        ensures
            r.expression == expression,
    {
        Grouping { expression }
    }
}

impl Literal {
    pub fn new(value: token::Literal) -> (r: Self)
        ensures
            r.value == value,
    {
        Literal { value }
    }
}

impl Unary {
    pub fn new(operator: Token, right: Box<Expr>) -> (r: Self)
        ensures
            r.operator == operator,
            r.right == right,
    {
        Unary { operator, right }
    }
}

impl Variable {
    pub fn new(name: Token) -> (r: Self)
        ensures
            r.name == name,
    {
        Variable { name }
    }
}

/// The rendering of an expression: its parts separated by spaces, tokens
/// rendered as [`token_text`] says and literals as [`literal_text`] says; a
/// grouping renders as its inner expression.
pub open spec fn expr_text<F: Fn(FloatQuery) -> FloatAnswer>(f: F, e: Expr) -> Seq<char>
    decreases e,
{
    match e {
        Expr::Assign(a) => token_text(f, a.name@) + " "@ + expr_text(f, *a.value),
        Expr::Binary(b) => expr_text(f, *b.left) + " "@ + token_text(f, b.operator@) + " "@
            + expr_text(f, *b.right),
        Expr::Grouping(g) => expr_text(f, *g.expression),
        Expr::Literal(l) => literal_text(f, l.value@),
        Expr::Unary(u) => token_text(f, u.operator@) + " "@ + expr_text(f, *u.right),
        Expr::Variable(v) => token_text(f, v.name@),
    }
}

impl Expr {
    /// The rendering of the expression (see [`expr_text`]).
    pub fn to_string<F: Fn(FloatQuery) -> FloatAnswer>(&self, floats: &F) -> (r: String)
        requires
            engine_ok(*floats),
        ensures
            r@ == expr_text(*floats, *self),
        decreases self,
    {
        match self {
            Expr::Assign(a) => {
                let mut r = a.name.to_string(floats);
                append(&mut r, " ");
                let v = a.value.to_string(floats);
                append(&mut r, v.as_str());
                r
            },
            Expr::Binary(b) => {
                let mut r = b.left.to_string(floats);
                append(&mut r, " ");
                let o = b.operator.to_string(floats);
                append(&mut r, o.as_str());
                append(&mut r, " ");
                let v = b.right.to_string(floats);
                append(&mut r, v.as_str());
                r
            },
            Expr::Grouping(g) => g.expression.to_string(floats),
            Expr::Literal(l) => l.value.to_string(floats),
            Expr::Unary(u) => {
                let mut r = u.operator.to_string(floats);
                append(&mut r, " ");
                let v = u.right.to_string(floats);
                append(&mut r, v.as_str());
                r
            },
            Expr::Variable(v) => v.name.to_string(floats),
        }
    }
}

} // verus!
