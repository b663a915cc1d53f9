//! Prints the syntax tree in prefix notation with parentheses.

use vstd::prelude::*;

use crate::ast::expr::{Binary, Expr, Grouping, Literal, Unary};
use crate::ast::stmt::Stmt;
use crate::float::{engine_ok, FloatAnswer, FloatQuery};
use crate::text::{append, signed_decimal_text, text};
use crate::token::{literal_text, token_text, LiteralKind, Token};

verus! {

/// Prints expressions and statements.
pub struct AstPrinter {}

/// The printed form of an expression: an operation as its operator's lexeme
/// and its operands in parentheses, `(- 1)` or `(+ 1 2)`; a grouping as
/// `(group inner)`; an assignment as `(= name value)`; a literal as its
/// rendering; a variable as its token's rendering.
pub open spec fn printed<F: Fn(FloatQuery) -> FloatAnswer>(f: F, e: Expr) -> Seq<char>
    decreases e,
{
    match e {
        Expr::Assign(a) => "("@ + "="@ + " "@ + a.name.lexeme@ + " "@ + printed(f, *a.value) + ")"@,
        Expr::Binary(b) => "("@ + b.operator.lexeme@ + " "@ + printed(f, *b.left) + " "@ + printed(
            f,
            *b.right,
        ) + ")"@,
        Expr::Grouping(g) => "("@ + "group"@ + " "@ + printed(f, *g.expression) + ")"@,
        Expr::Literal(l) => literal_text(f, l.value@),
        Expr::Unary(u) => "("@ + u.operator.lexeme@ + " "@ + printed(f, *u.right) + ")"@,
        Expr::Variable(v) => token_text(f, v.name@),
    }
}

/// Each expression printed, preceded by a space.
pub open spec fn printed_operands<F: Fn(FloatQuery) -> FloatAnswer>(
    f: F,
    es: Seq<Expr>,
) -> Seq<char>
    decreases es.len(),
{
    if es.len() == 0 {
        Seq::empty()
    } else {
        printed_operands(f, es.drop_last()) + " "@ + printed(f, es.last())
    }
}

/// The printed form of a statement: its keyword, `expression`, `print`,
/// `let` or `const`, a space, and its expression printed.
pub open spec fn printed_stmt<F: Fn(FloatQuery) -> FloatAnswer>(f: F, s: Stmt) -> Seq<char> {
    match s {
        Stmt::Expression(e) => "expression "@ + printed(f, e.expression),
        Stmt::Print(p) => "print "@ + printed(f, p.expression),
        Stmt::Let(l) => "let "@ + printed(f, l.initializer),
        Stmt::Const(c) => "const "@ + printed(f, c.initializer),
    }
}

impl AstPrinter {
    /// The printed form of an expression (see [`printed`]).
    pub fn print_expr<F: Fn(FloatQuery) -> FloatAnswer>(&self, expr: &Expr, floats: &F) -> (r: String)
        requires
            engine_ok(*floats),
        ensures
            r@ == printed(*floats, *expr),
        decreases expr,
    {
        match expr {
            Expr::Assign(a) => {
                let mut r = text("(");
                append(&mut r, "=");
                append(&mut r, " ");
                append(&mut r, a.name.lexeme.as_str());
                append(&mut r, " ");
                let v = self.print_expr(&a.value, floats);
                append(&mut r, v.as_str());
                append(&mut r, ")");
                r
            },
            Expr::Binary(b) => {
                let mut r = text("(");
                append(&mut r, b.operator.lexeme.as_str());
                append(&mut r, " ");
                let l = self.print_expr(&b.left, floats);
                append(&mut r, l.as_str());
                append(&mut r, " ");
                let v = self.print_expr(&b.right, floats);
                append(&mut r, v.as_str());
                append(&mut r, ")");
                r
            },
            Expr::Grouping(g) => {
                let mut r = text("(");
                append(&mut r, "group");
                append(&mut r, " ");
                let v = self.print_expr(&g.expression, floats);
                append(&mut r, v.as_str());
                append(&mut r, ")");
                r
            },
            Expr::Literal(l) => l.value.to_string(floats),
            Expr::Unary(u) => {
                let mut r = text("(");
                append(&mut r, u.operator.lexeme.as_str());
                append(&mut r, " ");
                let v = self.print_expr(&u.right, floats);
                append(&mut r, v.as_str());
                append(&mut r, ")");
                r
            },
            Expr::Variable(v) => v.name.to_string(floats),
        }
    }

    /// The printed form of an expression (see [`printed`]).
    pub fn print<F: Fn(FloatQuery) -> FloatAnswer>(&self, expr: Box<Expr>, floats: &F) -> (r: String)
        requires
            engine_ok(*floats),
        ensures
            r@ == printed(*floats, *expr),
    {
        self.print_expr(&expr, floats)
    }

    /// The printed form of a statement (see [`printed_stmt`]).
    pub fn print_stmt<F: Fn(FloatQuery) -> FloatAnswer>(&mut self, stmt: &Stmt, floats: &F) -> (r: String)
        requires
            engine_ok(*floats),
        ensures
            r@ == printed_stmt(*floats, *stmt),
    {
        let (mut r, e) = match stmt {
            Stmt::Expression(s) => (text("expression "), &s.expression),
            Stmt::Print(s) => (text("print "), &s.expression),
            Stmt::Let(s) => (text("let "), &s.initializer),
            Stmt::Const(s) => (text("const "), &s.initializer),
        };
        let v = self.print_expr(e, floats);
        append(&mut r, v.as_str());
        r
    }
}

/// Puts a name and the printed expressions, each preceded by a space, in
/// parentheses: `(name e1 e2)`.
pub fn parenthesize<F: Fn(FloatQuery) -> FloatAnswer>(
    printer: &AstPrinter,
    name: &str,
    exprs: &[&Expr],
    floats: &F,
) -> (r: String)
    requires
        engine_ok(*floats),
    ensures
        r@ == "("@ + name@ + printed_operands(*floats, exprs@.map_values(|e: &Expr| *e)) + ")"@,
{
    let ghost es = exprs@.map_values(|e: &Expr| *e);
    let mut string = text("(");
    append(&mut string, name);
    let mut i: usize = 0;
    while i < exprs.len()
        invariant
            engine_ok(*floats),
            i <= exprs@.len(),
            es == exprs@.map_values(|e: &Expr| *e),
            string@ == "("@ + name@ + printed_operands(*floats, es.subrange(0, i as int)),
        decreases exprs.len() - i,
    {
        append(&mut string, " ");
        let v = printer.print_expr(exprs[i], floats);
        append(&mut string, v.as_str());
        assert(es.subrange(0, i + 1).drop_last() =~= es.subrange(0, i as int));
        i = i + 1;
    }
    assert(es.subrange(0, exprs@.len() as int) =~= es);
    append(&mut string, ")");
    string
}

/// The printed form puts the operator first and the operands after it in
/// their order: `left op right` prints as `(op left right)`, `op right` as
/// `(op right)` and a grouping as `(group inner)`, the number literals in
/// them in decimal with their sign.
pub proof fn lemma_printed_prefix<F: Fn(FloatQuery) -> FloatAnswer>(f: F, a: i32, b: i32, op: Token)
    ensures
        ({
            let la = Expr::Literal(Literal { value: crate::token::Literal { value: LiteralKind::Number(a) } });
            let lb = Expr::Literal(Literal { value: crate::token::Literal { value: LiteralKind::Number(b) } });
            &&& printed(f, Expr::Binary(Binary { left: Box::new(la), operator: op, right: Box::new(lb) })) == "("@
                + op.lexeme@ + " "@ + signed_decimal_text(a as int) + " "@ + signed_decimal_text(b as int) + ")"@
            &&& printed(f, Expr::Unary(Unary { operator: op, right: Box::new(lb) })) == "("@ + op.lexeme@ + " "@
                + signed_decimal_text(b as int) + ")"@
            &&& printed(f, Expr::Grouping(Grouping { expression: Box::new(la) })) == "(group "@
                + signed_decimal_text(a as int) + ")"@
        }),
{
    let la = Expr::Literal(Literal { value: crate::token::Literal { value: LiteralKind::Number(a) } });
    let lb = Expr::Literal(Literal { value: crate::token::Literal { value: LiteralKind::Number(b) } });
    assert(printed(f, la) == signed_decimal_text(a as int));
    assert(printed(f, lb) == signed_decimal_text(b as int));
    reveal_strlit("group");
    reveal_strlit("(group ");
    reveal_strlit("(");
    reveal_strlit(" ");
    assert("("@ + "group"@ + " "@ =~= "(group "@);
}

} // verus!
