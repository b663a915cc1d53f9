//! The parser: builds statements and expressions from tokens by recursive
//! descent.
//!
//! Grammar, from the lowest precedence to the highest:
//!
//! ```text
//! program     → declaration* EOF ;
//! declaration → ("let" | "const") IDENTIFIER ( "=" expression )? ";" | statement ;
//! statement   → "print" expression ";" | expression ";" ;
//! expression  → assignment ;
//! assignment  → IDENTIFIER "=" assignment | equality ;
//! equality    → comparison ( ( "!=" | "==" ) comparison )* ;
//! comparison  → term ( ( ">" | ">=" | "<" | "<=" ) term )* ;
//! term        → factor ( ( "-" | "+" ) factor )* ;
//! factor      → unary ( ( "/" | "*" ) unary )? ;
//! unary       → ( "!" | "-" ) unary | primary ;
//! primary     → IDENTIFIER | NUMBER | STRING | "(" expression ")"
//!             | "false" | "true" | "nil" ;
//! ```
//!
//! A missing `;` or `)` is reported and otherwise ignored. A declaration that
//! cannot be parsed is reported, and parsing resumes at the next statement
//! boundary.

use vstd::prelude::*;

use crate::ast::expr::{Assign, Binary, Expr, Grouping, Literal, Unary, Variable};
use crate::ast::stmt::{Const, Expression, Let, Print, Stmt};
use crate::errors::{line_error_text, token_error_text, ErrorCode, Reporter};
use crate::token;
use crate::token::{LiteralKind, LiteralView, Token, TokenKind};

verus! {

/// What a parsing function found: a node, nothing (after reporting), or a
/// failure that ends the program.
pub enum Parsed<T> {
    Node(T),
    Nothing,
    Abort,
}

/// A remark the parser reports.
pub enum ParseDiagnostic {
    /// `Expect expression.`, at the token where one was expected.
    ExpectExpression(Token),
    /// `Expect ')' after expression.`, at the token found instead.
    ExpectRightParen(Token),
    /// `Expect ';' after expression.`, at the token found instead.
    ExpectSemicolon(Token),
    /// `Invalid assignment target.`, at the `=`.
    InvalidAssignmentTarget(Token),
    /// `Parser error`, with the token position where parsing resumed.
    ParserError(usize),
}

/// The outcome of a parsing function: what it found, the position after
/// what it read, and what it reported.
pub struct Parse<T> {
    pub out: Parsed<T>,
    pub pos: int,
    pub diags: Seq<ParseDiagnostic>,
}

/// Whether the parser is past the last token or at an end-of-text token.
pub open spec fn at_end(toks: Seq<Token>, p: int) -> bool {
    !(0 <= p < toks.len()) || toks[p].kind == TokenKind::Eof
}

/// Whether the token at `p` is of kind `k` (never at the end).
pub open spec fn check(toks: Seq<Token>, p: int, k: TokenKind) -> bool {
    !at_end(toks, p) && toks[p].kind == k
}

/// Whether the token at `p` is of one of the kinds.
pub open spec fn check_any(toks: Seq<Token>, p: int, ks: Seq<TokenKind>) -> bool {
    exists|i: int| 0 <= i < ks.len() && check(toks, p, #[trigger] ks[i])
}

/// A report about the token at `p`, if there is a token there.
pub open spec fn report_at(
    toks: Seq<Token>,
    p: int,
    mk: spec_fn(Token) -> ParseDiagnostic,
) -> Seq<ParseDiagnostic> {
    if 0 <= p < toks.len() {
        seq![mk(toks[p])]
    } else {
        Seq::empty()
    }
}

/// The outcome `r` with reports `d` put before its own.
pub open spec fn after<T>(d: Seq<ParseDiagnostic>, r: Parse<T>) -> Parse<T> {
    Parse { out: r.out, pos: r.pos, diags: d + r.diags }
}

/// The node of an outcome, if any.
pub open spec fn node_of(o: Parsed<Expr>) -> Option<Expr> {
    match o {
        Parsed::Node(x) => Some(x),
        _ => None,
    }
}

/// The binary expression `left op right`.
pub open spec fn binary(left: Expr, op: Token, right: Expr) -> Expr {
    Expr::Binary(Binary { left: Box::new(left), operator: op, right: Box::new(right) })
}

/// The nil literal expression.
pub open spec fn nil_literal() -> Expr {
    Expr::Literal(Literal { value: token::Literal { value: LiteralKind::Nil } })
}

/// `expression → assignment`.
pub open spec fn p_expression(toks: Seq<Token>, p: int) -> Parse<Expr>
    decreases toks.len() - p, 20int,
{
    p_assignment(toks, p)
}

/// `assignment → IDENTIFIER "=" assignment | equality`. A `=` after anything
/// but a variable is reported, and the value after it is read and dropped.
pub open spec fn p_assignment(toks: Seq<Token>, p: int) -> Parse<Expr>
    decreases toks.len() - p, 19int,
{
    let e = p_equality(toks, p);
    match e.out {
        Parsed::Node(x) => if e.pos >= p && check(toks, e.pos, TokenKind::Equal) {
            let equals = toks[e.pos];
            let v = p_assignment(toks, e.pos + 1);
            match v.out {
                Parsed::Node(val) => match x {
                    Expr::Variable(var) => Parse {
                        out: Parsed::Node(Expr::Assign(Assign { name: var.name, value: Box::new(val) })),
                        pos: v.pos,
                        diags: e.diags + v.diags,
                    },
                    _ => Parse {
                        out: Parsed::Node(x),
                        pos: v.pos,
                        diags: e.diags + v.diags + seq![ParseDiagnostic::InvalidAssignmentTarget(equals)],
                    },
                },
                _ => after(e.diags, v),
            }
        } else {
            e
        },
        _ => e,
    }
}

/// `equality → comparison ( ( "!=" | "==" ) comparison )*`. When the first
/// comparison is missing and another one follows a `!=` or `==`, the program
/// fails.
pub open spec fn p_equality(toks: Seq<Token>, p: int) -> Parse<Expr>
    decreases toks.len() - p, 18int,
{
    let c = p_comparison(toks, p);
    if c.out is Abort || c.pos < p || c.pos > toks.len() {
        c
    } else {
        after(c.diags, p_equality_rest(toks, c.pos, node_of(c.out)))
    }
}

/// The `( ( "!=" | "==" ) comparison )*` part of an equality, after `left`.
pub open spec fn p_equality_rest(toks: Seq<Token>, p: int, left: Option<Expr>) -> Parse<Expr>
    decreases toks.len() - p, 17int,
{
    if check_equality(toks, p) {
        let op = toks[p];
        let r = p_comparison(toks, p + 1);
        match r.out {
            Parsed::Node(y) => match left {
                None => Parse { out: Parsed::Abort, pos: r.pos, diags: r.diags },
                Some(x) => if p < r.pos <= toks.len() {
                    after(r.diags, p_equality_rest(toks, r.pos, Some(binary(x, op, y))))
                } else {
                    r
                },
            },
            _ => r,
        }
    } else {
        Parse {
            out: match left {
                Some(x) => Parsed::Node(x),
                None => Parsed::Nothing,
            },
            pos: p,
            diags: Seq::empty(),
        }
    }
}

/// Whether the token at `p` is an equality operator.
pub open spec fn check_equality(toks: Seq<Token>, p: int) -> bool {
    check(toks, p, TokenKind::BangEqual) || check(toks, p, TokenKind::EqualEqual)
}

/// Whether the token at `p` is a comparison operator.
pub open spec fn check_comparison(toks: Seq<Token>, p: int) -> bool {
    check(toks, p, TokenKind::Greater) || check(toks, p, TokenKind::GreaterEqual)
        || check(toks, p, TokenKind::Less) || check(toks, p, TokenKind::LessEqual)
}

/// `comparison → term ( ( ">" | ">=" | "<" | "<=" ) term )*`.
pub open spec fn p_comparison(toks: Seq<Token>, p: int) -> Parse<Expr>
    decreases toks.len() - p, 16int,
{
    let t = p_term(toks, p);
    match t.out {
        Parsed::Node(x) => if p <= t.pos <= toks.len() {
            after(t.diags, p_comparison_rest(toks, t.pos, x))
        } else {
            t
        },
        _ => t,
    }
}

/// The operators and terms of a comparison, after `left`.
pub open spec fn p_comparison_rest(toks: Seq<Token>, p: int, left: Expr) -> Parse<Expr>
    decreases toks.len() - p, 15int,
{
    if check_comparison(toks, p) {
        let op = toks[p];
        let r = p_term(toks, p + 1);
        match r.out {
            Parsed::Node(y) => if p < r.pos <= toks.len() {
                after(r.diags, p_comparison_rest(toks, r.pos, binary(left, op, y)))
            } else {
                r
            },
            _ => r,
        }
    } else {
        Parse { out: Parsed::Node(left), pos: p, diags: Seq::empty() }
    }
}

/// Whether the token at `p` is an additive operator.
pub open spec fn check_term_op(toks: Seq<Token>, p: int) -> bool {
    check(toks, p, TokenKind::Minus) || check(toks, p, TokenKind::Plus)
}

/// `term → factor ( ( "-" | "+" ) factor )*`.
pub open spec fn p_term(toks: Seq<Token>, p: int) -> Parse<Expr>
    decreases toks.len() - p, 14int,
{
    let t = p_factor(toks, p);
    match t.out {
        Parsed::Node(x) => if p <= t.pos <= toks.len() {
            after(t.diags, p_term_rest(toks, t.pos, x))
        } else {
            t
        },
        _ => t,
    }
}

/// The operators and factors of a term, after `left`.
pub open spec fn p_term_rest(toks: Seq<Token>, p: int, left: Expr) -> Parse<Expr>
    decreases toks.len() - p, 13int,
{
    if check_term_op(toks, p) {
        let op = toks[p];
        let r = p_factor(toks, p + 1);
        match r.out {
            Parsed::Node(y) => if p < r.pos <= toks.len() {
                after(r.diags, p_term_rest(toks, r.pos, binary(left, op, y)))
            } else {
                r
            },
            _ => r,
        }
    } else {
        Parse { out: Parsed::Node(left), pos: p, diags: Seq::empty() }
    }
}

/// Whether the token at `p` is a multiplicative operator.
pub open spec fn check_factor_op(toks: Seq<Token>, p: int) -> bool {
    check(toks, p, TokenKind::Slash) || check(toks, p, TokenKind::Star)
}

/// `factor → unary ( ( "/" | "*" ) unary )?`: at most one operator.
pub open spec fn p_factor(toks: Seq<Token>, p: int) -> Parse<Expr>
    decreases toks.len() - p, 12int,
{
    let u = p_unary(toks, p);
    match u.out {
        Parsed::Node(x) => if u.pos >= p && check_factor_op(toks, u.pos) {
            let op = toks[u.pos];
            let r = p_unary(toks, u.pos + 1);
            match r.out {
                Parsed::Node(y) => Parse { out: Parsed::Node(binary(x, op, y)), pos: r.pos, diags: u.diags + r.diags },
                _ => after(u.diags, r),
            }
        } else {
            u
        },
        _ => u,
    }
}

/// Whether the token at `p` is a prefix operator.
pub open spec fn check_unary_op(toks: Seq<Token>, p: int) -> bool {
    check(toks, p, TokenKind::Bang) || check(toks, p, TokenKind::Minus)
}

/// `unary → ( "!" | "-" ) unary | primary`.
pub open spec fn p_unary(toks: Seq<Token>, p: int) -> Parse<Expr>
    decreases toks.len() - p, 11int,
{
    if check_unary_op(toks, p) {
        let op = toks[p];
        let r = p_unary(toks, p + 1);
        match r.out {
            Parsed::Node(y) => Parse {
                out: Parsed::Node(Expr::Unary(Unary { operator: op, right: Box::new(y) })),
                pos: r.pos,
                diags: r.diags,
            },
            _ => r,
        }
    } else {
        p_primary(toks, p)
    }
}

/// `primary → IDENTIFIER | NUMBER | STRING | "(" expression ")" | "false" |
/// "true" | "nil"`. A number or string token without a literal value gives
/// nothing; anything else is reported as a missing expression.
pub open spec fn p_primary(toks: Seq<Token>, p: int) -> Parse<Expr>
    decreases toks.len() - p, 10int,
{
    if check(toks, p, TokenKind::Identifier) {
        Parse { out: Parsed::Node(Expr::Variable(Variable { name: toks[p] })), pos: p + 1, diags: Seq::empty() }
    } else if check(toks, p, TokenKind::Number) || check(toks, p, TokenKind::String) {
        Parse {
            out: match toks[p].literal {
                Some(l) => Parsed::Node(Expr::Literal(Literal { value: l })),
                None => Parsed::Nothing,
            },
            pos: p + 1,
            diags: Seq::empty(),
        }
    } else if check(toks, p, TokenKind::LeftParen) {
        let inner = p_expression(toks, p + 1);
        match inner.out {
            Parsed::Node(x) => if check(toks, inner.pos, TokenKind::RightParen) {
                Parse {
                    out: Parsed::Node(Expr::Grouping(Grouping { expression: Box::new(x) })),
                    pos: inner.pos + 1,
                    diags: inner.diags,
                }
            } else {
                Parse {
                    out: Parsed::Node(Expr::Grouping(Grouping { expression: Box::new(x) })),
                    pos: inner.pos,
                    diags: inner.diags + report_at(toks, inner.pos, |t: Token| ParseDiagnostic::ExpectRightParen(t)),
                }
            },
            _ => inner,
        }
    } else if check(toks, p, TokenKind::False) {
        Parse {
            out: Parsed::Node(Expr::Literal(Literal { value: token::Literal { value: LiteralKind::Bool(false) } })),
            pos: p + 1,
            diags: Seq::empty(),
        }
    } else if check(toks, p, TokenKind::True) {
        Parse {
            out: Parsed::Node(Expr::Literal(Literal { value: token::Literal { value: LiteralKind::Bool(true) } })),
            pos: p + 1,
            diags: Seq::empty(),
        }
    } else if check(toks, p, TokenKind::Nil) {
        Parse { out: Parsed::Node(nil_literal()), pos: p + 1, diags: Seq::empty() }
    } else {
        Parse {
            out: Parsed::Nothing,
            pos: p,
            diags: report_at(toks, p, |t: Token| ParseDiagnostic::ExpectExpression(t)),
        }
    }
}

/// A one-token expression reads as what the token says and takes that one
/// token, with no report: `true` is the boolean true, `false` the boolean
/// false and `nil` nil; a number or a string is the literal it carries; an
/// identifier is the variable it names.
pub proof fn lemma_primary_token(toks: Seq<Token>, p: int)
    requires
        0 <= p < toks.len(),
    ensures
        toks[p].kind == TokenKind::True ==> p_primary(toks, p).pos == p + 1 && p_primary(toks, p).diags.len() == 0
            && (p_primary(toks, p).out matches Parsed::Node(Expr::Literal(l)) && l.value@ == LiteralView::Bool(true)),
        toks[p].kind == TokenKind::False ==> p_primary(toks, p).pos == p + 1 && p_primary(toks, p).diags.len() == 0
            && (p_primary(toks, p).out matches Parsed::Node(Expr::Literal(l)) && l.value@ == LiteralView::Bool(false)),
        toks[p].kind == TokenKind::Nil ==> p_primary(toks, p).pos == p + 1 && p_primary(toks, p).diags.len() == 0
            && (p_primary(toks, p).out matches Parsed::Node(Expr::Literal(l)) && l.value@ == LiteralView::Nil),
        (toks[p].kind == TokenKind::Number || toks[p].kind == TokenKind::String) && toks[p].literal is Some
            ==> p_primary(toks, p).pos == p + 1 && p_primary(toks, p).diags.len() == 0 && (p_primary(
            toks,
            p,
        ).out matches Parsed::Node(Expr::Literal(l)) && l.value@ == toks[p].literal.unwrap()@),
        toks[p].kind == TokenKind::Identifier ==> p_primary(toks, p).pos == p + 1 && p_primary(toks, p).diags.len()
            == 0 && (p_primary(toks, p).out matches Parsed::Node(Expr::Variable(v)) && v.name == toks[p]),
{
    reveal_with_fuel(p_primary, 1);
}

/// Whether a kind is that of a binary operator.
pub open spec fn is_binary_operator(k: TokenKind) -> bool {
    match k {
        TokenKind::Plus | TokenKind::Minus | TokenKind::Star | TokenKind::Slash | TokenKind::Greater
        | TokenKind::GreaterEqual | TokenKind::Less | TokenKind::LessEqual | TokenKind::EqualEqual
        | TokenKind::BangEqual => true,
        _ => false,
    }
}

/// A binary operator between two number literals, before the end of the
/// text, reads as that operator applied to the left literal and the right
/// one, in that order, taking all three tokens with no report.
pub proof fn lemma_binary_of_literals(toks: Seq<Token>)
    requires
        toks.len() >= 4,
        toks[0].kind == TokenKind::Number && toks[0].literal is Some,
        is_binary_operator(toks[1].kind),
        toks[2].kind == TokenKind::Number && toks[2].literal is Some,
        toks[3].kind == TokenKind::Eof,
    ensures
        p_expression(toks, 0) == (Parse {
            out: Parsed::Node(
                Expr::Binary(
                    Binary {
                        left: Box::new(Expr::Literal(Literal { value: toks[0].literal.unwrap() })),
                        operator: toks[1],
                        right: Box::new(Expr::Literal(Literal { value: toks[2].literal.unwrap() })),
                    },
                ),
            ),
            pos: 3,
            diags: Seq::<ParseDiagnostic>::empty(),
        }),
{
    let e0 = Seq::<ParseDiagnostic>::empty();
    let l0 = Expr::Literal(Literal { value: toks[0].literal.unwrap() });
    let l2 = Expr::Literal(Literal { value: toks[2].literal.unwrap() });
    let op = toks[1];
    let b = binary(l0, op, l2);
    assert(e0 + e0 =~= e0);
    // The operands.
    lemma_unary_literal(toks, 0);
    lemma_unary_literal(toks, 2);
    assert(p_unary(toks, 0) == Parse { out: Parsed::Node(l0), pos: 1, diags: e0 });
    assert(p_unary(toks, 2) == Parse { out: Parsed::Node(l2), pos: 3, diags: e0 });
    lemma_factor(toks, 0);
    lemma_factor(toks, 2);
    lemma_factor_literal(toks, 2, l2);
    assert(p_factor(toks, 2) == Parse { out: Parsed::Node(l2), pos: 3, diags: e0 });
    lemma_term(toks, 2);
    lemma_term_unfold(toks, 2);
    lemma_term_rest_unfold(toks, 3, l2);
    assert(p_term(toks, 2) == Parse { out: Parsed::Node(l2), pos: 3, diags: e0 });
    lemma_comparison(toks, 2);
    lemma_comparison_unfold(toks, 2);
    lemma_comparison_rest_unfold(toks, 3, l2);
    assert(p_comparison(toks, 2) == Parse { out: Parsed::Node(l2), pos: 3, diags: e0 });
    // The left side, up to the operator's level.
    let fop = check_factor_op(toks, 1);
    let top = check_term_op(toks, 1);
    let cop = check_comparison(toks, 1);
    lemma_factor_literal(toks, 0, l0);
    lemma_term(toks, 0);
    lemma_term_unfold(toks, 0);
    if fop {
        assert(p_factor(toks, 0) == Parse { out: Parsed::Node(b), pos: 3, diags: e0 });
        lemma_term_rest_unfold(toks, 3, b);
        assert(p_term(toks, 0) == Parse { out: Parsed::Node(b), pos: 3, diags: e0 });
    } else {
        assert(p_factor(toks, 0) == Parse { out: Parsed::Node(l0), pos: 1, diags: e0 });
        lemma_term_rest_unfold(toks, 1, l0);
        if top {
            lemma_term_rest_unfold(toks, 3, b);
            assert(p_term(toks, 0) == Parse { out: Parsed::Node(b), pos: 3, diags: e0 });
        } else {
            assert(p_term(toks, 0) == Parse { out: Parsed::Node(l0), pos: 1, diags: e0 });
        }
    }
    lemma_comparison(toks, 0);
    lemma_comparison_unfold(toks, 0);
    if fop || top {
        lemma_comparison_rest_unfold(toks, 3, b);
        assert(p_comparison(toks, 0) == Parse { out: Parsed::Node(b), pos: 3, diags: e0 });
    } else {
        lemma_comparison_rest_unfold(toks, 1, l0);
        if cop {
            lemma_comparison_rest_unfold(toks, 3, b);
            assert(p_comparison(toks, 0) == Parse { out: Parsed::Node(b), pos: 3, diags: e0 });
        } else {
            assert(p_comparison(toks, 0) == Parse { out: Parsed::Node(l0), pos: 1, diags: e0 });
        }
    }
    lemma_equality(toks, 0);
    lemma_equality_unfold(toks, 0);
    if fop || top || cop {
        lemma_equality_rest_unfold(toks, 3, Some(b));
    } else {
        lemma_equality_rest_unfold(toks, 1, Some(l0));
        lemma_equality_rest_unfold(toks, 3, Some(b));
    }
    assert(p_equality(toks, 0) == Parse { out: Parsed::Node(b), pos: 3, diags: e0 });
    lemma_assignment_unfold(toks, 0);
    assert(p_assignment(toks, 0) == Parse { out: Parsed::Node(b), pos: 3, diags: e0 });
    reveal_with_fuel(p_expression, 1);
}

/// A literal token that no prefix operator comes before is a unary
/// expression of its own.
proof fn lemma_unary_literal(toks: Seq<Token>, p: int)
    requires
        0 <= p < toks.len(),
        toks[p].kind == TokenKind::Number && toks[p].literal is Some,
    ensures
        p_unary(toks, p) == (Parse {
            out: Parsed::Node(Expr::Literal(Literal { value: toks[p].literal.unwrap() })),
            pos: p + 1,
            diags: Seq::<ParseDiagnostic>::empty(),
        }),
{
    assert(p_unary(toks, p) == p_primary(toks, p)) by {
        reveal_with_fuel(p_unary, 1);
    }
    assert(p_primary(toks, p) == (Parse {
        out: Parsed::Node(Expr::Literal(Literal { value: toks[p].literal.unwrap() })),
        pos: p + 1,
        diags: Seq::<ParseDiagnostic>::empty(),
    })) by {
        reveal_with_fuel(p_primary, 1);
    }
}

/// A factor that starts with a unary expression `x` ending at `p + 1`: `x`
/// alone when no `/` or `*` follows, `x op y` when one does.
proof fn lemma_factor_literal(toks: Seq<Token>, p: int, x: Expr)
    requires
        0 <= p,
        p + 1 < toks.len(),
        p_unary(toks, p) == (Parse { out: Parsed::Node(x), pos: p + 1, diags: Seq::<ParseDiagnostic>::empty() }),
        check_factor_op(toks, p + 1) ==> p + 2 < toks.len() && p_unary(toks, p + 2).out is Node
            && p_unary(toks, p + 2).diags.len() == 0,
    ensures
        !check_factor_op(toks, p + 1) ==> p_factor(toks, p) == p_unary(toks, p),
        check_factor_op(toks, p + 1) ==> p_factor(toks, p) == (Parse {
            out: Parsed::Node(binary(x, toks[p + 1], p_unary(toks, p + 2).out->Node_0)),
            pos: p_unary(toks, p + 2).pos,
            diags: Seq::<ParseDiagnostic>::empty(),
        }),
{
    reveal_with_fuel(p_factor, 1);
    if check_factor_op(toks, p + 1) {
        assert(Seq::<ParseDiagnostic>::empty() + p_unary(toks, p + 2).diags =~= Seq::<ParseDiagnostic>::empty());
    }
}

/// Positions move forward and stay within the tokens, and a parsed
/// expression consumed at least one token.
pub open spec fn advances<T>(r: Parse<T>, p: int, len: int) -> bool {
    &&& p <= r.pos <= len
    &&& r.out is Node ==> p < r.pos
}

/// The parse of an expression moves forward and stays within the tokens,
/// and an expression it finds spans at least one token.
pub proof fn lemma_expression(toks: Seq<Token>, p: int)
    requires
        0 <= p <= toks.len(),
    ensures
        advances(p_expression(toks, p), p, toks.len() as int),
    decreases toks.len() - p, 20int,
{
    lemma_assignment(toks, p);
    lemma_expression_step(toks, p);
}

proof fn lemma_expression_step(toks: Seq<Token>, p: int)
    requires
        advances(p_assignment(toks, p), p, toks.len() as int),
    ensures
        advances(p_expression(toks, p), p, toks.len() as int),
{
    reveal_with_fuel(p_expression, 1);
}

proof fn lemma_assignment(toks: Seq<Token>, p: int)
    requires
        0 <= p <= toks.len(),
    ensures
        advances(p_assignment(toks, p), p, toks.len() as int),
    decreases toks.len() - p, 19int,
{
    lemma_equality(toks, p);
    let e = p_equality(toks, p);
    if e.out is Node && check(toks, e.pos, TokenKind::Equal) {
        lemma_assignment(toks, e.pos + 1);
    }
    lemma_assignment_step(toks, p);
}

proof fn lemma_assignment_step(toks: Seq<Token>, p: int)
    requires
        advances(p_equality(toks, p), p, toks.len() as int),
        p_equality(toks, p).out is Node && check(toks, p_equality(toks, p).pos, TokenKind::Equal)
            ==> advances(
            p_assignment(toks, p_equality(toks, p).pos + 1),
            p_equality(toks, p).pos + 1,
            toks.len() as int,
        ),
    ensures
        advances(p_assignment(toks, p), p, toks.len() as int),
{
    reveal_with_fuel(p_assignment, 1);
}

proof fn lemma_equality(toks: Seq<Token>, p: int)
    requires
        0 <= p <= toks.len(),
    ensures
        advances(p_equality(toks, p), p, toks.len() as int),
    decreases toks.len() - p, 18int,
{
    lemma_comparison(toks, p);
    let c = p_comparison(toks, p);
    if !(c.out is Abort) {
        lemma_equality_rest(toks, c.pos, node_of(c.out));
    }
    lemma_equality_step(toks, p);
}

proof fn lemma_equality_step(toks: Seq<Token>, p: int)
    requires
        advances(p_comparison(toks, p), p, toks.len() as int),
        ({
            let c = p_comparison(toks, p);
            let rest = p_equality_rest(toks, c.pos, node_of(c.out));
            !(c.out is Abort) ==> c.pos <= rest.pos <= toks.len() && (node_of(c.out) is None ==> !(rest.out is Node))
        }),
    ensures
        advances(p_equality(toks, p), p, toks.len() as int),
{
    reveal_with_fuel(p_equality, 1);
}

proof fn lemma_equality_rest(toks: Seq<Token>, p: int, left: Option<Expr>)
    requires
        0 <= p <= toks.len(),
    ensures
        p <= p_equality_rest(toks, p, left).pos <= toks.len(),
        left is None ==> !(p_equality_rest(toks, p, left).out is Node),
    decreases toks.len() - p, 17int,
{
    if check_equality(toks, p) {
        lemma_comparison(toks, p + 1);
        let r = p_comparison(toks, p + 1);
        if let Parsed::Node(y) = r.out {
            if let Some(x) = left {
                lemma_equality_rest(toks, r.pos, Some(binary(x, toks[p], y)));
            }
        }
    }
    lemma_equality_rest_unfold(toks, p, left);
}

proof fn lemma_comparison(toks: Seq<Token>, p: int)
    requires
        0 <= p <= toks.len(),
    ensures
        advances(p_comparison(toks, p), p, toks.len() as int),
    decreases toks.len() - p, 16int,
{
    lemma_term(toks, p);
    let t = p_term(toks, p);
    if let Parsed::Node(x) = t.out {
        lemma_comparison_rest(toks, t.pos, x);
    }
    lemma_comparison_unfold(toks, p);
}

proof fn lemma_comparison_rest(toks: Seq<Token>, p: int, left: Expr)
    requires
        0 <= p <= toks.len(),
    ensures
        p <= p_comparison_rest(toks, p, left).pos <= toks.len(),
    decreases toks.len() - p, 15int,
{
    if check_comparison(toks, p) {
        lemma_term(toks, p + 1);
        let r = p_term(toks, p + 1);
        if let Parsed::Node(y) = r.out {
            lemma_comparison_rest(toks, r.pos, binary(left, toks[p], y));
        }
    }
    lemma_comparison_rest_unfold(toks, p, left);
}

proof fn lemma_term(toks: Seq<Token>, p: int)
    requires
        0 <= p <= toks.len(),
    ensures
        advances(p_term(toks, p), p, toks.len() as int),
    decreases toks.len() - p, 14int,
{
    lemma_factor(toks, p);
    let t = p_factor(toks, p);
    if let Parsed::Node(x) = t.out {
        lemma_term_rest(toks, t.pos, x);
    }
    lemma_term_unfold(toks, p);
}

proof fn lemma_term_rest(toks: Seq<Token>, p: int, left: Expr)
    requires
        0 <= p <= toks.len(),
    ensures
        p <= p_term_rest(toks, p, left).pos <= toks.len(),
    decreases toks.len() - p, 13int,
{
    if check_term_op(toks, p) {
        lemma_factor(toks, p + 1);
        let r = p_factor(toks, p + 1);
        if let Parsed::Node(y) = r.out {
            lemma_term_rest(toks, r.pos, binary(left, toks[p], y));
        }
    }
    lemma_term_rest_unfold(toks, p, left);
}

proof fn lemma_factor(toks: Seq<Token>, p: int)
    requires
        0 <= p <= toks.len(),
    ensures
        advances(p_factor(toks, p), p, toks.len() as int),
    decreases toks.len() - p, 12int,
{
    lemma_unary(toks, p);
    let u = p_unary(toks, p);
    if u.out is Node && check_factor_op(toks, u.pos) {
        lemma_unary(toks, u.pos + 1);
    }
    lemma_factor_step(toks, p);
}

proof fn lemma_factor_step(toks: Seq<Token>, p: int)
    requires
        advances(p_unary(toks, p), p, toks.len() as int),
        p_unary(toks, p).out is Node && check_factor_op(toks, p_unary(toks, p).pos) ==> advances(
            p_unary(toks, p_unary(toks, p).pos + 1),
            p_unary(toks, p).pos + 1,
            toks.len() as int,
        ),
    ensures
        advances(p_factor(toks, p), p, toks.len() as int),
{
    reveal_with_fuel(p_factor, 1);
}

proof fn lemma_unary(toks: Seq<Token>, p: int)
    requires
        0 <= p <= toks.len(),
    ensures
        advances(p_unary(toks, p), p, toks.len() as int),
    decreases toks.len() - p, 11int,
{
    if check_unary_op(toks, p) {
        lemma_unary(toks, p + 1);
    } else {
        lemma_primary(toks, p);
    }
    lemma_unary_step(toks, p);
}

proof fn lemma_unary_step(toks: Seq<Token>, p: int)
    requires
        0 <= p <= toks.len(),
        check_unary_op(toks, p) ==> advances(p_unary(toks, p + 1), p + 1, toks.len() as int),
        !check_unary_op(toks, p) ==> advances(p_primary(toks, p), p, toks.len() as int),
    ensures
        advances(p_unary(toks, p), p, toks.len() as int),
{
    reveal_with_fuel(p_unary, 1);
}

proof fn lemma_primary(toks: Seq<Token>, p: int)
    requires
        0 <= p <= toks.len(),
    ensures
        advances(p_primary(toks, p), p, toks.len() as int),
    decreases toks.len() - p, 10int,
{
    if check(toks, p, TokenKind::LeftParen) {
        lemma_expression(toks, p + 1);
    }
    lemma_primary_step(toks, p);
}

proof fn lemma_primary_step(toks: Seq<Token>, p: int)
    requires
        0 <= p <= toks.len(),
        check(toks, p, TokenKind::LeftParen) ==> advances(p_expression(toks, p + 1), p + 1, toks.len() as int),
    ensures
        advances(p_primary(toks, p), p, toks.len() as int),
{
    reveal_with_fuel(p_primary, 1);
}

/// Reports `a` then `b` put before an outcome are `a + b` put before it.
proof fn lemma_after_after<T>(a: Seq<ParseDiagnostic>, b: Seq<ParseDiagnostic>, r: Parse<T>)
    ensures
        after(a, after(b, r)) == after(a + b, r),
{
    assert((a + b) + r.diags =~= a + (b + r.diags));
}

/// One step of `p_assignment`.
proof fn lemma_assignment_unfold(toks: Seq<Token>, p: int)
    requires
        0 <= p <= toks.len(),
        advances(p_equality(toks, p), p, toks.len() as int),
    ensures
        ({
            let e = p_equality(toks, p);
            &&& !(e.out is Node) ==> p_assignment(toks, p) == e
            &&& e.out is Node && !check(toks, e.pos, TokenKind::Equal) ==> p_assignment(toks, p) == e
            &&& e.out is Node && check(toks, e.pos, TokenKind::Equal) ==> p_assignment(toks, p) == ({
                let v = p_assignment(toks, e.pos + 1);
                match v.out {
                    Parsed::Node(val) => match e.out->Node_0 {
                        Expr::Variable(var) => Parse {
                            out: Parsed::Node(Expr::Assign(Assign { name: var.name, value: Box::new(val) })),
                            pos: v.pos,
                            diags: e.diags + v.diags,
                        },
                        _ => Parse {
                            out: Parsed::Node(e.out->Node_0),
                            pos: v.pos,
                            diags: e.diags + v.diags + seq![ParseDiagnostic::InvalidAssignmentTarget(toks[e.pos])],
                        },
                    },
                    _ => after(e.diags, v),
                }
            })
        }),
{
    reveal_with_fuel(p_assignment, 1);
}

/// One step of `p_equality`.
proof fn lemma_equality_unfold(toks: Seq<Token>, p: int)
    requires
        0 <= p <= toks.len(),
        advances(p_comparison(toks, p), p, toks.len() as int),
    ensures
        ({
            let c = p_comparison(toks, p);
            p_equality(toks, p) == if c.out is Abort {
                c
            } else {
                after(c.diags, p_equality_rest(toks, c.pos, node_of(c.out)))
            }
        }),
{
    reveal_with_fuel(p_equality, 1);
}

/// One step of `p_equality_rest`.
proof fn lemma_equality_rest_unfold(toks: Seq<Token>, q: int, left: Option<Expr>)
    requires
        0 <= q <= toks.len(),
        check_equality(toks, q) ==> advances(p_comparison(toks, q + 1), q + 1, toks.len() as int),
    ensures
        !check_equality(toks, q) ==> p_equality_rest(toks, q, left) == (Parse {
            out: match left {
                Some(x) => Parsed::Node(x),
                None => Parsed::Nothing,
            },
            pos: q,
            diags: Seq::<ParseDiagnostic>::empty(),
        }),
        check_equality(toks, q) ==> p_equality_rest(toks, q, left) == ({
            let r = p_comparison(toks, q + 1);
            match r.out {
                Parsed::Node(y) => match left {
                    None => Parse { out: Parsed::Abort, pos: r.pos, diags: r.diags },
                    Some(x) => after(r.diags, p_equality_rest(toks, r.pos, Some(binary(x, toks[q], y)))),
                },
                _ => r,
            }
        }),
{
    reveal_with_fuel(p_equality_rest, 1);
}

/// One step of `p_comparison`.
proof fn lemma_comparison_unfold(toks: Seq<Token>, p: int)
    requires
        0 <= p <= toks.len(),
        advances(p_term(toks, p), p, toks.len() as int),
    ensures
        ({
            let t = p_term(toks, p);
            p_comparison(toks, p) == match t.out {
                Parsed::Node(x) => after(t.diags, p_comparison_rest(toks, t.pos, x)),
                _ => t,
            }
        }),
{
    reveal_with_fuel(p_comparison, 1);
}

/// One step of `p_comparison_rest`.
proof fn lemma_comparison_rest_unfold(toks: Seq<Token>, q: int, left: Expr)
    requires
        0 <= q <= toks.len(),
        check_comparison(toks, q) ==> advances(p_term(toks, q + 1), q + 1, toks.len() as int),
    ensures
        !check_comparison(toks, q) ==> p_comparison_rest(toks, q, left) == (Parse {
            out: Parsed::Node(left),
            pos: q,
            diags: Seq::<ParseDiagnostic>::empty(),
        }),
        check_comparison(toks, q) ==> p_comparison_rest(toks, q, left) == ({
            let r = p_term(toks, q + 1);
            match r.out {
                Parsed::Node(y) => after(r.diags, p_comparison_rest(toks, r.pos, binary(left, toks[q], y))),
                _ => r,
            }
        }),
{
    reveal_with_fuel(p_comparison_rest, 1);
}

/// One step of `p_term`.
proof fn lemma_term_unfold(toks: Seq<Token>, p: int)
    requires
        0 <= p <= toks.len(),
        advances(p_factor(toks, p), p, toks.len() as int),
    ensures
        ({
            let t = p_factor(toks, p);
            p_term(toks, p) == match t.out {
                Parsed::Node(x) => after(t.diags, p_term_rest(toks, t.pos, x)),
                _ => t,
            }
        }),
{
    reveal_with_fuel(p_term, 1);
}

/// One step of `p_term_rest`.
proof fn lemma_term_rest_unfold(toks: Seq<Token>, q: int, left: Expr)
    requires
        0 <= q <= toks.len(),
        check_term_op(toks, q) ==> advances(p_factor(toks, q + 1), q + 1, toks.len() as int),
    ensures
        !check_term_op(toks, q) ==> p_term_rest(toks, q, left) == (Parse {
            out: Parsed::Node(left),
            pos: q,
            diags: Seq::<ParseDiagnostic>::empty(),
        }),
        check_term_op(toks, q) ==> p_term_rest(toks, q, left) == ({
            let r = p_factor(toks, q + 1);
            match r.out {
                Parsed::Node(y) => after(r.diags, p_term_rest(toks, r.pos, binary(left, toks[q], y))),
                _ => r,
            }
        }),
{
    reveal_with_fuel(p_term_rest, 1);
}

/// An outcome of an expression parser seen as one of a statement parser,
/// for the outcomes that carry no node.
pub open spec fn no_stmt(r: Parse<Expr>) -> Parse<Stmt> {
    Parse {
        out: match r.out {
            Parsed::Abort => Parsed::Abort,
            _ => Parsed::Nothing,
        },
        pos: r.pos,
        diags: r.diags,
    }
}

/// The `;` that ends a statement: consumed if present, else reported at the
/// token found instead.
pub open spec fn p_terminal(toks: Seq<Token>, p: int) -> (int, Seq<ParseDiagnostic>) {
    if check(toks, p, TokenKind::SemiColon) {
        (p + 1, Seq::empty())
    } else {
        (p, report_at(toks, p, |t: Token| ParseDiagnostic::ExpectSemicolon(t)))
    }
}

/// `"print" expression ";"`, after the `print`.
pub open spec fn p_print_statement(toks: Seq<Token>, p: int) -> Parse<Stmt> {
    let e = p_expression(toks, p);
    match e.out {
        Parsed::Node(x) => {
            let (q, d) = p_terminal(toks, e.pos);
            Parse { out: Parsed::Node(Stmt::Print(Print { expression: x })), pos: q, diags: e.diags + d }
        },
        _ => no_stmt(e),
    }
}

/// `expression ";"`.
pub open spec fn p_expression_statement(toks: Seq<Token>, p: int) -> Parse<Stmt> {
    let e = p_expression(toks, p);
    match e.out {
        Parsed::Node(x) => {
            let (q, d) = p_terminal(toks, e.pos);
            Parse { out: Parsed::Node(Stmt::Expression(Expression { expression: x })), pos: q, diags: e.diags + d }
        },
        _ => no_stmt(e),
    }
}

/// `statement → "print" expression ";" | expression ";"`.
pub open spec fn p_statement(toks: Seq<Token>, p: int) -> Parse<Stmt> {
    if check(toks, p, TokenKind::Print) {
        p_print_statement(toks, p + 1)
    } else {
        p_expression_statement(toks, p)
    }
}

/// A declaration of `name` with an initializer.
pub open spec fn declared(is_const: bool, name: Token, init: Expr) -> Stmt {
    if is_const {
        Stmt::Const(Const { name, initializer: init })
    } else {
        Stmt::Let(Let { name, initializer: init })
    }
}

/// `IDENTIFIER ( "=" expression )? ";"`, after the `let` or `const`; without
/// an initializer the variable is nil.
pub open spec fn p_var_declaration(toks: Seq<Token>, p: int, is_const: bool) -> Parse<Stmt> {
    if !check(toks, p, TokenKind::Identifier) {
        Parse { out: Parsed::Nothing, pos: p, diags: Seq::empty() }
    } else {
        let name = toks[p];
        if check(toks, p + 1, TokenKind::Equal) {
            let e = p_expression(toks, p + 2);
            match e.out {
                Parsed::Node(init) => {
                    let (q, d) = p_terminal(toks, e.pos);
                    Parse { out: Parsed::Node(declared(is_const, name, init)), pos: q, diags: e.diags + d }
                },
                _ => no_stmt(e),
            }
        } else {
            let (q, d) = p_terminal(toks, p + 1);
            Parse { out: Parsed::Node(declared(is_const, name, nil_literal())), pos: q, diags: d }
        }
    }
}

/// `declaration → ("let" | "const") IDENTIFIER ( "=" expression )? ";" | statement`.
#[verifier::opaque]
pub open spec fn p_declaration(toks: Seq<Token>, p: int) -> Parse<Stmt> {
    if check(toks, p, TokenKind::Const) {
        p_var_declaration(toks, p + 1, true)
    } else if check(toks, p, TokenKind::Let) {
        p_var_declaration(toks, p + 1, false)
    } else {
        p_statement(toks, p)
    }
}

/// The kinds of token that begin a statement.
pub open spec fn starts_statement(k: TokenKind) -> bool {
    k == TokenKind::Class || k == TokenKind::Fun || k == TokenKind::Let || k == TokenKind::Const
        || k == TokenKind::For || k == TokenKind::If || k == TokenKind::While || k == TokenKind::Print
        || k == TokenKind::Return
}

/// Skips tokens from `q` until just after a `;` or just before a token that
/// begins a statement.
pub open spec fn sync_from(toks: Seq<Token>, q: int) -> int
    decreases toks.len() - q,
{
    if at_end(toks, q) {
        q
    } else if 0 <= q - 1 < toks.len() && toks[q - 1].kind == TokenKind::SemiColon {
        q
    } else if starts_statement(toks[q].kind) {
        q
    } else {
        sync_from(toks, q + 1)
    }
}

/// Where parsing resumes after a declaration that could not be parsed ended
/// at `p`: at least one token on, at a statement boundary.
pub open spec fn p_synchronize(toks: Seq<Token>, p: int) -> int {
    sync_from(toks, if at_end(toks, p) { p } else { p + 1 })
}

/// Parsing declarations from `p` to the end of the tokens. A declaration that
/// gives nothing is followed by a `Parser error` report at the position where
/// parsing resumes.
pub open spec fn parse_from(toks: Seq<Token>, p: int) -> Parse<Seq<Stmt>>
    decreases toks.len() - p,
{
    if at_end(toks, p) {
        Parse { out: Parsed::Node(Seq::empty()), pos: p, diags: Seq::empty() }
    } else {
        let d = p_declaration(toks, p);
        match d.out {
            Parsed::Node(st) => if p < d.pos <= toks.len() {
                let rest = parse_from(toks, d.pos);
                Parse {
                    out: match rest.out {
                        Parsed::Node(ss) => Parsed::Node(seq![st] + ss),
                        Parsed::Nothing => Parsed::Nothing,
                        Parsed::Abort => Parsed::Abort,
                    },
                    pos: rest.pos,
                    diags: d.diags + rest.diags,
                }
            } else {
                Parse { out: Parsed::Abort, pos: d.pos, diags: d.diags }
            },
            Parsed::Nothing => {
                let q = p_synchronize(toks, d.pos);
                if p < q <= toks.len() {
                    let rest = parse_from(toks, q);
                    Parse {
                        out: rest.out,
                        pos: rest.pos,
                        diags: d.diags + seq![ParseDiagnostic::ParserError(q as usize)] + rest.diags,
                    }
                } else {
                    Parse { out: Parsed::Abort, pos: q, diags: d.diags }
                }
            },
            Parsed::Abort => Parse { out: Parsed::Abort, pos: d.pos, diags: d.diags },
        }
    }
}

proof fn lemma_sync_from(toks: Seq<Token>, q: int)
    requires
        0 <= q <= toks.len(),
    ensures
        q <= sync_from(toks, q) <= toks.len(),
    decreases toks.len() - q,
{
    if !at_end(toks, q) && !(0 <= q - 1 < toks.len() && toks[q - 1].kind == TokenKind::SemiColon)
        && !starts_statement(toks[q].kind) {
        lemma_sync_from(toks, q + 1);
    }
}

proof fn lemma_var_declaration(toks: Seq<Token>, p: int, is_const: bool)
    requires
        0 <= p <= toks.len(),
    ensures
        advances(p_var_declaration(toks, p, is_const), p, toks.len() as int),
{
    if check(toks, p, TokenKind::Identifier) && check(toks, p + 1, TokenKind::Equal) {
        lemma_expression(toks, p + 2);
    }
}

proof fn lemma_statement(toks: Seq<Token>, p: int)
    requires
        0 <= p <= toks.len(),
    ensures
        advances(p_statement(toks, p), p, toks.len() as int),
{
    if check(toks, p, TokenKind::Print) {
        lemma_expression(toks, p + 1);
    } else {
        lemma_expression(toks, p);
    }
}

/// A declaration moves forward within the tokens, and a parsed one consumed
/// at least one token; resuming after a failed one moves past where the
/// declaration began.
pub proof fn lemma_declaration(toks: Seq<Token>, p: int)
    requires
        0 <= p <= toks.len(),
    ensures
        advances(p_declaration(toks, p), p, toks.len() as int),
        !at_end(toks, p) && p_declaration(toks, p).out is Nothing ==> p < p_synchronize(
            toks,
            p_declaration(toks, p).pos,
        ) <= toks.len(),
{
    reveal(p_declaration);
    if check(toks, p, TokenKind::Const) {
        lemma_var_declaration(toks, p + 1, true);
    } else if check(toks, p, TokenKind::Let) {
        lemma_var_declaration(toks, p + 1, false);
    } else {
        lemma_statement(toks, p);
    }
    let d = p_declaration(toks, p);
    if at_end(toks, d.pos) {
        lemma_sync_from(toks, d.pos);
    } else {
        lemma_sync_from(toks, d.pos + 1);
    }
}

// ---------------------------------------------------------------------------
// The parser.
// ---------------------------------------------------------------------------

/// Parses a sequence of tokens.
pub struct Parser {
    tokens: Vec<Token>,
    current: usize,
    diagnostics: Vec<ParseDiagnostic>,
}

/// The mathematical content of a [`Parser`]: the tokens, the position of the
/// next token to read, and the remarks reported so far.
pub struct ParserView {
    pub tokens: Seq<Token>,
    pub current: usize,
    pub diagnostics: Seq<ParseDiagnostic>,
}

impl View for Parser {
    type V = ParserView;

    closed spec fn view(&self) -> ParserView {
        ParserView { tokens: self.tokens@, current: self.current, diagnostics: self.diagnostics@ }
    }
}

/// The node of an outcome as an option.
pub open spec fn found<T>(o: Parsed<T>) -> Option<T> {
    match o {
        Parsed::Node(x) => Some(x),
        _ => None,
    }
}

impl Parser {
    /// The parser went from `old` as the outcome `r` says.
    spec fn follows<T>(self, old: Parser, r: Parse<T>) -> bool {
        &&& self.tokens@ == old.tokens@
        &&& self.current == r.pos
        &&& self.diagnostics@ == old.diagnostics@ + r.diags
    }

    spec fn wf(self) -> bool {
        &&& self.current <= self.tokens@.len()
        &&& self.tokens@.len() <= usize::MAX
    }

    /// A parser at the first of the tokens.
    pub fn from_tokens(tokens: &[Token]) -> (r: Parser)
        ensures
            r@ == (ParserView { tokens: tokens@, current: 0, diagnostics: Seq::empty() }),
    {
        let mut v: Vec<Token> = Vec::new();
        let mut i: usize = 0;
        while i < tokens.len()
            invariant
                i <= tokens@.len(),
                v@ == tokens@.subrange(0, i as int),
            decreases tokens.len() - i,
        {
            v.push(tokens[i].clone());
            i = i + 1;
            assert(v@ =~= tokens@.subrange(0, i as int));
        }
        assert(v@ =~= tokens@);
        Parser { tokens: v, current: 0, diagnostics: Vec::new() }
    }

    /// The remarks reported so far.
    pub fn diagnostics(&self) -> (r: &Vec<ParseDiagnostic>)
        ensures
            r@ == self@.diagnostics,
    {
        &self.diagnostics
    }

    /// The position of the next token to read.
    pub fn position(&self) -> (r: usize)
        ensures
            r == self@.current,
    {
        self.current
    }

    /// Whether there is no more token to parse: past the last token or at an
    /// end-of-text token.
    pub fn is_at_end(&self) -> (r: bool)
        ensures
            r == at_end(self@.tokens, self@.current as int),
    {
        match self.peek() {
            Some(token) => token.kind == TokenKind::Eof,
            None => true,
        }
    }

    /// The current token.
    fn peek(&self) -> (r: Option<Token>)
        ensures
            r == (if self.current < self.tokens@.len() {
                Some(self.tokens@[self.current as int])
            } else {
                None::<Token>
            }),
    {
        self.peek_index(self.current)
    }

    /// The token at an index.
    fn peek_index(&self, index: usize) -> (r: Option<Token>)
        ensures
            r == (if index < self.tokens@.len() {
                Some(self.tokens@[index as int])
            } else {
                None::<Token>
            }),
    {
        if index < self.tokens.len() {
            Some(self.tokens[index].clone())
        } else {
            None
        }
    }

    /// The most recently consumed token.
    fn previous(&self) -> (r: Option<Token>)
        requires
            self.current >= 1,
        ensures
            r == (if self.current - 1 < self.tokens@.len() {
                Some(self.tokens@[self.current - 1])
            } else {
                None::<Token>
            }),
    {
        self.peek_index(self.current - 1)
    }

    /// Consumes the current token unless at the end, and returns the most
    /// recently consumed token.
    fn advance(&mut self) -> (r: Option<Token>)
        requires
            old(self).wf(),
            old(self).current >= 1 || !at_end(old(self).tokens@, old(self).current as int),
        ensures
            final(self).wf(),
            final(self).tokens == old(self).tokens,
            final(self).diagnostics == old(self).diagnostics,
            final(self).current == if at_end(old(self).tokens@, old(self).current as int) {
                old(self).current
            } else {
                (old(self).current + 1) as usize
            },
            r == Some(final(self).tokens@[final(self).current - 1]),
    {
        let n = self.tokens.len();
        if !self.is_at_end() {
            self.current = self.current + 1;
        }
        self.previous()
    }

    /// Whether the current token is of the given kind.
    fn check_token(&self, kind: TokenKind) -> (r: bool)
        ensures
            r == check(self.tokens@, self.current as int, kind),
    {
        if self.is_at_end() {
            false
        } else {
            match self.peek() {
                Some(token) => token.kind == kind,
                None => false,
            }
        }
    }

    /// Consumes the current token if it is of one of the kinds; tells
    /// whether it did.
    pub fn match_token(&mut self, kinds: &[TokenKind]) -> (r: bool)
        requires
            old(self)@.current <= old(self)@.tokens.len(),
        ensures
            r == check_any(old(self)@.tokens, old(self)@.current as int, kinds@),
            final(self)@.tokens == old(self)@.tokens,
            final(self)@.diagnostics == old(self)@.diagnostics,
            final(self)@.current == if r {
                (old(self)@.current + 1) as usize
            } else {
                old(self)@.current
            },
    {
        let n = self.tokens.len();
        let mut i: usize = 0;
        while i < kinds.len()
            invariant
                self.tokens == old(self).tokens,
                self.diagnostics == old(self).diagnostics,
                self.current == old(self).current,
                self.wf(),
                i <= kinds@.len(),
                forall|j: int| 0 <= j < i ==> !check(self.tokens@, self.current as int, #[trigger] kinds@[j]),
            decreases kinds.len() - i,
        {
            if self.check_token(kinds[i]) {
                self.advance();
                return true;
            }
            i = i + 1;
        }
        false
    }

    /// Consumes and returns the current token if it is of the kind.
    fn consume(&mut self, kind: TokenKind) -> (r: Option<Token>)
        requires
            old(self).wf(),
        ensures
            final(self).wf(),
            final(self).tokens == old(self).tokens,
            final(self).diagnostics == old(self).diagnostics,
            r == if check(old(self).tokens@, old(self).current as int, kind) {
                Some(old(self).tokens@[old(self).current as int])
            } else {
                None::<Token>
            },
            final(self).current == if r is Some {
                (old(self).current + 1) as usize
            } else {
                old(self).current
            },
    {
        let n = self.tokens.len();
        if self.check_token(kind) {
            self.advance()
        } else {
            None
        }
    }

    /// Records a remark.
    fn error(&mut self, diagnostic: ParseDiagnostic)
        ensures
            final(self).tokens == old(self).tokens,
            final(self).current == old(self).current,
            final(self).diagnostics@ == old(self).diagnostics@ + seq![diagnostic],
    {
        self.diagnostics.push(diagnostic);
        assert(self.diagnostics@ =~= old(self).diagnostics@ + seq![diagnostic]);
    }

    /// Consumes the `;` that ends a statement, or reports its absence.
    fn check_stmt_terminal(&mut self)
        requires
            old(self).wf(),
        ensures
            final(self).wf(),
            final(self).tokens == old(self).tokens,
            final(self).current == p_terminal(old(self).tokens@, old(self).current as int).0,
            final(self).diagnostics@ == old(self).diagnostics@ + p_terminal(old(self).tokens@, old(self).current as int).1,
    {
        if self.consume(TokenKind::SemiColon).is_none() {
            match self.peek() {
                Some(token) => self.error(ParseDiagnostic::ExpectSemicolon(token)),
                None => {
                    assert(self.diagnostics@ =~= old(self).diagnostics@ + Seq::empty());
                },
            }
        } else {
            assert(self.diagnostics@ =~= old(self).diagnostics@ + Seq::empty());
        }
    }
}

/// The parser moved from `old` to `new` as the outcome `r` says.
pub open spec fn moved<T>(new: ParserView, old: ParserView, r: Parse<T>) -> bool {
    &&& new.tokens == old.tokens
    &&& new.current == r.pos
    &&& new.diagnostics == old.diagnostics + r.diags
}

/// Whether the token at `p` is of a kind in `ks`, by membership.
proof fn lemma_check_any(toks: Seq<Token>, p: int, ks: Seq<TokenKind>)
    ensures
        check_any(toks, p, ks) == (!at_end(toks, p) && ks.contains(toks[p].kind)),
{
    if check_any(toks, p, ks) {
        let i = choose|i: int| 0 <= i < ks.len() && check(toks, p, #[trigger] ks[i]);
        assert(ks[i] == toks[p].kind);
    }
    if !at_end(toks, p) && ks.contains(toks[p].kind) {
        let j = choose|j: int| 0 <= j < ks.len() && ks[j] == toks[p].kind;
        assert(check(toks, p, ks[j]));
    }
}

impl Parser {
    /// Consumes the current token if it is of the kind; tells whether it did.
    fn match_kind(&mut self, kind: TokenKind) -> (r: bool)
        requires
            old(self).wf(),
        ensures
            final(self).wf(),
            r == check(old(self).tokens@, old(self).current as int, kind),
            final(self).tokens@ == old(self).tokens@,
            final(self).diagnostics@ == old(self).diagnostics@,
            final(self).current == if r {
                (old(self).current + 1) as usize
            } else {
                old(self).current
            },
    {
        let kinds = [kind];
        proof {
            lemma_check_any(self.tokens@, self.current as int, kinds@);
            assert(kinds@ =~= seq![kind]);
        }
        self.match_token(&kinds)
    }

    /// Consumes the current token if it is of one of two kinds; tells whether
    /// it did.
    fn match_either(&mut self, a: TokenKind, b: TokenKind) -> (r: bool)
        requires
            old(self).wf(),
        ensures
            final(self).wf(),
            r == (check(old(self).tokens@, old(self).current as int, a) || check(
                old(self).tokens@,
                old(self).current as int,
                b,
            )),
            final(self).tokens@ == old(self).tokens@,
            final(self).diagnostics@ == old(self).diagnostics@,
            final(self).current == if r {
                (old(self).current + 1) as usize
            } else {
                old(self).current
            },
    {
        let kinds = [a, b];
        proof {
            lemma_check_any(self.tokens@, self.current as int, kinds@);
            assert(kinds@ =~= seq![a, b]);
            let k = self.tokens@[self.current as int].kind;
            if k == a {
                assert(kinds@[0] == k);
            }
            if k == b {
                assert(kinds@[1] == k);
            }
        }
        self.match_token(&kinds)
    }

    /// Consumes the current token if it is a comparison operator; tells
    /// whether it did.
    fn match_comparison(&mut self) -> (r: bool)
        requires
            old(self).wf(),
        ensures
            final(self).wf(),
            r == check_comparison(old(self).tokens@, old(self).current as int),
            final(self).tokens@ == old(self).tokens@,
            final(self).diagnostics@ == old(self).diagnostics@,
            final(self).current == if r {
                (old(self).current + 1) as usize
            } else {
                old(self).current
            },
    {
        let kinds = [TokenKind::Greater, TokenKind::GreaterEqual, TokenKind::Less, TokenKind::LessEqual];
        proof {
            lemma_check_any(self.tokens@, self.current as int, kinds@);
            assert(kinds@ =~= seq![TokenKind::Greater, TokenKind::GreaterEqual, TokenKind::Less, TokenKind::LessEqual]);
            let k = self.tokens@[self.current as int].kind;
            if k == TokenKind::Greater {
                assert(kinds@[0] == k);
            }
            if k == TokenKind::GreaterEqual {
                assert(kinds@[1] == k);
            }
            if k == TokenKind::Less {
                assert(kinds@[2] == k);
            }
            if k == TokenKind::LessEqual {
                assert(kinds@[3] == k);
            }
        }
        self.match_token(&kinds)
    }
}

impl Parser {
    fn read_expression(&mut self) -> (r: Parsed<Expr>)
        requires
            old(self).wf(),
        ensures
            final(self).wf(),
            final(self).follows(*old(self), p_expression(old(self).tokens@, old(self).current as int)),
            r == p_expression(old(self).tokens@, old(self).current as int).out,
        decreases old(self).tokens@.len() - old(self).current, 20int,
    {
        proof {
            reveal_with_fuel(p_expression, 1);
        }
        self.read_assignment()
    }

    #[verifier::spinoff_prover]
    #[verifier::rlimit(40)]
    fn read_assignment(&mut self) -> (r: Parsed<Expr>)
        requires
            old(self).wf(),
        ensures
            final(self).wf(),
            final(self).follows(*old(self), p_assignment(old(self).tokens@, old(self).current as int)),
            r == p_assignment(old(self).tokens@, old(self).current as int).out,
        decreases old(self).tokens@.len() - old(self).current, 19int,
    {
        let ghost toks = self.tokens@;
        let ghost p = self.current as int;
        proof {
            lemma_equality(toks, p);
            lemma_assignment_unfold(toks, p);
        }
        let ghost e = p_equality(toks, p);
        let x = match self.read_equality() {
            Parsed::Node(x) => x,
            Parsed::Nothing => {
                return Parsed::Nothing;
            },
            Parsed::Abort => {
                return Parsed::Abort;
            },
        };
        if !self.match_kind(TokenKind::Equal) {
            return Parsed::Node(x);
        }
        let equals = self.previous().unwrap();
        let ghost v = p_assignment(toks, e.pos + 1);
        let value = self.read_assignment();
        let ghost mid = self.diagnostics@;
        proof {
            assert(mid =~= old(self).diagnostics@ + (e.diags + v.diags));
            assert(equals == toks[e.pos]);
        }
        let r = self.assigned(x, equals, value);
        proof {
            let whole = p_assignment(toks, p);
            assert(whole.pos == v.pos);
            assert(r == whole.out);
            assert(self.diagnostics@ =~= old(self).diagnostics@ + whole.diags);
        }
        r
    }

    /// The outcome of an assignment whose target and value were read.
    fn assigned(&mut self, target: Expr, equals: Token, value: Parsed<Expr>) -> (r: Parsed<Expr>)
        ensures
            final(self).tokens == old(self).tokens,
            final(self).current == old(self).current,
            r == match value {
                Parsed::Node(val) => match target {
                    Expr::Variable(var) => Parsed::Node(Expr::Assign(Assign { name: var.name, value: Box::new(val) })),
                    _ => Parsed::Node(target),
                },
                Parsed::Nothing => Parsed::Nothing,
                Parsed::Abort => Parsed::Abort,
            },
            final(self).diagnostics@ == old(self).diagnostics@ + match value {
                Parsed::Node(_) => match target {
                    Expr::Variable(_) => Seq::empty(),
                    _ => seq![ParseDiagnostic::InvalidAssignmentTarget(equals)],
                },
                _ => Seq::<ParseDiagnostic>::empty(),
            },
    {
        match value {
            Parsed::Node(val) => match target {
                Expr::Variable(var) => {
                    assert(self.diagnostics@ =~= old(self).diagnostics@ + Seq::empty());
                    Parsed::Node(Expr::Assign(Assign::new(var.name, Box::new(val))))
                },
                _ => {
                    // The grammar is incorrect
                    self.error(ParseDiagnostic::InvalidAssignmentTarget(equals));
                    Parsed::Node(target)
                },
            },
            Parsed::Nothing => {
                assert(self.diagnostics@ =~= old(self).diagnostics@ + Seq::empty());
                Parsed::Nothing
            },
            Parsed::Abort => {
                assert(self.diagnostics@ =~= old(self).diagnostics@ + Seq::empty());
                Parsed::Abort
            },
        }
    }

    #[verifier::spinoff_prover]
    #[verifier::rlimit(60)]
    fn read_equality(&mut self) -> (r: Parsed<Expr>)
        requires
            old(self).wf(),
        ensures
            final(self).wf(),
            final(self).follows(*old(self), p_equality(old(self).tokens@, old(self).current as int)),
            r == p_equality(old(self).tokens@, old(self).current as int).out,
        decreases old(self).tokens@.len() - old(self).current, 18int,
    {
        let ghost toks = self.tokens@;
        let ghost p = self.current as int;
        proof {
            lemma_comparison(toks, p);
            lemma_equality_unfold(toks, p);
        }
        let mut expr: Option<Expr> = match self.read_comparison() {
            Parsed::Node(x) => Some(x),
            Parsed::Nothing => None,
            Parsed::Abort => {
                return Parsed::Abort;
            },
        };
        let ghost mut done: Seq<ParseDiagnostic> = p_comparison(toks, p).diags;
        while self.match_either(TokenKind::BangEqual, TokenKind::EqualEqual)
            invariant
                self.wf(),
                self.tokens@ == toks,
                toks == old(self).tokens@,
                p == old(self).current,
                p <= self.current <= toks.len(),
                self.diagnostics@ == old(self).diagnostics@ + done,
                p_equality(toks, p) == after(done, p_equality_rest(toks, self.current as int, expr)),
            decreases toks.len() - self.current,
        {
            let ghost q = self.current - 1;
            proof {
                lemma_comparison(toks, q + 1);
                lemma_equality_rest_unfold(toks, q, expr);
            }
            let operator = self.previous().unwrap();
            let ghost r = p_comparison(toks, q + 1);
            let right = self.read_comparison();
            match right {
                Parsed::Node(y) => match expr {
                    Some(x) => {
                        proof {
                            lemma_after_after(done, r.diags, p_equality_rest(toks, r.pos, Some(binary(x, operator, y))));
                            done = done + r.diags;
                        }
                        expr = Some(Expr::Binary(Binary::new(Box::new(x), operator, Box::new(y))));
                        assert(self.diagnostics@ =~= old(self).diagnostics@ + done);
                    },
                    None => {
                        assert(self.diagnostics@ =~= old(self).diagnostics@ + (done + r.diags));
                        return Parsed::Abort;
                    },
                },
                Parsed::Nothing => {
                    assert(self.diagnostics@ =~= old(self).diagnostics@ + (done + r.diags));
                    return Parsed::Nothing;
                },
                Parsed::Abort => {
                    assert(self.diagnostics@ =~= old(self).diagnostics@ + (done + r.diags));
                    return Parsed::Abort;
                },
            }
        }
        proof {
            lemma_equality_rest_unfold(toks, self.current as int, expr);
        }
        assert(self.diagnostics@ =~= old(self).diagnostics@ + p_equality(toks, p).diags);
        match expr {
            Some(x) => Parsed::Node(x),
            None => Parsed::Nothing,
        }
    }

    #[verifier::spinoff_prover]
    fn read_comparison(&mut self) -> (r: Parsed<Expr>)
        requires
            old(self).wf(),
        ensures
            final(self).wf(),
            final(self).follows(*old(self), p_comparison(old(self).tokens@, old(self).current as int)),
            r == p_comparison(old(self).tokens@, old(self).current as int).out,
        decreases old(self).tokens@.len() - old(self).current, 16int,
    {
        let ghost toks = self.tokens@;
        let ghost p = self.current as int;
        proof {
            lemma_term(toks, p);
            lemma_comparison_unfold(toks, p);
        }
        let mut expr = match self.read_term() {
            Parsed::Node(x) => x,
            Parsed::Nothing => {
                return Parsed::Nothing;
            },
            Parsed::Abort => {
                return Parsed::Abort;
            },
        };
        let ghost mut done: Seq<ParseDiagnostic> = p_term(toks, p).diags;
        while self.match_comparison()
            invariant
                self.wf(),
                self.tokens@ == toks,
                toks == old(self).tokens@,
                p == old(self).current,
                p <= self.current <= toks.len(),
                self.diagnostics@ == old(self).diagnostics@ + done,
                p_comparison(toks, p) == after(done, p_comparison_rest(toks, self.current as int, expr)),
            decreases toks.len() - self.current,
        {
            let ghost q = self.current - 1;
            proof {
                lemma_term(toks, q + 1);
                lemma_comparison_rest_unfold(toks, q, expr);
            }
            let operator = self.previous().unwrap();
            let ghost r = p_term(toks, q + 1);
            let right = self.read_term();
            match right {
                Parsed::Node(y) => {
                    proof {
                        lemma_after_after(done, r.diags, p_comparison_rest(toks, r.pos, binary(expr, operator, y)));
                        done = done + r.diags;
                    }
                    expr = Expr::Binary(Binary::new(Box::new(expr), operator, Box::new(y)));
                    assert(self.diagnostics@ =~= old(self).diagnostics@ + done);
                },
                Parsed::Nothing => {
                    assert(self.diagnostics@ =~= old(self).diagnostics@ + (done + r.diags));
                    return Parsed::Nothing;
                },
                Parsed::Abort => {
                    assert(self.diagnostics@ =~= old(self).diagnostics@ + (done + r.diags));
                    return Parsed::Abort;
                },
            }
        }
        proof {
            lemma_comparison_rest_unfold(toks, self.current as int, expr);
        }
        assert(self.diagnostics@ =~= old(self).diagnostics@ + p_comparison(toks, p).diags);
        Parsed::Node(expr)
    }

    #[verifier::spinoff_prover]
    fn read_term(&mut self) -> (r: Parsed<Expr>)
        requires
            old(self).wf(),
        ensures
            final(self).wf(),
            final(self).follows(*old(self), p_term(old(self).tokens@, old(self).current as int)),
            r == p_term(old(self).tokens@, old(self).current as int).out,
        decreases old(self).tokens@.len() - old(self).current, 14int,
    {
        let ghost toks = self.tokens@;
        let ghost p = self.current as int;
        proof {
            lemma_factor(toks, p);
            lemma_term_unfold(toks, p);
        }
        let mut expr = match self.read_factor() {
            Parsed::Node(x) => x,
            Parsed::Nothing => {
                return Parsed::Nothing;
            },
            Parsed::Abort => {
                return Parsed::Abort;
            },
        };
        let ghost mut done: Seq<ParseDiagnostic> = p_factor(toks, p).diags;
        while self.match_either(TokenKind::Minus, TokenKind::Plus)
            invariant
                self.wf(),
                self.tokens@ == toks,
                toks == old(self).tokens@,
                p == old(self).current,
                p <= self.current <= toks.len(),
                self.diagnostics@ == old(self).diagnostics@ + done,
                p_term(toks, p) == after(done, p_term_rest(toks, self.current as int, expr)),
            decreases toks.len() - self.current,
        {
            let ghost q = self.current - 1;
            proof {
                lemma_factor(toks, q + 1);
                lemma_term_rest_unfold(toks, q, expr);
            }
            let operator = self.previous().unwrap();
            let ghost r = p_factor(toks, q + 1);
            let right = self.read_factor();
            match right {
                Parsed::Node(y) => {
                    proof {
                        lemma_after_after(done, r.diags, p_term_rest(toks, r.pos, binary(expr, operator, y)));
                        done = done + r.diags;
                    }
                    expr = Expr::Binary(Binary::new(Box::new(expr), operator, Box::new(y)));
                    assert(self.diagnostics@ =~= old(self).diagnostics@ + done);
                },
                Parsed::Nothing => {
                    assert(self.diagnostics@ =~= old(self).diagnostics@ + (done + r.diags));
                    return Parsed::Nothing;
                },
                Parsed::Abort => {
                    assert(self.diagnostics@ =~= old(self).diagnostics@ + (done + r.diags));
                    return Parsed::Abort;
                },
            }
        }
        proof {
            lemma_term_rest_unfold(toks, self.current as int, expr);
        }
        assert(self.diagnostics@ =~= old(self).diagnostics@ + p_term(toks, p).diags);
        Parsed::Node(expr)
    }

    fn read_factor(&mut self) -> (r: Parsed<Expr>)
        requires
            old(self).wf(),
        ensures
            final(self).wf(),
            final(self).follows(*old(self), p_factor(old(self).tokens@, old(self).current as int)),
            r == p_factor(old(self).tokens@, old(self).current as int).out,
        decreases old(self).tokens@.len() - old(self).current, 12int,
    {
        let ghost toks = self.tokens@;
        let ghost p = self.current as int;
        proof {
            reveal_with_fuel(p_factor, 1);
            lemma_unary(toks, p);
        }
        let expr = match self.read_unary() {
            Parsed::Node(x) => x,
            Parsed::Nothing => {
                return Parsed::Nothing;
            },
            Parsed::Abort => {
                return Parsed::Abort;
            },
        };
        let ghost u = p_unary(toks, p);
        if !self.match_either(TokenKind::Slash, TokenKind::Star) {
            return Parsed::Node(expr);
        }
        let operator = self.previous().unwrap();
        proof {
            lemma_unary(toks, u.pos + 1);
        }
        let ghost r = p_unary(toks, u.pos + 1);
        let right = self.read_unary();
        assert(self.diagnostics@ =~= old(self).diagnostics@ + (u.diags + r.diags));
        match right {
            Parsed::Node(y) => Parsed::Node(Expr::Binary(Binary::new(Box::new(expr), operator, Box::new(y)))),
            Parsed::Nothing => Parsed::Nothing,
            Parsed::Abort => Parsed::Abort,
        }
    }

    fn read_unary(&mut self) -> (r: Parsed<Expr>)
        requires
            old(self).wf(),
        ensures
            final(self).wf(),
            final(self).follows(*old(self), p_unary(old(self).tokens@, old(self).current as int)),
            r == p_unary(old(self).tokens@, old(self).current as int).out,
        decreases old(self).tokens@.len() - old(self).current, 11int,
    {
        proof {
            reveal_with_fuel(p_unary, 1);
        }
        if self.match_either(TokenKind::Bang, TokenKind::Minus) {
            let operator = self.previous().unwrap();
            match self.read_unary() {
                Parsed::Node(y) => Parsed::Node(Expr::Unary(Unary::new(operator, Box::new(y)))),
                Parsed::Nothing => Parsed::Nothing,
                Parsed::Abort => Parsed::Abort,
            }
        } else {
            self.read_primary()
        }
    }

    #[verifier::spinoff_prover]
    fn read_primary(&mut self) -> (r: Parsed<Expr>)
        requires
            old(self).wf(),
        ensures
            final(self).wf(),
            final(self).follows(*old(self), p_primary(old(self).tokens@, old(self).current as int)),
            r == p_primary(old(self).tokens@, old(self).current as int).out,
        decreases old(self).tokens@.len() - old(self).current, 10int,
    {
        proof {
            reveal_with_fuel(p_primary, 1);
        }
        assert(old(self).diagnostics@ =~= old(self).diagnostics@ + Seq::empty());
        if self.match_kind(TokenKind::Identifier) {
            return Parsed::Node(Expr::Variable(Variable::new(self.previous().unwrap())));
        }
        if self.match_either(TokenKind::Number, TokenKind::String) {
            let t = self.previous().unwrap();
            return match &t.literal {
                Some(l) => Parsed::Node(Expr::Literal(Literal::new(l.clone()))),
                None => Parsed::Nothing,
            };
        }
        if self.match_kind(TokenKind::LeftParen) {
            return self.read_group();
        }
        if self.match_kind(TokenKind::False) {
            return Parsed::Node(Expr::Literal(Literal::new(token::Literal { value: LiteralKind::Bool(false) })));
        }
        if self.match_kind(TokenKind::True) {
            return Parsed::Node(Expr::Literal(Literal::new(token::Literal { value: LiteralKind::Bool(true) })));
        }
        if self.match_kind(TokenKind::Nil) {
            return Parsed::Node(Expr::Literal(Literal::new(token::Literal { value: LiteralKind::Nil })));
        }
        match self.peek() {
            Some(t) => {
                self.error(ParseDiagnostic::ExpectExpression(t));
            },
            None => {},
        }
        Parsed::Nothing
    }

    /// `"(" expression ")"`, after the `(`.
    #[verifier::spinoff_prover]
    fn read_group(&mut self) -> (r: Parsed<Expr>)
        requires
            old(self).wf(),
            check(old(self).tokens@, old(self).current - 1, TokenKind::LeftParen),
        ensures
            final(self).wf(),
            final(self).follows(*old(self), p_primary(old(self).tokens@, old(self).current - 1)),
            r == p_primary(old(self).tokens@, old(self).current - 1).out,
        decreases old(self).tokens@.len() - old(self).current + 1, 9int,
    {
        let ghost toks = self.tokens@;
        let ghost p = self.current as int;
        proof {
            reveal_with_fuel(p_primary, 1);
            lemma_expression(toks, p);
        }
        let ghost inner = p_expression(toks, p);
        let x = match self.read_expression() {
            Parsed::Node(x) => x,
            Parsed::Nothing => {
                return Parsed::Nothing;
            },
            Parsed::Abort => {
                return Parsed::Abort;
            },
        };
        if self.consume(TokenKind::RightParen).is_none() {
            match self.peek() {
                Some(token) => {
                    self.error(ParseDiagnostic::ExpectRightParen(token));
                },
                None => {},
            }
        }
        assert(self.diagnostics@ =~= old(self).diagnostics@ + p_primary(toks, p - 1).diags);
        Parsed::Node(Expr::Grouping(Grouping::new(Box::new(x))))
    }
}


impl Parser {
    /// `"print" expression ";"`, after the `print`.
    fn read_print_statement(&mut self) -> (r: Parsed<Stmt>)
        requires
            old(self).wf(),
        ensures
            final(self).wf(),
            final(self).follows(*old(self), p_print_statement(old(self).tokens@, old(self).current as int)),
            r == p_print_statement(old(self).tokens@, old(self).current as int).out,
    {
        let ghost toks = self.tokens@;
        let ghost p = self.current as int;
        proof {
            lemma_expression(toks, p);
        }
        let ghost e = p_expression(toks, p);
        match self.read_expression() {
            Parsed::Node(x) => {
                self.check_stmt_terminal();
                assert(self.diagnostics@ =~= old(self).diagnostics@ + (e.diags + p_terminal(toks, e.pos).1));
                Parsed::Node(Stmt::Print(Print::new(x)))
            },
            Parsed::Nothing => Parsed::Nothing,
            Parsed::Abort => Parsed::Abort,
        }
    }

    /// `expression ";"`.
    fn read_expression_statement(&mut self) -> (r: Parsed<Stmt>)
        requires
            old(self).wf(),
        ensures
            final(self).wf(),
            final(self).follows(*old(self), p_expression_statement(old(self).tokens@, old(self).current as int)),
            r == p_expression_statement(old(self).tokens@, old(self).current as int).out,
    {
        let ghost toks = self.tokens@;
        let ghost p = self.current as int;
        proof {
            lemma_expression(toks, p);
        }
        let ghost e = p_expression(toks, p);
        match self.read_expression() {
            Parsed::Node(x) => {
                self.check_stmt_terminal();
                assert(self.diagnostics@ =~= old(self).diagnostics@ + (e.diags + p_terminal(toks, e.pos).1));
                Parsed::Node(Stmt::Expression(Expression::new(x)))
            },
            Parsed::Nothing => Parsed::Nothing,
            Parsed::Abort => Parsed::Abort,
        }
    }

    /// `statement → "print" expression ";" | expression ";"`.
    fn read_statement(&mut self) -> (r: Parsed<Stmt>)
        requires
            old(self).wf(),
        ensures
            final(self).wf(),
            final(self).follows(*old(self), p_statement(old(self).tokens@, old(self).current as int)),
            r == p_statement(old(self).tokens@, old(self).current as int).out,
    {
        if self.match_kind(TokenKind::Print) {
            self.read_print_statement()
        } else {
            self.read_expression_statement()
        }
    }

    /// `IDENTIFIER ( "=" expression )? ";"`, after the `let` or `const`.
    #[verifier::spinoff_prover]
    #[verifier::rlimit(40)]
    fn read_var_declaration(&mut self, is_const: bool) -> (r: Parsed<Stmt>)
        requires
            old(self).wf(),
        ensures
            final(self).wf(),
            final(self).follows(*old(self), p_var_declaration(old(self).tokens@, old(self).current as int, is_const)),
            r == p_var_declaration(old(self).tokens@, old(self).current as int, is_const).out,
    {
        let ghost toks = self.tokens@;
        let ghost p = self.current as int;
        assert(old(self).diagnostics@ =~= old(self).diagnostics@ + Seq::empty());
        let name = match self.consume(TokenKind::Identifier) {
            Some(name) => name,
            None => {
                return Parsed::Nothing;
            },
        };
        let initializer = if self.match_kind(TokenKind::Equal) {
            proof {
                lemma_expression(toks, p + 2);
            }
            match self.read_expression() {
                Parsed::Node(x) => x,
                Parsed::Nothing => {
                    return Parsed::Nothing;
                },
                Parsed::Abort => {
                    return Parsed::Abort;
                },
            }
        } else {
            // Without an initializer the variable is nil.
            Expr::Literal(Literal::new(token::Literal { value: LiteralKind::Nil }))
        };
        let ghost mid = self.diagnostics@;
        self.check_stmt_terminal();
        assert(self.diagnostics@ =~= old(self).diagnostics@ + p_var_declaration(toks, p, is_const).diags);
        if is_const {
            Parsed::Node(Stmt::Const(Const::new(name, initializer)))
        } else {
            Parsed::Node(Stmt::Let(Let::new(name, initializer)))
        }
    }

    /// `declaration → ("let" | "const") IDENTIFIER ( "=" expression )? ";" | statement`.
    fn read_declaration(&mut self) -> (r: Parsed<Stmt>)
        requires
            old(self).wf(),
        ensures
            final(self).wf(),
            final(self).follows(*old(self), p_declaration(old(self).tokens@, old(self).current as int)),
            r == p_declaration(old(self).tokens@, old(self).current as int).out,
    {
        proof {
            reveal(p_declaration);
        }
        if self.match_kind(TokenKind::Const) {
            return self.read_var_declaration(true);
        }
        if self.match_kind(TokenKind::Let) {
            return self.read_var_declaration(false);
        }
        self.read_statement()
    }

    /// Discards tokens until a statement boundary: just after a `;` or just
    /// before a token that begins a statement.
    fn synchronize(&mut self)
        requires
            old(self).wf(),
            old(self).current >= 1 || !at_end(old(self).tokens@, old(self).current as int),
        ensures
            final(self).wf(),
            final(self).tokens@ == old(self).tokens@,
            final(self).diagnostics@ == old(self).diagnostics@,
            final(self).current == p_synchronize(old(self).tokens@, old(self).current as int),
    {
        let ghost toks = self.tokens@;
        let ghost p = self.current as int;
        self.advance();
        while !self.is_at_end()
            invariant
                self.wf(),
                self.tokens@ == toks,
                toks == old(self).tokens@,
                p == old(self).current,
                self.diagnostics@ == old(self).diagnostics@,
                self.current >= 1,
                p_synchronize(toks, p) == sync_from(toks, self.current as int),
            decreases toks.len() - self.current,
        {
            match self.previous() {
                Some(prev) => {
                    if prev.kind == TokenKind::SemiColon {
                        return;
                    }
                },
                None => {},
            }
            let current = self.peek();
            match current {
                Some(token) => {
                    match token.kind {
                        TokenKind::Class | TokenKind::Fun | TokenKind::Let | TokenKind::Const
                        | TokenKind::For | TokenKind::If | TokenKind::While | TokenKind::Print
                        | TokenKind::Return => {
                            return;
                        },
                        _ => {},
                    }
                },
                None => {
                    return;
                },
            }
            self.advance();
        }
    }

    /// Parses declarations to the end of the tokens.
    #[verifier::spinoff_prover]
    fn read_program(&mut self) -> (r: Parsed<Vec<Stmt>>)
        requires
            old(self).wf(),
        ensures
            final(self).wf(),
            final(self).follows(*old(self), parse_from(old(self).tokens@, old(self).current as int)),
            match r {
                Parsed::Node(v) => parse_from(old(self).tokens@, old(self).current as int).out == Parsed::Node(v@),
                Parsed::Nothing => parse_from(old(self).tokens@, old(self).current as int).out is Nothing,
                Parsed::Abort => parse_from(old(self).tokens@, old(self).current as int).out is Abort,
            },
    {
        let ghost toks = self.tokens@;
        let ghost p = self.current as int;
        let mut statements: Vec<Stmt> = Vec::new();
        let ghost mut done: Seq<ParseDiagnostic> = Seq::empty();
        proof {
            lemma_resumed_start(toks, p);
        }
        while !self.is_at_end()
            invariant
                self.wf(),
                self.tokens@ == toks,
                toks == old(self).tokens@,
                p == old(self).current,
                p <= self.current <= toks.len(),
                self.diagnostics@ == old(self).diagnostics@ + done,
                resumed(toks, p, self.current as int, statements@, done),
            decreases toks.len() - self.current,
        {
            let ghost q = self.current as int;
            proof {
                lemma_declaration(toks, q);
            }
            let ghost d = p_declaration(toks, q);
            match self.read_declaration() {
                Parsed::Node(stmt) => {
                    proof {
                        lemma_resumed_node(toks, p, q, statements@, done);
                        done = done + d.diags;
                    }
                    statements.push(stmt);
                },
                Parsed::Nothing => {
                    self.synchronize();
                    let position = self.current;
                    self.error(ParseDiagnostic::ParserError(position));
                    proof {
                        lemma_resumed_nothing(toks, p, q, statements@, done);
                        done = done + d.diags + seq![ParseDiagnostic::ParserError(position)];
                    }
                    assert(self.diagnostics@ =~= old(self).diagnostics@ + done);
                },
                Parsed::Abort => {
                    proof {
                        lemma_resumed_abort(toks, p, q, statements@, done);
                    }
                    assert(self.diagnostics@ =~= old(self).diagnostics@ + (done + d.diags));
                    return Parsed::Abort;
                },
            }
        }
        proof {
            lemma_resumed_end(toks, p, self.current as int, statements@, done);
        }
        Parsed::Node(statements)
    }
}

/// Parsing from `p` gives what parsing from `q` gives, after the statements
/// `stmts` and the reports `done`.
spec fn resumed(toks: Seq<Token>, p: int, q: int, stmts: Seq<Stmt>, done: Seq<ParseDiagnostic>) -> bool {
    let rest = parse_from(toks, q);
    parse_from(toks, p) == Parse {
        out: match rest.out {
            Parsed::Node(ss) => Parsed::Node(stmts + ss),
            Parsed::Nothing => Parsed::Nothing,
            Parsed::Abort => Parsed::Abort,
        },
        pos: rest.pos,
        diags: done + rest.diags,
    }
}

proof fn lemma_resumed_start(toks: Seq<Token>, p: int)
    ensures
        resumed(toks, p, p, Seq::empty(), Seq::empty()),
{
    let rest = parse_from(toks, p);
    assert(Seq::<ParseDiagnostic>::empty() + rest.diags =~= rest.diags);
    if let Parsed::Node(ss) = rest.out {
        assert(Seq::<Stmt>::empty() + ss =~= ss);
    }
}

proof fn lemma_resumed_node(toks: Seq<Token>, p: int, q: int, stmts: Seq<Stmt>, done: Seq<ParseDiagnostic>)
    requires
        0 <= q <= toks.len(),
        !at_end(toks, q),
        resumed(toks, p, q, stmts, done),
        p_declaration(toks, q).out is Node,
    ensures
        resumed(
            toks,
            p,
            p_declaration(toks, q).pos,
            stmts.push(p_declaration(toks, q).out->Node_0),
            done + p_declaration(toks, q).diags,
        ),
{
    lemma_declaration(toks, q);
    let d = p_declaration(toks, q);
    let rest = parse_from(toks, d.pos);
    assert(done + (d.diags + rest.diags) =~= (done + d.diags) + rest.diags);
    if let Parsed::Node(ss) = rest.out {
        assert(stmts + (seq![d.out->Node_0] + ss) =~= stmts.push(d.out->Node_0) + ss);
    }
}

proof fn lemma_resumed_nothing(toks: Seq<Token>, p: int, q: int, stmts: Seq<Stmt>, done: Seq<ParseDiagnostic>)
    requires
        0 <= q <= toks.len(),
        !at_end(toks, q),
        resumed(toks, p, q, stmts, done),
        p_declaration(toks, q).out is Nothing,
    ensures
        ({
            let d = p_declaration(toks, q);
            let next = p_synchronize(toks, d.pos);
            resumed(toks, p, next, stmts, done + d.diags + seq![ParseDiagnostic::ParserError(next as usize)])
        }),
{
    lemma_declaration(toks, q);
    let d = p_declaration(toks, q);
    let next = p_synchronize(toks, d.pos);
    let mark = seq![ParseDiagnostic::ParserError(next as usize)];
    let rest = parse_from(toks, next);
    assert(done + (d.diags + mark + rest.diags) =~= (done + d.diags + mark) + rest.diags);
}

proof fn lemma_resumed_abort(toks: Seq<Token>, p: int, q: int, stmts: Seq<Stmt>, done: Seq<ParseDiagnostic>)
    requires
        0 <= q <= toks.len(),
        !at_end(toks, q),
        resumed(toks, p, q, stmts, done),
        p_declaration(toks, q).out is Abort,
    ensures
        parse_from(toks, p) == (Parse {
            out: Parsed::<Seq<Stmt>>::Abort,
            pos: p_declaration(toks, q).pos,
            diags: done + p_declaration(toks, q).diags,
        }),
{
}

proof fn lemma_resumed_end(toks: Seq<Token>, p: int, q: int, stmts: Seq<Stmt>, done: Seq<ParseDiagnostic>)
    requires
        at_end(toks, q),
        resumed(toks, p, q, stmts, done),
    ensures
        parse_from(toks, p) == (Parse { out: Parsed::Node(stmts), pos: q, diags: done }),
{
    assert(stmts + Seq::empty() =~= stmts);
    assert(done + Seq::empty() =~= done);
}

/// Parsing declarations either gives statements or ends the program.
proof fn lemma_parse_from_outcome(toks: Seq<Token>, p: int)
    requires
        0 <= p <= toks.len(),
    ensures
        !(parse_from(toks, p).out is Nothing),
    decreases toks.len() - p,
{
    if !at_end(toks, p) {
        lemma_declaration(toks, p);
        let d = p_declaration(toks, p);
        match d.out {
            Parsed::Node(_) => lemma_parse_from_outcome(toks, d.pos),
            Parsed::Nothing => lemma_parse_from_outcome(toks, p_synchronize(toks, d.pos)),
            Parsed::Abort => {},
        }
    }
}

impl Parser {
    /// Parses the tokens into statements. A declaration that cannot be
    /// parsed is reported, followed by a `Parser error` report, and parsing
    /// resumes at the next statement boundary.
    ///
    /// A `==` after an operand that could not be parsed, followed by one that
    /// could, leaves the program no way to go on; such tokens are not accepted
    /// here (see [`Parser::parse_checked`]).
    pub fn parse(&mut self) -> (r: Result<Vec<Stmt>, ErrorCode>)
        requires
            old(self)@.current <= old(self)@.tokens.len(),
            !(parse_from(old(self)@.tokens, old(self)@.current as int).out is Abort),
        ensures
            moved(final(self)@, old(self)@, parse_from(old(self)@.tokens, old(self)@.current as int)),
            r matches Ok(v) && parse_from(old(self)@.tokens, old(self)@.current as int).out == Parsed::Node(v@),
    {
        let n = self.tokens.len();
        proof {
            lemma_parse_from_outcome(self.tokens@, self.current as int);
        }
        match self.read_program() {
            Parsed::Node(v) => Ok(v),
            Parsed::Nothing => Ok(Vec::new()),
            Parsed::Abort => Ok(Vec::new()),
        }
    }

    /// Parses as [`Parser::parse`] does, or gives `None` on the tokens on
    /// which the program cannot go on.
    pub fn parse_checked(&mut self) -> (r: Option<Result<Vec<Stmt>, ErrorCode>>)
        requires
            old(self)@.current <= old(self)@.tokens.len(),
        ensures
            moved(final(self)@, old(self)@, parse_from(old(self)@.tokens, old(self)@.current as int)),
            r is None <==> parse_from(old(self)@.tokens, old(self)@.current as int).out is Abort,
            r is Some ==> (r matches Some(Ok(v)) && parse_from(old(self)@.tokens, old(self)@.current as int).out
                == Parsed::Node(v@)),
    {
        let n = self.tokens.len();
        proof {
            lemma_parse_from_outcome(self.tokens@, self.current as int);
        }
        match self.read_program() {
            Parsed::Node(v) => Some(Ok(v)),
            Parsed::Nothing => Some(Ok(Vec::new())),
            Parsed::Abort => None,
        }
    }

    /// Parses one expression: `expression → assignment`. Gives `None` when
    /// no expression could be parsed, after reporting why.
    pub fn expression(&mut self) -> (r: Option<Expr>)
        requires
            old(self)@.current <= old(self)@.tokens.len(),
            !(p_expression(old(self)@.tokens, old(self)@.current as int).out is Abort),
        ensures
            moved(final(self)@, old(self)@, p_expression(old(self)@.tokens, old(self)@.current as int)),
            r == found(p_expression(old(self)@.tokens, old(self)@.current as int).out),
    {
        let n = self.tokens.len();
        match self.read_expression() {
            Parsed::Node(x) => Some(x),
            _ => None,
        }
    }

    /// Parses one assignment: `assignment → IDENTIFIER "=" assignment |
    /// equality`.
    pub fn assignment(&mut self) -> (r: Option<Expr>)
        requires
            old(self)@.current <= old(self)@.tokens.len(),
            !(p_assignment(old(self)@.tokens, old(self)@.current as int).out is Abort),
        ensures
            moved(final(self)@, old(self)@, p_assignment(old(self)@.tokens, old(self)@.current as int)),
            r == found(p_assignment(old(self)@.tokens, old(self)@.current as int).out),
    {
        let n = self.tokens.len();
        match self.read_assignment() {
            Parsed::Node(x) => Some(x),
            _ => None,
        }
    }

    /// Parses one unary expression: `unary → ( "!" | "-" ) unary | primary`.
    pub fn unary(&mut self) -> (r: Option<Expr>)
        requires
            old(self)@.current <= old(self)@.tokens.len(),
            !(p_unary(old(self)@.tokens, old(self)@.current as int).out is Abort),
        ensures
            moved(final(self)@, old(self)@, p_unary(old(self)@.tokens, old(self)@.current as int)),
            r == found(p_unary(old(self)@.tokens, old(self)@.current as int).out),
    {
        let n = self.tokens.len();
        match self.read_unary() {
            Parsed::Node(x) => Some(x),
            _ => None,
        }
    }

    /// Parses one statement: `statement → "print" expression ";" |
    /// expression ";"`.
    pub fn statement(&mut self) -> (r: Option<Stmt>)
        requires
            old(self)@.current <= old(self)@.tokens.len(),
            !(p_statement(old(self)@.tokens, old(self)@.current as int).out is Abort),
        ensures
            moved(final(self)@, old(self)@, p_statement(old(self)@.tokens, old(self)@.current as int)),
            r == found(p_statement(old(self)@.tokens, old(self)@.current as int).out),
    {
        let n = self.tokens.len();
        match self.read_statement() {
            Parsed::Node(x) => Some(x),
            _ => None,
        }
    }
}

/// Parsing a program that gives statements reads every token: it ends past
/// the last token or at an end-of-text token.
pub proof fn lemma_parse_reaches_end(toks: Seq<Token>, p: int)
    requires
        0 <= p <= toks.len(),
    ensures
        parse_from(toks, p).out is Node ==> at_end(toks, parse_from(toks, p).pos),
    decreases toks.len() - p,
{
    if !at_end(toks, p) {
        lemma_declaration(toks, p);
        let d = p_declaration(toks, p);
        match d.out {
            Parsed::Node(_) => lemma_parse_reaches_end(toks, d.pos),
            Parsed::Nothing => lemma_parse_reaches_end(toks, p_synchronize(toks, d.pos)),
            Parsed::Abort => {},
        }
    }
}

/// The report of a remark, as the tool prints it: at the token for a
/// missing expression, `)` or `;` and for an invalid assignment target; on
/// the position where parsing resumed for a declaration that could not be
/// parsed.
pub open spec fn diagnostic_text(d: ParseDiagnostic) -> Seq<char> {
    match d {
        ParseDiagnostic::ExpectExpression(t) => token_error_text(t, "Expect expression."@),
        ParseDiagnostic::ExpectRightParen(t) => token_error_text(t, "Expect ')' after expression."@),
        ParseDiagnostic::ExpectSemicolon(t) => token_error_text(t, "Expect ';' after expression."@),
        ParseDiagnostic::InvalidAssignmentTarget(t) => token_error_text(t, "Invalid assignment target."@),
        ParseDiagnostic::ParserError(n) => line_error_text(n, "Parser error"@),
    }
}

impl ParseDiagnostic {
    /// The report of the remark (see [`diagnostic_text`]).
    pub fn report(&self) -> (r: String)
        ensures
            r@ == diagnostic_text(*self),
    {
        match self {
            ParseDiagnostic::ExpectExpression(t) => Reporter::token_error(t, "Expect expression."),
            ParseDiagnostic::ExpectRightParen(t) => Reporter::token_error(t, "Expect ')' after expression."),
            ParseDiagnostic::ExpectSemicolon(t) => Reporter::token_error(t, "Expect ';' after expression."),
            ParseDiagnostic::InvalidAssignmentTarget(t) => Reporter::token_error(t, "Invalid assignment target."),
            ParseDiagnostic::ParserError(n) => Reporter::line_error(*n, "Parser error"),
        }
    }
}

impl Parser {
    /// Parses one comparison: `comparison → term ( ( ">" | ">=" | "<" | "<=" ) term )*`.
    pub fn comparison(&mut self) -> (r: Option<Expr>)
        requires
            old(self)@.current <= old(self)@.tokens.len(),
            !(p_comparison(old(self)@.tokens, old(self)@.current as int).out is Abort),
        ensures
            moved(final(self)@, old(self)@, p_comparison(old(self)@.tokens, old(self)@.current as int)),
            r == found(p_comparison(old(self)@.tokens, old(self)@.current as int).out),
    {
        let n = self.tokens.len();
        match self.read_comparison() {
            Parsed::Node(x) => Some(x),
            _ => None,
        }
    }

    /// Parses one term: `term → factor ( ( "-" | "+" ) factor )*`.
    pub fn term(&mut self) -> (r: Option<Expr>)
        requires
            old(self)@.current <= old(self)@.tokens.len(),
            !(p_term(old(self)@.tokens, old(self)@.current as int).out is Abort),
        ensures
            moved(final(self)@, old(self)@, p_term(old(self)@.tokens, old(self)@.current as int)),
            r == found(p_term(old(self)@.tokens, old(self)@.current as int).out),
    {
        let n = self.tokens.len();
        match self.read_term() {
            Parsed::Node(x) => Some(x),
            _ => None,
        }
    }

    /// Parses one factor: `factor → unary ( ( "/" | "*" ) unary )?`.
    pub fn factor(&mut self) -> (r: Option<Expr>)
        requires
            old(self)@.current <= old(self)@.tokens.len(),
            !(p_factor(old(self)@.tokens, old(self)@.current as int).out is Abort),
        ensures
            moved(final(self)@, old(self)@, p_factor(old(self)@.tokens, old(self)@.current as int)),
            r == found(p_factor(old(self)@.tokens, old(self)@.current as int).out),
    {
        let n = self.tokens.len();
        match self.read_factor() {
            Parsed::Node(x) => Some(x),
            _ => None,
        }
    }

    /// Parses one primary expression: a variable, a literal or a parenthesized
    /// expression.
    pub fn primary(&mut self) -> (r: Option<Expr>)
        requires
            old(self)@.current <= old(self)@.tokens.len(),
            !(p_primary(old(self)@.tokens, old(self)@.current as int).out is Abort),
        ensures
            moved(final(self)@, old(self)@, p_primary(old(self)@.tokens, old(self)@.current as int)),
            r == found(p_primary(old(self)@.tokens, old(self)@.current as int).out),
    {
        let n = self.tokens.len();
        match self.read_primary() {
            Parsed::Node(x) => Some(x),
            _ => None,
        }
    }
}

} // verus!
