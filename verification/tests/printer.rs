use oxa::ast::expr::{Binary, Expr, Grouping, Literal, Unary, Variable};
use oxa::ast::printer::{parenthesize, AstPrinter};
use oxa::ast::stmt::{Let, Print, Stmt};
use oxa::float::{FloatAnswer, FloatQuery};
use oxa::token;
use oxa::token::{Token, TokenKind};

fn engine(q: FloatQuery) -> FloatAnswer {
    let f = |b: u32| f32::from_bits(b);
    match q {
        FloatQuery::Parse(s) => FloatAnswer::Float(s.parse::<f32>().map(|x| x.to_bits()).unwrap_or(0)),
        FloatQuery::FromInt(n) => FloatAnswer::Float((n as f32).to_bits()),
        FloatQuery::Negate(a) => FloatAnswer::Float((-f(a)).to_bits()),
        FloatQuery::Add(a, b) => FloatAnswer::Float((f(a) + f(b)).to_bits()),
        FloatQuery::Subtract(a, b) => FloatAnswer::Float((f(a) - f(b)).to_bits()),
        FloatQuery::Multiply(a, b) => FloatAnswer::Float((f(a) * f(b)).to_bits()),
        FloatQuery::Divide(a, b) => FloatAnswer::Float((f(a) / f(b)).to_bits()),
        FloatQuery::Less(a, b) => FloatAnswer::Truth(f(a) < f(b)),
        FloatQuery::LessEqual(a, b) => FloatAnswer::Truth(f(a) <= f(b)),
        FloatQuery::Greater(a, b) => FloatAnswer::Truth(f(a) > f(b)),
        FloatQuery::GreaterEqual(a, b) => FloatAnswer::Truth(f(a) >= f(b)),
        FloatQuery::Equal(a, b) => FloatAnswer::Truth(f(a) == f(b)),
        FloatQuery::Truncate(a) => FloatAnswer::Int(f(a) as i32),
        FloatQuery::IsNan(a) => FloatAnswer::Truth(f(a).is_nan()),
        FloatQuery::Display(a) => FloatAnswer::Text(f(a).to_string()),
    }
}


fn literal(value: token::Literal) -> Box<Expr> {
    Box::new(Expr::Literal(Literal::new(value)))
}

#[test]
fn printer_parenthesize_binary_expr() {
    let expr = Binary::new(
        literal(token::Literal::number(1)),
        Token::new(TokenKind::Plus, "+", None, 1),
        literal(token::Literal::number(2)),
    );

    let printer = AstPrinter {};

    let value = parenthesize(&printer, &expr.operator.lexeme, &[expr.left.as_ref(), expr.right.as_ref()], &engine);

    assert_eq!(&value, "(+ 1 2)");
}

#[test]
fn print_expr_test() {
    let expr = Expr::Binary(Binary::new(
        Box::new(Expr::Unary(Unary::new(
            Token::new(TokenKind::Minus, "-", None, 1),
            literal(token::Literal::number(123)),
        ))),
        Token::new(TokenKind::Star, "*", None, 1),
        Box::new(Expr::Grouping(Grouping::new(literal(token::Literal::float(45.67f32.to_bits()))))),
    ));
    let printer = AstPrinter {};
    let value = printer.print_expr(&expr, &engine);
    assert_eq!(&value, "(* (- 123) (group 45.67))");
}

#[test]
fn printer_test() {
    let expr = Expr::Binary(Binary::new(
        Box::new(Expr::Unary(Unary::new(
            Token::new(TokenKind::Minus, "-", None, 1),
            literal(token::Literal::number(123)),
        ))),
        Token::new(TokenKind::Star, "*", None, 1),
        Box::new(Expr::Grouping(Grouping::new(literal(token::Literal::float(45.67f32.to_bits()))))),
    ));
    let printer = AstPrinter {};
    let value = printer.print(Box::new(expr), &engine);
    assert_eq!(&value, "(* (- 123) (group 45.67))")
}

#[test]
fn print_stmt_test() {
    let expr = Expr::Binary(Binary::new(
        literal(token::Literal::number(1)),
        Token::new(TokenKind::Plus, "+", None, 1),
        literal(token::Literal::number(2)),
    ));

    let print_stmt = Stmt::Print(Print::new(expr));
    let mut printer = AstPrinter {};
    let value = printer.print_stmt(&print_stmt, &engine);
    assert_eq!(&value, "print (+ 1 2)");
}

#[test]
fn print_variable_test() {
    let expr = Expr::Binary(Binary::new(
        literal(token::Literal::number(1)),
        Token::new(TokenKind::Plus, "+", None, 1),
        literal(token::Literal::number(2)),
    ));

    let print_stmt = Stmt::Let(Let::new(Token::new(TokenKind::Let, "let", None, 1), expr));
    let mut printer = AstPrinter {};
    let value = printer.print_stmt(&print_stmt, &engine);
    assert_eq!(&value, "let (+ 1 2)");
}

#[test]
fn printer_prints_variable_and_strings() {
    let expr = Expr::Binary(Binary::new(
        Box::new(Expr::Variable(Variable::new(Token::new(TokenKind::Identifier, "a", None, 1)))),
        Token::new(TokenKind::Plus, "+", None, 1),
        literal(token::Literal::string("text")),
    ));
    let printer = AstPrinter {};
    assert_eq!(printer.print_expr(&expr, &engine), "(+ identifier text)");
}
