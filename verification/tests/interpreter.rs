use oxa::ast::expr::{Assign, Binary, Expr, Grouping, Literal, Unary, Variable};
use oxa::ast::stmt::{Expression, Let, Print, Stmt};
use oxa::environment::Environment;
use oxa::errors::ErrorCode;
use oxa::float::{FloatAnswer, FloatQuery};
use oxa::interpreter::{Interpreter, InterpreterBuilder};
use oxa::object::Object;
use oxa::token;
use oxa::token::{Token, TokenKind};

fn engine(q: FloatQuery) -> FloatAnswer {
    let f = |b: u32| f32::from_bits(b);
    match q {
        FloatQuery::Parse(s) => FloatAnswer::Float(s.parse::<f32>().map(|x| x.to_bits()).unwrap_or(0)),
        FloatQuery::FromInt(n) => FloatAnswer::Float((n as f32).to_bits()),
        FloatQuery::Negate(a) => FloatAnswer::Float((-f(a)).to_bits()),
        FloatQuery::Add(a, b) => FloatAnswer::Float((f(a) + f(b)).to_bits()),
        FloatQuery::Subtract(a, b) => FloatAnswer::Float((f(a) - f(b)).to_bits()),
        FloatQuery::Multiply(a, b) => FloatAnswer::Float((f(a) * f(b)).to_bits()),
        FloatQuery::Divide(a, b) => FloatAnswer::Float((f(a) / f(b)).to_bits()),
        FloatQuery::Less(a, b) => FloatAnswer::Truth(f(a) < f(b)),
        FloatQuery::LessEqual(a, b) => FloatAnswer::Truth(f(a) <= f(b)),
        FloatQuery::Greater(a, b) => FloatAnswer::Truth(f(a) > f(b)),
        FloatQuery::GreaterEqual(a, b) => FloatAnswer::Truth(f(a) >= f(b)),
        FloatQuery::Equal(a, b) => FloatAnswer::Truth(f(a) == f(b)),
        FloatQuery::Truncate(a) => FloatAnswer::Int(f(a) as i32),
        FloatQuery::IsNan(a) => FloatAnswer::Truth(f(a).is_nan()),
        FloatQuery::Display(a) => FloatAnswer::Text(f(a).to_string()),
    }
}


fn literal(value: token::Literal) -> Box<Expr> {
    Box::new(Expr::Literal(Literal::new(value)))
}

fn tok(kind: TokenKind, lexeme: &str) -> Token {
    Token::new(kind, lexeme, None, 1)
}

fn binary(left: Box<Expr>, operator: Token, right: Box<Expr>) -> Expr {
    Expr::Binary(Binary::new(left, operator, right))
}

fn ten_plus_ten_times_ten() -> Expr {
    binary(
        literal(token::Literal::number(10)),
        tok(TokenKind::Plus, "+"),
        Box::new(binary(
            literal(token::Literal::number(10)),
            tok(TokenKind::Star, "*"),
            literal(token::Literal::number(10)),
        )),
    )
}

fn ten_plus_ten_over_ten() -> Expr {
    binary(
        literal(token::Literal::number(10)),
        tok(TokenKind::Plus, "+"),
        Box::new(binary(
            literal(token::Literal::number(10)),
            tok(TokenKind::Slash, "/"),
            literal(token::Literal::number(10)),
        )),
    )
}

#[test]
fn evaluate_unary_expr() {
    let unary = Expr::Unary(Unary::new(tok(TokenKind::Minus, "-"), literal(token::Literal::float(1.0f32.to_bits()))));

    let mut interpreter = InterpreterBuilder::new().build();

    let result = interpreter.evaluate(&unary, &engine).unwrap();

    assert!(result.equals(&Object::float((-1.0f32).to_bits()), &engine));
}

#[test]
fn evaluate_binary_expr() {
    let expression = binary(
        literal(token::Literal::number(10)),
        tok(TokenKind::Plus, "+"),
        literal(token::Literal::number(10)),
    );

    let mut interpreter = InterpreterBuilder::new().build();

    let result = interpreter.evaluate(&expression, &engine).unwrap();

    assert!(result.equals(&Object::from(20), &engine));
}

#[test]
fn evaluate_complex_expr() {
    let expression = ten_plus_ten_times_ten();

    let mut interpreter = InterpreterBuilder::new().build();

    let result = interpreter.evaluate(&expression, &engine).unwrap();

    assert!(result.equals(&Object::from(110), &engine));
}

#[test]
fn evaluate_string_and_number_expr() {
    let expression = binary(
        literal(token::Literal::string("string")),
        tok(TokenKind::Plus, "+"),
        literal(token::Literal::number(10)),
    );

    let mut interpreter = InterpreterBuilder::new().build();

    let result = interpreter.evaluate(&expression, &engine).unwrap();

    assert!(result.equals(&Object::string("string10"), &engine));
}

#[test]
fn error_invalid_expr() {
    let expression = binary(
        literal(token::Literal::string("string")),
        tok(TokenKind::Minus, "-"),
        literal(token::Literal::number(10)),
    );

    let mut interpreter = InterpreterBuilder::new().build();

    let result = interpreter.evaluate(&expression, &engine);

    assert!(result.is_err());
}

#[test]
fn evaluate_grouped_expr() {
    let grouping = Expr::Grouping(Grouping::new(Box::new(Expr::Unary(Unary::new(
        tok(TokenKind::Bang, "!"),
        literal(token::Literal::boolean(false)),
    )))));

    let mut interpreter = InterpreterBuilder::new().build();

    let result = interpreter.evaluate(&grouping, &engine).unwrap();

    assert!(result.equals(&Object::from(false), &engine));
}

#[test]
fn execute_print_complex_expr() {
    let statement = Stmt::Print(Print::new(ten_plus_ten_times_ten()));

    let mut interpreter = InterpreterBuilder::new().build();

    let result = interpreter.execute(&statement, &engine).unwrap();

    assert!(result.equals(&Object::from(110), &engine));
    assert_eq!(interpreter.output(), &vec!["110".to_string()]);
}

#[test]
fn execute_expression_complex_expr() {
    let statement = Stmt::Expression(Expression::new(ten_plus_ten_times_ten()));

    let mut interpreter = InterpreterBuilder::new().build();

    let result = interpreter.execute(&statement, &engine).unwrap();

    assert!(result.equals(&Object::from(110), &engine));
}

#[test]
fn interpret_complex_expr() {
    let statement = Stmt::Expression(Expression::new(ten_plus_ten_over_ten()));

    let mut interpreter = InterpreterBuilder::new().build();

    let result = interpreter.interpret(&[statement], &engine).unwrap();
    let v = result.get(0).unwrap();

    assert!(v.equals(&Object::from(11), &engine));
}

#[test]
fn interpret_variable_expr() {
    let statement = Stmt::Let(Let::new(tok(TokenKind::Identifier, "a"), ten_plus_ten_over_ten()));

    let mut interpreter = InterpreterBuilder::new().build();

    let result = interpreter.interpret(&[statement], &engine).unwrap();
    let v = result.get(0).unwrap();

    assert!(v.equals(&Object::from(11), &engine));
}

#[test]
fn execute_print_on_assign_expr() {
    let mut interpreter = InterpreterBuilder::new().build();
    let statement = Stmt::Let(Let::new(tok(TokenKind::Identifier, "a"), Expr::Literal(Literal::new(token::Literal::number(2)))));

    interpreter.interpret(&[statement], &engine).unwrap();

    let expr = binary(
        literal(token::Literal::number(1)),
        tok(TokenKind::Plus, "+"),
        literal(token::Literal::number(2)),
    );

    let assign = Expr::Assign(Assign::new(tok(TokenKind::Identifier, "a"), Box::new(expr)));

    let statement = Stmt::Print(Print::new(assign));

    let result = interpreter.execute(&statement, &engine).unwrap();

    assert!(result.equals(&Object::from(3), &engine));
}

#[test]
fn interpreter_reports_runtime_error_and_goes_on() {
    let bad = Stmt::Expression(Expression::new(binary(
        literal(token::Literal::boolean(true)),
        tok(TokenKind::Minus, "-"),
        literal(token::Literal::number(1)),
    )));
    let good = Stmt::Print(Print::new(Expr::Literal(Literal::new(token::Literal::string("after")))));
    let mut interpreter = InterpreterBuilder::new().build();
    let result = interpreter.interpret(&[bad, good], &engine).unwrap();
    assert_eq!(result.len(), 1);
    assert_eq!(
        interpreter.output(),
        &vec!["Runtime error: Operand must be a number: true 1 - \n [line 1]".to_string(), "after".to_string()]
    );
}

#[test]
fn interpreter_unbound_variable_is_process_error() {
    let expr = Expr::Variable(Variable::new(tok(TokenKind::Identifier, "missing")));
    let mut interpreter = InterpreterBuilder::new().build();
    let result = interpreter.evaluate(&expr, &engine);
    assert!(matches!(result, Err(ErrorCode::ProcessError)));
    let assign = Expr::Assign(Assign::new(tok(TokenKind::Identifier, "missing"), literal(token::Literal::number(1))));
    assert!(matches!(interpreter.evaluate(&assign, &engine), Err(ErrorCode::ProcessError)));
}

#[test]
fn interpreter_evaluates_right_operand_first() {
    // (a = 1) + (a = "x") with a bound: the right assignment runs first, so a ends as 1
    let mut env = Environment::default();
    env.define("a", Object::from(0));
    let mut interpreter = InterpreterBuilder::new().environment(env).build();
    let expr = binary(
        Box::new(Expr::Assign(Assign::new(tok(TokenKind::Identifier, "a"), literal(token::Literal::number(1))))),
        tok(TokenKind::Plus, "+"),
        Box::new(Expr::Assign(Assign::new(tok(TokenKind::Identifier, "a"), literal(token::Literal::string("x"))))),
    );
    let result = interpreter.evaluate(&expr, &engine).unwrap();
    assert!(result.equals(&Object::string("1x"), &engine));
    let read = Expr::Variable(Variable::new(tok(TokenKind::Identifier, "a")));
    assert!(interpreter.evaluate(&read, &engine).unwrap().equals(&Object::from(1), &engine));
}

#[test]
fn interpreter_negation_gives_float_and_bang_gives_truth() {
    let mut interpreter = Interpreter::builder().build();
    let neg = Expr::Unary(Unary::new(tok(TokenKind::Minus, "-"), literal(token::Literal::number(3))));
    assert!(interpreter.evaluate(&neg, &engine).unwrap().equals(&Object::float((-3.0f32).to_bits()), &engine));
    let bang_nil = Expr::Unary(Unary::new(tok(TokenKind::Bang, "!"), literal(token::Literal::default())));
    assert!(interpreter.evaluate(&bang_nil, &engine).unwrap().equals(&Object::from(false), &engine));
    let bang_num = Expr::Unary(Unary::new(tok(TokenKind::Bang, "!"), literal(token::Literal::number(0))));
    assert!(interpreter.evaluate(&bang_num, &engine).unwrap().equals(&Object::from(true), &engine));
}

#[test]
fn interpreter_comparisons_and_equality() {
    let mut interpreter = Interpreter::builder().build();
    let lt = binary(literal(token::Literal::number(1)), tok(TokenKind::Less, "<"), literal(token::Literal::float(1.5f32.to_bits())));
    // 1 < trunc(1.5) = 1 is false
    assert!(interpreter.evaluate(&lt, &engine).unwrap().equals(&Object::from(false), &engine));
    let ne = binary(literal(token::Literal::number(1)), tok(TokenKind::BangEqual, "!="), literal(token::Literal::string("1")));
    assert!(interpreter.evaluate(&ne, &engine).unwrap().equals(&Object::from(true), &engine));
    let bad = binary(literal(token::Literal::string("a")), tok(TokenKind::Greater, ">"), literal(token::Literal::number(1)));
    assert!(interpreter.evaluate(&bad, &engine).is_err());
}

#[test]
fn interpreter_checked_stops_on_division_by_zero() {
    let first = Stmt::Print(Print::new(Expr::Literal(Literal::new(token::Literal::number(7)))));
    let div = Stmt::Expression(Expression::new(binary(
        literal(token::Literal::number(1)),
        tok(TokenKind::Slash, "/"),
        literal(token::Literal::number(0)),
    )));
    let mut interpreter = InterpreterBuilder::new().build();
    assert!(interpreter.interpret_checked(&[first, div], &engine).is_none());
    assert_eq!(interpreter.output(), &vec!["7".to_string()]);
}

#[test]
fn interpreter_const_binds_value() {
    let mut interpreter = InterpreterBuilder::new().build();
    let c = Stmt::Const(oxa::ast::stmt::Const::new(tok(TokenKind::Identifier, "k"), Expr::Literal(Literal::new(token::Literal::number(5)))));
    interpreter.execute(&c, &engine).unwrap();
    let read = Expr::Variable(Variable::new(tok(TokenKind::Identifier, "k")));
    assert!(interpreter.evaluate(&read, &engine).unwrap().equals(&Object::from(5), &engine));
}

#[test]
fn interpreter_values_keep_their_kinds() {
    let statements = [
        Stmt::Let(Let::new(tok(TokenKind::Identifier, "a"), ten_plus_ten_over_ten())),
        Stmt::Expression(Expression::new(binary(
            Box::new(Expr::Variable(Variable::new(tok(TokenKind::Identifier, "a")))),
            tok(TokenKind::Star, "*"),
            literal(token::Literal::float(0.5f32.to_bits())),
        ))),
    ];
    let mut interpreter = InterpreterBuilder::new().build();
    let values = interpreter.interpret(&statements, &engine).unwrap();
    assert!(values[0].is_kind(oxa::object::ObjectKind::Number));
    assert!(values[1].is_kind(oxa::object::ObjectKind::Float));
    assert!(values[1].equals(&Object::float(5.5f32.to_bits()), &engine));
}
