use oxa::ast::expr::{Binary, Expr, Grouping, Literal, Unary};
use oxa::ast::printer::AstPrinter;
use oxa::ast::stmt::Stmt;
use oxa::float::{FloatAnswer, FloatQuery};
use oxa::parser::{ParseDiagnostic, Parser};
use oxa::token;
use oxa::token::{Token, TokenKind};

fn engine(q: FloatQuery) -> FloatAnswer {
    let f = |b: u32| f32::from_bits(b);
    match q {
        FloatQuery::Parse(s) => FloatAnswer::Float(s.parse::<f32>().map(|x| x.to_bits()).unwrap_or(0)),
        FloatQuery::FromInt(n) => FloatAnswer::Float((n as f32).to_bits()),
        FloatQuery::Negate(a) => FloatAnswer::Float((-f(a)).to_bits()),
        FloatQuery::Add(a, b) => FloatAnswer::Float((f(a) + f(b)).to_bits()),
        FloatQuery::Subtract(a, b) => FloatAnswer::Float((f(a) - f(b)).to_bits()),
        FloatQuery::Multiply(a, b) => FloatAnswer::Float((f(a) * f(b)).to_bits()),
        FloatQuery::Divide(a, b) => FloatAnswer::Float((f(a) / f(b)).to_bits()),
        FloatQuery::Less(a, b) => FloatAnswer::Truth(f(a) < f(b)),
        FloatQuery::LessEqual(a, b) => FloatAnswer::Truth(f(a) <= f(b)),
        FloatQuery::Greater(a, b) => FloatAnswer::Truth(f(a) > f(b)),
        FloatQuery::GreaterEqual(a, b) => FloatAnswer::Truth(f(a) >= f(b)),
        FloatQuery::Equal(a, b) => FloatAnswer::Truth(f(a) == f(b)),
        FloatQuery::Truncate(a) => FloatAnswer::Int(f(a) as i32),
        FloatQuery::IsNan(a) => FloatAnswer::Truth(f(a).is_nan()),
        FloatQuery::Display(a) => FloatAnswer::Text(f(a).to_string()),
    }
}


fn tok(kind: TokenKind, lexeme: &str) -> Token {
    Token::new(kind, lexeme, None, 1)
}

fn lit(kind: TokenKind, lexeme: &str, value: token::Literal) -> Token {
    Token::new(kind, lexeme, Some(value), 1)
}

fn literal(value: token::Literal) -> Box<Expr> {
    Box::new(Expr::Literal(Literal::new(value)))
}

fn binary(left: Box<Expr>, operator: Token, right: Box<Expr>) -> Box<Expr> {
    Box::new(Expr::Binary(Binary::new(left, operator, right)))
}

#[test]
fn parser_is_at_end_with_empty_tokens() {
    let parser = Parser::from_tokens(&[]);

    assert!(parser.is_at_end());
}

#[test]
fn parser_confirms_existence_of_token() {
    let tokens = [
        tok(TokenKind::Minus, "-"),
        tok(TokenKind::Plus, "+"),
        tok(TokenKind::Slash, "/"),
        tok(TokenKind::Star, "*"),
    ];

    let mut parser = Parser::from_tokens(&tokens);
    assert!(parser.match_token(&[TokenKind::Minus, TokenKind::Plus, TokenKind::Slash, TokenKind::Plus]))
}

#[test]
fn parser_parse_simple_expression() {
    // !false
    let tokens = [tok(TokenKind::Bang, "!"), lit(TokenKind::False, "false", token::Literal::boolean(false))];

    let mut parser = Parser::from_tokens(&tokens);
    let expr = parser.unary();

    assert!(expr.is_some());

    let expected = Expr::Unary(Unary::new(tok(TokenKind::Bang, "!"), literal(token::Literal::boolean(false))));

    assert_eq!(expr.unwrap().to_string(&engine), expected.to_string(&engine));
}

#[test]
fn parse_unary_expression() {
    let tokens = [tok(TokenKind::Minus, "-"), lit(TokenKind::Number, "2", token::Literal::number(2))];

    let mut parser = Parser::from_tokens(&tokens);
    let expr = parser.unary();

    assert!(expr.is_some());

    let expected = Expr::Unary(Unary::new(tok(TokenKind::Minus, "-"), literal(token::Literal::number(2))));

    assert_eq!(expr.unwrap().to_string(&engine), expected.to_string(&engine));
}

#[test]
fn parser_parse_complex_expression() {
    // 10 == 10
    let tokens = [
        lit(TokenKind::Number, "10", token::Literal::number(10)),
        tok(TokenKind::EqualEqual, "=="),
        lit(TokenKind::Number, "10", token::Literal::number(10)),
    ];

    let mut parser = Parser::from_tokens(&tokens);
    let expr = parser.expression();

    assert!(expr.is_some());

    let expected = binary(
        literal(token::Literal::number(10)),
        tok(TokenKind::EqualEqual, "=="),
        literal(token::Literal::number(10)),
    );

    assert_eq!(expr.unwrap().to_string(&engine), expected.to_string(&engine));
}

#[test]
fn parser_parse_advance_expression() {
    // a == b == c == d == e
    let tokens = [
        lit(TokenKind::String, "a", token::Literal::string("a")),
        tok(TokenKind::EqualEqual, "=="),
        lit(TokenKind::String, "b", token::Literal::string("b")),
        tok(TokenKind::EqualEqual, "=="),
        lit(TokenKind::String, "c", token::Literal::string("c")),
        tok(TokenKind::EqualEqual, "=="),
        lit(TokenKind::String, "d", token::Literal::string("d")),
        tok(TokenKind::EqualEqual, "=="),
        lit(TokenKind::String, "e", token::Literal::string("e")),
    ];

    let mut parser = Parser::from_tokens(&tokens);
    let expr = parser.expression();

    assert!(expr.is_some());

    let expected = binary(
        binary(
            binary(
                binary(
                    literal(token::Literal::string("a")),
                    tok(TokenKind::EqualEqual, "=="),
                    literal(token::Literal::string("b")),
                ),
                tok(TokenKind::EqualEqual, "=="),
                literal(token::Literal::string("c")),
            ),
            tok(TokenKind::EqualEqual, "=="),
            literal(token::Literal::string("d")),
        ),
        tok(TokenKind::EqualEqual, "=="),
        literal(token::Literal::string("e")),
    );

    assert_eq!(expr.unwrap().to_string(&engine), expected.to_string(&engine));
}

#[test]
fn parser_parse_extreme_expression() {
    // (a + b) * (10 / 2)
    let tokens = [
        tok(TokenKind::LeftParen, "("),
        lit(TokenKind::String, "a", token::Literal::string("a")),
        tok(TokenKind::Plus, "+"),
        lit(TokenKind::String, "b", token::Literal::string("b")),
        tok(TokenKind::RightParen, ")"),
        tok(TokenKind::Star, "*"),
        tok(TokenKind::LeftParen, "("),
        lit(TokenKind::Number, "10", token::Literal::number(10)),
        tok(TokenKind::Slash, "/"),
        lit(TokenKind::Number, "2", token::Literal::number(2)),
        tok(TokenKind::RightParen, ")"),
    ];

    let mut parser = Parser::from_tokens(&tokens);
    let expr = parser.expression();

    assert!(expr.is_some());

    let expected = binary(
        binary(
            literal(token::Literal::string("a")),
            tok(TokenKind::Plus, "+"),
            literal(token::Literal::string("b")),
        ),
        tok(TokenKind::Star, "*"),
        binary(
            literal(token::Literal::number(10)),
            tok(TokenKind::Slash, "/"),
            literal(token::Literal::number(2)),
        ),
    );

    assert_eq!(expr.unwrap().to_string(&engine), expected.to_string(&engine));
}

#[test]
fn error_parsing_incomplete_expression() {
    // 1 +
    let tokens = [lit(TokenKind::Number, "1", token::Literal::number(1)), tok(TokenKind::Plus, "+")];

    let mut parser = Parser::from_tokens(&tokens);
    let expr = parser.expression();

    assert!(expr.is_none());
}

#[test]
fn parse_print_unary_statement() {
    // print "one";
    let tokens = [
        tok(TokenKind::Print, "print"),
        lit(TokenKind::String, "one", token::Literal::string("one")),
        tok(TokenKind::SemiColon, ";"),
        tok(TokenKind::Eof, ""),
    ];

    let mut parser = Parser::from_tokens(&tokens);
    let statement = parser.statement();
    assert!(statement.is_some());
}

#[test]
fn parse_expr_statement() {
    // print (a + b) * (10 / 2);
    let tokens = [
        tok(TokenKind::Print, "print"),
        tok(TokenKind::LeftParen, "("),
        lit(TokenKind::String, "a", token::Literal::string("a")),
        tok(TokenKind::Plus, "+"),
        lit(TokenKind::String, "b", token::Literal::string("b")),
        tok(TokenKind::RightParen, ")"),
        tok(TokenKind::Star, "*"),
        tok(TokenKind::LeftParen, "("),
        lit(TokenKind::Number, "10", token::Literal::number(10)),
        tok(TokenKind::Slash, "/"),
        lit(TokenKind::Number, "2", token::Literal::number(2)),
        tok(TokenKind::RightParen, ")"),
        tok(TokenKind::SemiColon, ";"),
        tok(TokenKind::Eof, ""),
    ];

    let mut parser = Parser::from_tokens(&tokens);
    let statement = parser.statement();
    assert!(statement.is_some());
    assert_eq!(statement.unwrap().to_string(&engine), format!("a + b * 10 / 2"));
}

#[test]
fn parse_expr_statements() {
    // print 1 + 2;
    let tokens = [
        tok(TokenKind::Print, "print"),
        lit(TokenKind::Number, "1", token::Literal::number(1)),
        tok(TokenKind::Plus, "+"),
        lit(TokenKind::Number, "2", token::Literal::number(2)),
        tok(TokenKind::SemiColon, ";"),
        tok(TokenKind::Eof, ""),
    ];

    let mut parser = Parser::from_tokens(&tokens);
    let statements = parser.parse().unwrap();
    let print = statements.get(0);
    assert_eq!(print.unwrap().to_string(&engine), format!("1 + 2"))
}

#[test]
fn parser_factor_takes_one_operator() {
    // 1 * 2 * 3 leaves the second `*` unread
    let tokens = [
        lit(TokenKind::Number, "1", token::Literal::number(1)),
        tok(TokenKind::Star, "*"),
        lit(TokenKind::Number, "2", token::Literal::number(2)),
        tok(TokenKind::Star, "*"),
        lit(TokenKind::Number, "3", token::Literal::number(3)),
    ];
    let mut parser = Parser::from_tokens(&tokens);
    let expr = parser.expression().unwrap();
    assert_eq!(expr.to_string(&engine), "1 * 2");
    assert_eq!(parser.position(), 3);
}

#[test]
fn parser_assignment_to_variable() {
    // a = 1
    let tokens = [
        tok(TokenKind::Identifier, "a"),
        tok(TokenKind::Equal, "="),
        lit(TokenKind::Number, "1", token::Literal::number(1)),
    ];
    let mut parser = Parser::from_tokens(&tokens);
    let expr = parser.assignment().unwrap();
    assert!(matches!(expr, Expr::Assign(_)));
    assert!(parser.diagnostics().is_empty());
}

#[test]
fn parser_reports_invalid_assignment_target() {
    // 1 = 2
    let tokens = [
        lit(TokenKind::Number, "1", token::Literal::number(1)),
        tok(TokenKind::Equal, "="),
        lit(TokenKind::Number, "2", token::Literal::number(2)),
    ];
    let mut parser = Parser::from_tokens(&tokens);
    let expr = parser.expression().unwrap();
    assert_eq!(expr.to_string(&engine), "1");
    assert_eq!(parser.diagnostics().len(), 1);
    assert!(matches!(parser.diagnostics()[0], ParseDiagnostic::InvalidAssignmentTarget(_)));
}

#[test]
fn parser_reports_missing_expression_and_semicolon() {
    // print ; and then (1 without its `)`
    let tokens = [
        tok(TokenKind::Print, "print"),
        tok(TokenKind::SemiColon, ";"),
        tok(TokenKind::LeftParen, "("),
        lit(TokenKind::Number, "1", token::Literal::number(1)),
        tok(TokenKind::Eof, ""),
    ];
    let mut parser = Parser::from_tokens(&tokens);
    let statements = parser.parse().unwrap();
    assert_eq!(statements.len(), 1);
    let kinds: Vec<String> = parser
        .diagnostics()
        .iter()
        .map(|d| match d {
            ParseDiagnostic::ExpectExpression(_) => "expression".to_string(),
            ParseDiagnostic::ExpectRightParen(_) => "paren".to_string(),
            ParseDiagnostic::ExpectSemicolon(_) => "semicolon".to_string(),
            ParseDiagnostic::InvalidAssignmentTarget(_) => "target".to_string(),
            ParseDiagnostic::ParserError(n) => format!("error {}", n),
        })
        .collect();
    assert_eq!(kinds, vec!["expression", "error 2", "paren", "semicolon"]);
}

#[test]
fn parser_declarations() {
    // let a = 1; const b;
    let tokens = [
        tok(TokenKind::Let, "let"),
        tok(TokenKind::Identifier, "a"),
        tok(TokenKind::Equal, "="),
        lit(TokenKind::Number, "1", token::Literal::number(1)),
        tok(TokenKind::SemiColon, ";"),
        tok(TokenKind::Const, "const"),
        tok(TokenKind::Identifier, "b"),
        tok(TokenKind::SemiColon, ";"),
        tok(TokenKind::Eof, ""),
    ];
    let mut parser = Parser::from_tokens(&tokens);
    let statements = parser.parse().unwrap();
    assert_eq!(statements.len(), 2);
    assert!(matches!(statements[0], Stmt::Let(_)));
    assert!(matches!(statements[1], Stmt::Const(_)));
    assert_eq!(statements[1].to_string(&engine), "identifier Nil");
    assert_eq!(parser.position(), 8);
    assert!(parser.is_at_end());
}

#[test]
fn parser_checked_refuses_equality_after_missing_operand() {
    // - == 1: the operand of `-` is missing, and `== 1` follows
    let tokens = [
        tok(TokenKind::Minus, "-"),
        tok(TokenKind::EqualEqual, "=="),
        lit(TokenKind::Number, "1", token::Literal::number(1)),
        tok(TokenKind::Eof, ""),
    ];
    let mut parser = Parser::from_tokens(&tokens);
    assert!(parser.parse_checked().is_none());
}

#[test]
fn parser_grouping_is_kept() {
    let tokens = [
        tok(TokenKind::LeftParen, "("),
        lit(TokenKind::Number, "1", token::Literal::number(1)),
        tok(TokenKind::RightParen, ")"),
    ];
    let mut parser = Parser::from_tokens(&tokens);
    let expr = parser.expression().unwrap();
    assert!(matches!(expr, Expr::Grouping(Grouping { .. })));
}

#[test]
fn token_equality() {
    let a = Token::new(TokenKind::Number, "1.5", Some(token::Literal::float(1.5f32.to_bits())), 2);
    let b = Token::new(TokenKind::Number, "1.5", Some(token::Literal::float(1.5f32.to_bits())), 2);
    let c = Token::new(TokenKind::Number, "1.5", Some(token::Literal::float(1.5f32.to_bits())), 3);
    let nan = Token::new(TokenKind::Number, "n", Some(token::Literal::float(f32::NAN.to_bits())), 2);
    assert!(a.equals(&b, &engine));
    assert!(!a.equals(&c, &engine));
    assert!(!nan.equals(&nan.clone(), &engine));
}

#[test]
fn parser_levels_of_precedence() {
    // 1 + 2 < 3
    let tokens = [
        lit(TokenKind::Number, "1", token::Literal::number(1)),
        tok(TokenKind::Plus, "+"),
        lit(TokenKind::Number, "2", token::Literal::number(2)),
        tok(TokenKind::Less, "<"),
        lit(TokenKind::Number, "3", token::Literal::number(3)),
    ];
    let mut parser = Parser::from_tokens(&tokens);
    assert_eq!(parser.comparison().unwrap().to_string(&engine), "1 + 2 < 3");
    let mut parser = Parser::from_tokens(&tokens);
    assert_eq!(parser.term().unwrap().to_string(&engine), "1 + 2");
    assert_eq!(parser.position(), 3);
    let mut parser = Parser::from_tokens(&tokens);
    assert_eq!(parser.factor().unwrap().to_string(&engine), "1");
    let mut parser = Parser::from_tokens(&tokens);
    assert_eq!(parser.primary().unwrap().to_string(&engine), "1");
}

#[test]
fn parser_equality_takes_bang_equal() {
    // 1 != 2
    let tokens = [
        lit(TokenKind::Number, "1", token::Literal::number(1)),
        tok(TokenKind::BangEqual, "!="),
        lit(TokenKind::Number, "2", token::Literal::number(2)),
        tok(TokenKind::Eof, ""),
    ];
    let mut parser = Parser::from_tokens(&tokens);
    let expr = parser.expression().unwrap();
    let printer = AstPrinter {};
    assert_eq!(printer.print_expr(&expr, &engine), "(!= 1 2)");
    assert!(parser.is_at_end());
}
