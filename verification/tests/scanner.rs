use oxa::float::{FloatAnswer, FloatQuery};
use oxa::scanner::{Scanner, ScannerBuilder};
use oxa::token::{LiteralKind, TokenKind};

fn engine(q: FloatQuery) -> FloatAnswer {
    let f = |b: u32| f32::from_bits(b);
    match q {
        FloatQuery::Parse(s) => FloatAnswer::Float(s.parse::<f32>().map(|x| x.to_bits()).unwrap_or(0)),
        FloatQuery::FromInt(n) => FloatAnswer::Float((n as f32).to_bits()),
        FloatQuery::Negate(a) => FloatAnswer::Float((-f(a)).to_bits()),
        FloatQuery::Add(a, b) => FloatAnswer::Float((f(a) + f(b)).to_bits()),
        FloatQuery::Subtract(a, b) => FloatAnswer::Float((f(a) - f(b)).to_bits()),
        FloatQuery::Multiply(a, b) => FloatAnswer::Float((f(a) * f(b)).to_bits()),
        FloatQuery::Divide(a, b) => FloatAnswer::Float((f(a) / f(b)).to_bits()),
        FloatQuery::Less(a, b) => FloatAnswer::Truth(f(a) < f(b)),
        FloatQuery::LessEqual(a, b) => FloatAnswer::Truth(f(a) <= f(b)),
        FloatQuery::Greater(a, b) => FloatAnswer::Truth(f(a) > f(b)),
        FloatQuery::GreaterEqual(a, b) => FloatAnswer::Truth(f(a) >= f(b)),
        FloatQuery::Equal(a, b) => FloatAnswer::Truth(f(a) == f(b)),
        FloatQuery::Truncate(a) => FloatAnswer::Int(f(a) as i32),
        FloatQuery::IsNan(a) => FloatAnswer::Truth(f(a).is_nan()),
        FloatQuery::Display(a) => FloatAnswer::Text(f(a).to_string()),
    }
}

fn scan(source: &str) -> Scanner {
    let mut scanner = ScannerBuilder::default().source(source).build();
    scanner.scan_tokens(&engine).unwrap();
    scanner
}

#[test]
fn scanner_test_no_token_with_initial_creation() {
    let scanner = ScannerBuilder::default().source("").build();
    assert_eq!(scanner.tokens().len(), 0);
}

#[test]
fn scanner_test_generates_eof_token_at_default() {
    let scanner = scan("");
    assert_eq!(scanner.tokens().len(), 1);
}

#[test]
fn scanner_test_generates_token_for_single_char() {
    let scanner = scan("(");
    assert_eq!(scanner.tokens().len(), 2);
}

#[test]
fn test_generates_token_for_number() {
    let scanner = scan("1");
    assert_eq!(scanner.tokens().len(), 2);
    assert_eq!(scanner.tokens().get(0).unwrap().kind, TokenKind::Number);
}

#[test]
fn test_generates_token_for_unary_number() {
    let scanner = scan("-1");
    assert_eq!(scanner.tokens().len(), 3);
    assert_eq!(scanner.tokens().get(0).unwrap().kind, TokenKind::Minus);
    assert_eq!(scanner.tokens().get(1).unwrap().kind, TokenKind::Number);
}

#[test]
fn test_generates_token_for_expression() {
    let scanner = scan("1 + 2");
    assert_eq!(scanner.tokens().len(), 4);
    assert_eq!(scanner.tokens().get(0).unwrap().kind, TokenKind::Number);
    assert_eq!(scanner.tokens().get(1).unwrap().kind, TokenKind::Plus);
    assert_eq!(scanner.tokens().get(2).unwrap().kind, TokenKind::Number);
}

#[test]
fn scanner_test_generates_token_for_multiple_single_char() {
    let scanner = scan("(){},.-+/*;");
    assert_eq!(scanner.tokens().len(), 12);
}

#[test]
fn scanner_test_generates_token_for_single_comparator() {
    let scanner = scan("=<>!");
    assert_eq!(scanner.tokens().len(), 5);
}

#[test]
fn scanner_test_generates_token_for_multi_comparator_arms() {
    let scanner = scan("<=>=!===");
    assert_eq!(scanner.tokens().len(), 5);
}

#[test]
fn scanner_test_ignore_comment_characters() {
    let scanner = scan("// ignored comment character");
    assert_eq!(scanner.tokens().len(), 1);
}

#[test]
fn scanner_test_ignore_comment_line() {
    let scanner = scan("!*+-/=<> <= == // operators");
    assert_eq!(scanner.tokens().len(), 10);
}

#[test]
fn scanner_test_generates_token_for_strings() {
    let scanner = scan("\"String character escapes\"");
    assert_eq!(scanner.tokens().len(), 2);
}

#[test]
fn scanner_test_generates_token_for_light_string() {
    let scanner = scan("\'String character escapes\'");
    assert_eq!(scanner.tokens().len(), 2);
}

#[test]
fn scanner_test_generates_token_for_numbers() {
    let scanner = scan("1234.567");
    assert_eq!(scanner.tokens().len(), 2);
}

#[test]
fn scanner_test_generates_token_for_identifiers() {
    let scanner = scan("idFor1234");
    assert_eq!(scanner.tokens().len(), 2);
}

#[test]
fn scanner_test_ignore_keywords_token() {
    let scanner = scan("and or print 1234 return nil idFor1234");
    assert_eq!(scanner.tokens().len(), 8);
}

#[test]
fn test_print_statement() {
    let scanner = scan("print 1 + 2;");
    assert_eq!(scanner.tokens().len(), 6);
}

// Further cases.

#[test]
fn scanner_reads_lexemes_and_literals() {
    // The space before `=` takes the `=` with it, so no `=` token is made.
    let scanner = scan("let x = 12.5; 'hi' 7");
    let tokens = scanner.tokens();
    let kinds: Vec<TokenKind> = tokens.iter().map(|t| t.kind).collect();
    assert_eq!(
        kinds,
        vec![
            TokenKind::Let,
            TokenKind::Identifier,
            TokenKind::Number,
            TokenKind::SemiColon,
            TokenKind::String,
            TokenKind::Number,
            TokenKind::Eof
        ]
    );
    assert_eq!(tokens[1].lexeme, "x");
    match &tokens[2].literal.as_ref().unwrap().value {
        LiteralKind::Float(b) => assert_eq!(f32::from_bits(*b), 12.5),
        _ => panic!("expected a float literal"),
    }
    match &tokens[4].literal.as_ref().unwrap().value {
        LiteralKind::String(s) => assert_eq!(s, "hi"),
        _ => panic!("expected a string literal"),
    }
    assert_eq!(tokens[4].lexeme, "'hi'");
    match &tokens[5].literal.as_ref().unwrap().value {
        LiteralKind::Number(n) => assert_eq!(*n, 7),
        _ => panic!("expected an integer literal"),
    }
}

#[test]
fn scanner_consumes_equal_sign_after_any_character() {
    // The `=` after `x` is consumed together with it, and the identifier
    // goes on over the digit after it.
    let scanner = scan("x=1");
    let tokens = scanner.tokens();
    assert_eq!(tokens.len(), 2);
    assert_eq!(tokens[0].kind, TokenKind::Identifier);
    assert_eq!(tokens[0].lexeme, "x=1");
}

#[test]
fn scanner_drops_integer_that_overflows() {
    let scanner = scan("99999999999 1");
    let tokens = scanner.tokens();
    assert_eq!(tokens.len(), 2);
    assert_eq!(tokens[0].lexeme, "1");
}

#[test]
fn scanner_counts_lines_and_reports_unterminated_string() {
    let scanner = scan("1\n\"abc\ndef");
    let tokens = scanner.tokens();
    assert_eq!(tokens.len(), 2);
    assert_eq!(tokens[0].line, 0);
    assert_eq!(tokens[1].kind, TokenKind::Eof);
    assert_eq!(tokens[1].line, 2);
    assert_eq!(scanner.unterminated_string_lines(), &vec![2usize]);
}

#[test]
fn scanner_comment_ends_at_new_line() {
    let scanner = scan("// c\nx");
    let tokens = scanner.tokens();
    assert_eq!(tokens.len(), 2);
    assert_eq!(tokens[0].kind, TokenKind::Identifier);
    assert_eq!(tokens[0].lexeme, "x");
    assert_eq!(tokens[0].line, 1);
    assert_eq!(tokens[1].kind, TokenKind::Eof);
    assert_eq!(tokens[1].line, 1);
}

#[test]
fn scanner_comment_between_lines() {
    let scanner = scan("1 // note\n2");
    let tokens = scanner.tokens();
    assert_eq!(tokens.len(), 3);
    assert_eq!(tokens[0].lexeme, "1");
    assert_eq!(tokens[1].lexeme, "2");
    assert_eq!(tokens[1].line, 1);
}

#[test]
fn scanner_only_last_token_is_end_of_text() {
    let scanner = scan("print 1 + 2; let a = \"s\"");
    let tokens = scanner.tokens();
    let last = tokens.len() - 1;
    assert_eq!(tokens[last].kind, TokenKind::Eof);
    assert!(tokens[..last].iter().all(|t| t.kind != TokenKind::Eof));
}

#[test]
fn scanner_reads_back_the_text_of_each_kind() {
    let kinds = [
        TokenKind::LeftParen,
        TokenKind::RightParen,
        TokenKind::LeftBrace,
        TokenKind::RightBrace,
        TokenKind::Comma,
        TokenKind::Dot,
        TokenKind::SemiColon,
        TokenKind::Minus,
        TokenKind::Plus,
        TokenKind::Slash,
        TokenKind::Star,
        TokenKind::Bang,
        TokenKind::BangEqual,
        TokenKind::Equal,
        TokenKind::EqualEqual,
        TokenKind::Greater,
        TokenKind::GreaterEqual,
        TokenKind::Less,
        TokenKind::LessEqual,
        TokenKind::And,
        TokenKind::Class,
        TokenKind::Const,
        TokenKind::Else,
        TokenKind::False,
        TokenKind::Fun,
        TokenKind::For,
        TokenKind::If,
        TokenKind::Let,
        TokenKind::Nil,
        TokenKind::Or,
        TokenKind::Print,
        TokenKind::Return,
        TokenKind::Super,
        TokenKind::This,
        TokenKind::True,
        TokenKind::Var,
        TokenKind::While,
    ];
    for kind in kinds.iter() {
        let text = kind.to_string();
        let scanner = scan(&text);
        let tokens = scanner.tokens();
        assert_eq!(tokens.len(), 2);
        assert_eq!(tokens[0].kind, *kind);
        assert_eq!(tokens[0].lexeme, text);
        assert_eq!(tokens[1].kind, TokenKind::Eof);
    }
}
