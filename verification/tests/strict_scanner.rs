use oxa::scanner::strict::Scanner;
use oxa::token::{LiteralKind, TokenKind};

fn scan(source: &str) -> Scanner {
    let mut scanner = Scanner::from_source(source);
    scanner.scan_tokens().unwrap();
    scanner
}

#[test]
fn strict_test_no_token_with_initial_creation() {
    let scanner = Scanner::from_source("");
    assert_eq!(scanner.tokens().len(), 0);
}

#[test]
fn strict_new_scanner_is_empty() {
    let mut scanner = Scanner::new();
    assert_eq!(scanner.tokens().len(), 0);
    scanner.scan_tokens().unwrap();
    assert_eq!(scanner.tokens().len(), 1);
    assert_eq!(scanner.tokens()[0].line, 0);
}

#[test]
fn strict_test_generates_eof_token_at_default() {
    let scanner = scan("");
    assert_eq!(scanner.tokens().len(), 1);
}

#[test]
fn strict_test_generates_token_for_single_char() {
    let scanner = scan("(");
    assert_eq!(scanner.tokens().len(), 2);
}

#[test]
fn strict_test_generates_token_for_multiple_single_char() {
    let scanner = scan("(){},.-+/*;");
    assert_eq!(scanner.tokens().len(), 12);
}

#[test]
fn strict_test_generates_token_for_single_comparator() {
    let scanner = scan("=<>!");
    assert_eq!(scanner.tokens().len(), 5);
}

#[test]
fn strict_test_generates_token_for_multi_comparator_arms() {
    let scanner = scan("<=>=!===");
    assert_eq!(scanner.tokens().len(), 5);
}

#[test]
fn strict_test_ignore_comment_characters() {
    let scanner = scan("// ignored comment character");
    assert_eq!(scanner.tokens().len(), 1);
}

#[test]
fn strict_test_ignore_comment_line() {
    let scanner = scan("!*+-/=<> <= == // operators");
    assert_eq!(scanner.tokens().len(), 10);
}

#[test]
fn strict_test_generates_token_for_strings() {
    let scanner = scan("\"String character escapes\"");
    assert_eq!(scanner.tokens().len(), 2);
}

#[test]
fn strict_test_generates_token_for_light_string() {
    let scanner = scan("'String character escapes'");
    assert_eq!(scanner.tokens().len(), 2);
}

#[test]
fn strict_test_generates_token_for_numbers() {
    let scanner = scan("1234.567");
    assert_eq!(scanner.tokens().len(), 2);
}

#[test]
fn strict_test_generates_token_for_identifiers() {
    let scanner = scan("idFor1234");
    assert_eq!(scanner.tokens().len(), 2);
}

#[test]
fn strict_test_ignore_keywords_token() {
    let scanner = scan("and or print 1234 return nil idFor1234");
    let tokens = scanner.tokens();
    assert_eq!(tokens.len(), 3);
    assert_eq!(tokens[0].kind, TokenKind::Number);
    assert_eq!(tokens[1].kind, TokenKind::Identifier);
    assert_eq!(tokens[2].kind, TokenKind::Eof);
    let reports = scanner.reports();
    assert_eq!(reports.len(), 5);
    assert_eq!(reports[0], "[line 1 Error : Unexpected character: a");
    assert_eq!(reports[1], "[line 1 Error : Unexpected character: o");
    assert_eq!(reports[2], "[line 1 Error : Unexpected character: p");
    assert_eq!(reports[3], "[line 1 Error : Unexpected character: r");
    assert_eq!(reports[4], "[line 1 Error : Unexpected character: n");
}

#[test]
fn strict_number_keeps_its_text() {
    let scanner = scan("12.5");
    let token = &scanner.tokens()[0];
    assert_eq!(token.kind, TokenKind::Number);
    assert_eq!(token.lexeme, "12.5");
    match &token.literal.as_ref().unwrap().value {
        LiteralKind::String(s) => assert_eq!(s, "12.5"),
        _ => panic!("a number keeps its text"),
    }
}

#[test]
fn strict_identifier_takes_underscores_and_let() {
    let scanner = scan("_a1 let");
    let tokens = scanner.tokens();
    assert_eq!(tokens.len(), 3);
    assert_eq!(tokens[0].lexeme, "_a1");
    assert_eq!(tokens[1].kind, TokenKind::Identifier);
    assert_eq!(tokens[1].lexeme, "let");
    assert!(scanner.reports().is_empty());
}

#[test]
fn strict_unterminated_string_is_reported_twice() {
    let scanner = scan("\"abc");
    let tokens = scanner.tokens();
    assert_eq!(tokens.len(), 1);
    assert_eq!(tokens[0].kind, TokenKind::Eof);
    assert_eq!(tokens[0].line, 1);
    let reports = scanner.reports();
    assert_eq!(reports.len(), 2);
    assert_eq!(reports[0], "[line 1 Error : Unexpected character: unterminated string.");
    assert_eq!(reports[1], "[line 1 Error : Unexpected character: \"");
}

#[test]
fn strict_unknown_character_is_reported() {
    let scanner = scan("1\n@");
    let tokens = scanner.tokens();
    assert_eq!(tokens.len(), 2);
    assert_eq!(scanner.reports(), &vec!["[line 2 Error : Unexpected character: @".to_string()]);
}

#[test]
fn strict_from_source_starts_on_line_one() {
    let scanner = scan("a\nb");
    let tokens = scanner.tokens();
    assert_eq!(tokens[0].line, 1);
    assert_eq!(tokens[1].line, 2);
}

#[test]
fn strict_comment_ends_at_new_line() {
    let scanner = scan("// c\nx");
    let tokens = scanner.tokens();
    assert_eq!(tokens.len(), 2);
    assert_eq!(tokens[0].lexeme, "x");
    assert_eq!(tokens[0].line, 2);
}
