use oxa::errors::{ErrorCode, Reporter};
use oxa::float::{FloatAnswer, FloatQuery};
use oxa::token::{Literal, Token, TokenKind};

fn engine(q: FloatQuery) -> FloatAnswer {
    let f = |b: u32| f32::from_bits(b);
    match q {
        FloatQuery::Parse(s) => FloatAnswer::Float(s.parse::<f32>().map(|x| x.to_bits()).unwrap_or(0)),
        FloatQuery::FromInt(n) => FloatAnswer::Float((n as f32).to_bits()),
        FloatQuery::Negate(a) => FloatAnswer::Float((-f(a)).to_bits()),
        FloatQuery::Add(a, b) => FloatAnswer::Float((f(a) + f(b)).to_bits()),
        FloatQuery::Subtract(a, b) => FloatAnswer::Float((f(a) - f(b)).to_bits()),
        FloatQuery::Multiply(a, b) => FloatAnswer::Float((f(a) * f(b)).to_bits()),
        FloatQuery::Divide(a, b) => FloatAnswer::Float((f(a) / f(b)).to_bits()),
        FloatQuery::Less(a, b) => FloatAnswer::Truth(f(a) < f(b)),
        FloatQuery::LessEqual(a, b) => FloatAnswer::Truth(f(a) <= f(b)),
        FloatQuery::Greater(a, b) => FloatAnswer::Truth(f(a) > f(b)),
        FloatQuery::GreaterEqual(a, b) => FloatAnswer::Truth(f(a) >= f(b)),
        FloatQuery::Equal(a, b) => FloatAnswer::Truth(f(a) == f(b)),
        FloatQuery::Truncate(a) => FloatAnswer::Int(f(a) as i32),
        FloatQuery::IsNan(a) => FloatAnswer::Truth(f(a).is_nan()),
        FloatQuery::Display(a) => FloatAnswer::Text(f(a).to_string()),
    }
}


#[test]
fn error_return_codes() {
    assert_eq!(ErrorCode::InvalidTokenKey('#').get_return_code(), 4);
    assert_eq!(ErrorCode::ProcessError.get_return_code(), 12);
    assert_eq!(ErrorCode::Unknown.get_return_code(), 1);
    let t = Token::new(TokenKind::Plus, "+", None, 1);
    assert_eq!(ErrorCode::ParserError(t.clone(), "m".to_string()).get_return_code(), 3);
    assert_eq!(ErrorCode::RuntimeError(t, "m".to_string()).get_return_code(), 2);
    let io = std::io::Error::new(std::io::ErrorKind::Other, "x");
    assert_eq!(ErrorCode::IO(io).get_return_code(), 11);
    let io = std::io::Error::new(std::io::ErrorKind::Other, "x");
    assert_eq!(ErrorCode::FileError(io).get_return_code(), 10);
}

#[test]
fn error_renderings() {
    assert_eq!(ErrorCode::ProcessError.to_string(&engine), "process error");
    assert_eq!(ErrorCode::Unknown.to_string(&engine), "unknown error");
    assert_eq!(ErrorCode::InvalidTokenKey('#').to_string(&engine), "invalid token: #");
    let t = Token::new(TokenKind::Number, "3", Some(Literal::number(3)), 4);
    assert_eq!(ErrorCode::ParserError(t.clone(), "bad".to_string()).to_string(&engine), "bad: number 3");
    assert_eq!(ErrorCode::RuntimeError(t, "bad".to_string()).to_string(&engine), "bad number 3 \n [line 4]");
    let io = std::io::Error::new(std::io::ErrorKind::Other, "x");
    assert!(ErrorCode::IO(io).to_string(&engine).starts_with("io error: "));
}

#[test]
fn reporter_messages() {
    assert_eq!(Reporter::line_error(3, "Parser error"), "[line 3 Error : Parser error");
    let t = Token::new(TokenKind::Plus, "+", None, 2);
    assert_eq!(Reporter::token_error(&t, "Expect expression."), "2 at '+' Expect expression.");
    let eof = Token::new(TokenKind::Eof, "", None, 5);
    assert_eq!(Reporter::token_error(&eof, "Expect ';' after expression."), "5 at end Expect ';' after expression.");
    assert_eq!(Reporter::arithmetic_error("1 + Nil"), "cannot perform arithmetic operation: 1 + Nil");
    assert_eq!(Reporter::runtime_error(&ErrorCode::ProcessError, &engine), "Runtime error: process error");
}
