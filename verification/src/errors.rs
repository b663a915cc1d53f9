//! The errors of the tool and the exit codes they map to.

use vstd::prelude::*;

use crate::float::{engine_ok, FloatAnswer, FloatQuery};
use crate::text::{append, decimal_text, push_char, text, usize_text};
use crate::token::{token_text, Token, TokenKind};

verus! {

/// `std::io::Error`, carried through by the errors that reading input raises.
#[verifier::external_type_specification]
#[verifier::external_body]
pub struct ExIoError(std::io::Error);

/// All the errors of the tool.
#[derive(Debug)]
pub enum ErrorCode {
    FileError(std::io::Error),
    IO(std::io::Error),
    InvalidTokenKey(char),
    ProcessError,
    ParserError(Token, String),
    RuntimeError(Token, String),
    Unknown,
}

impl From<std::io::Error> for ErrorCode {
    /// An I/O error met while processing a file.
    fn from(e: std::io::Error) -> (r: ErrorCode) {
        ErrorCode::FileError(e)
    }
}

impl vstd::std_specs::convert::FromSpecImpl<std::io::Error> for ErrorCode {
    open spec fn obeys_from_spec() -> bool {
        true
    }

    open spec fn from_spec(v: std::io::Error) -> ErrorCode {
        ErrorCode::FileError(v)
    }
}

/// The process exit code of an error; every error maps to a code other
/// than zero.
pub open spec fn return_code(e: ErrorCode) -> i32 {
    match e {
        ErrorCode::InvalidTokenKey(_) => 4,
        ErrorCode::FileError(_) => 10,
        ErrorCode::IO(_) => 11,
        ErrorCode::ProcessError => 12,
        ErrorCode::ParserError(_, _) => 3,
        ErrorCode::RuntimeError(_, _) => 2,
        ErrorCode::Unknown => 1,
    }
}

impl ErrorCode {
    /// The process exit code of this error (see [`return_code`]).
    pub fn get_return_code(&self) -> (r: i32)
        ensures
            r == return_code(*self),
            r != 0,
    {
        match self {
            ErrorCode::InvalidTokenKey(_) => 4,
            ErrorCode::FileError(_) => 10,
            ErrorCode::IO(_) => 11,
            ErrorCode::ProcessError => 12,
            ErrorCode::ParserError(_, _) => 3,
            ErrorCode::RuntimeError(_, _) => 2,
            _ => 1,
        }
    }
}

/// A failure of a running program, in mathematical terms.
pub enum Failure {
    /// A variable that is not bound, or an operation the interpreter cannot
    /// carry out.
    Process,
    /// A runtime error at a token, with its message.
    Runtime(Token, Seq<char>),
}

/// The failure an error stands for, if it is one a running program raises.
pub open spec fn failure_of(e: ErrorCode) -> Option<Failure> {
    match e {
        ErrorCode::ProcessError => Some(Failure::Process),
        ErrorCode::RuntimeError(t, m) => Some(Failure::Runtime(t, m@)),
        _ => None,
    }
}

/// The rendering of a failure.
pub open spec fn failure_text<F: Fn(FloatQuery) -> FloatAnswer>(f: F, e: Failure) -> Seq<char> {
    match e {
        Failure::Process => "process error"@,
        Failure::Runtime(t, m) => m + " "@ + token_text(f, t@) + " \n [line "@ + decimal_text(t.line as nat) + "]"@,
    }
}

/// The rendering of an error, for the errors that carry no I/O error.
pub open spec fn error_text<F: Fn(FloatQuery) -> FloatAnswer>(f: F, e: ErrorCode) -> Option<Seq<char>> {
    match e {
        ErrorCode::InvalidTokenKey(c) => Some("invalid token: "@.push(c)),
        ErrorCode::ParserError(t, m) => Some(m@ + ": "@ + token_text(f, t@)),
        ErrorCode::Unknown => Some("unknown error"@),
        ErrorCode::ProcessError => Some(failure_text(f, Failure::Process)),
        ErrorCode::RuntimeError(t, m) => Some(failure_text(f, Failure::Runtime(t, m@))),
        _ => None,
    }
}

/// The debug rendering of an I/O error (`{:?}`).
#[verifier::external_body]
fn io_error_text(e: &std::io::Error) -> String {
    format!("{:?}", e)
}

impl ErrorCode {
    /// The rendering of the error (see [`error_text`]); for an error that
    /// carries an I/O error, a prefix that names the kind of failure followed
    /// by the I/O error's debug rendering.
    pub fn to_string<F: Fn(FloatQuery) -> FloatAnswer>(&self, floats: &F) -> (r: String)
        requires
            engine_ok(*floats),
        ensures
            error_text(*floats, *self) matches Some(t) ==> r@ == t,
            self matches ErrorCode::FileError(_) ==> exists|d: Seq<char>| r@ == "file processing error: "@ + d,
            self matches ErrorCode::IO(_) ==> exists|d: Seq<char>| r@ == "io error: "@ + d,
    {
        match self {
            ErrorCode::FileError(e) => {
                let mut r = text("file processing error: ");
                let d = io_error_text(e);
                append(&mut r, d.as_str());
                assert(r@ == "file processing error: "@ + d@);
                r
            },
            ErrorCode::IO(e) => {
                let mut r = text("io error: ");
                let d = io_error_text(e);
                append(&mut r, d.as_str());
                assert(r@ == "io error: "@ + d@);
                r
            },
            ErrorCode::ProcessError => text("process error"),
            ErrorCode::InvalidTokenKey(c) => {
                let mut r = text("invalid token: ");
                push_char(&mut r, *c);
                r
            },
            ErrorCode::ParserError(t, m) => {
                let mut r = m.clone();
                append(&mut r, ": ");
                let tt = t.to_string(floats);
                append(&mut r, tt.as_str());
                r
            },
            ErrorCode::RuntimeError(t, m) => {
                let mut r = m.clone();
                append(&mut r, " ");
                let tt = t.to_string(floats);
                append(&mut r, tt.as_str());
                append(&mut r, " \n [line ");
                let n = usize_text(t.line);
                append(&mut r, n.as_str());
                append(&mut r, "]");
                r
            },
            ErrorCode::Unknown => text("unknown error"),
        }
    }
}

/// Formats the messages the tool reports.
pub struct Reporter {}

/// `[line N Error : message`.
pub open spec fn line_error_text(line: usize, message: Seq<char>) -> Seq<char> {
    "[line "@ + decimal_text(line as nat) + " Error : "@ + message
}

/// `N at end message` for the end-of-text token, `N at 'lexeme' message`
/// for any other token, `N` being the token's line.
pub open spec fn token_error_text(token: Token, message: Seq<char>) -> Seq<char> {
    if token.kind == TokenKind::Eof {
        decimal_text(token.line as nat) + " at end "@ + message
    } else {
        decimal_text(token.line as nat) + " at '"@ + token.lexeme@ + "' "@ + message
    }
}

/// `cannot perform arithmetic operation: ops`.
pub open spec fn arithmetic_error_text(ops: Seq<char>) -> Seq<char> {
    "cannot perform arithmetic operation: "@ + ops
}

impl Reporter {
    /// The report of an error on a line (see [`line_error_text`]).
    pub fn line_error(line: usize, message: &str) -> (r: String)
        ensures
            r@ == line_error_text(line, message@),
    {
        let mut r = text("[line ");
        let n = usize_text(line);
        append(&mut r, n.as_str());
        append(&mut r, " Error : ");
        append(&mut r, message);
        r
    }

    /// The report of an error at a token (see [`token_error_text`]).
    pub fn token_error(token: &Token, message: &str) -> (r: String)
        ensures
            r@ == token_error_text(*token, message@),
    {
        let mut r = usize_text(token.line);
        if token.kind == TokenKind::Eof {
            append(&mut r, " at end ");
        } else {
            append(&mut r, " at '");
            append(&mut r, token.lexeme.as_str());
            append(&mut r, "' ");
        }
        append(&mut r, message);
        r
    }

    /// The report of an arithmetic operation that cannot be performed.
    pub fn arithmetic_error(ops: &str) -> (r: String)
        ensures
            r@ == arithmetic_error_text(ops@),
    {
        let mut r = text("cannot perform arithmetic operation: ");
        append(&mut r, ops);
        r
    }
}

impl Reporter {
    /// The report of an error raised while running a program:
    /// `Runtime error: ` and the error's rendering.
    pub fn runtime_error<F: Fn(FloatQuery) -> FloatAnswer>(error: &ErrorCode, floats: &F) -> (r: String)
        requires
            engine_ok(*floats),
        ensures
            error_text(*floats, *error) matches Some(t) ==> r@ == "Runtime error: "@ + t,
    {
        let mut r = text("Runtime error: ");
        let t = error.to_string(floats);
        append(&mut r, t.as_str());
        r
    }
}

} // verus!
