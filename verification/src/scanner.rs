//! The scanner: turns source text into tokens.
//!
//! The scanner reads the source one character at a time. For each character
//! it tries, in this order: an operator that may be followed by `=`, a `//`
//! comment, an identifier, a number, a quoted string, a one-character
//! symbol, a reserved word, and white space. Before trying any of them it
//! consumes a `=` that follows the character, whatever the character is; a
//! character that nothing recognises is skipped. The source is read as ASCII
//! text.

use vstd::prelude::*;

use crate::errors::{line_error_text, ErrorCode, Reporter};
use crate::float::{answer, answer_float, ask_float, engine_ok, FloatAnswer, FloatQuery, FloatQueryView};
use crate::text::{
    all_digits, char_is_alphabetic, char_is_alphanumeric, char_is_ascii_digit, char_is_numeric,
    chars_of, digits_value, is_ascii_char, is_digit_char, is_letter_char, parse_i32,
    string_from_chars, text,
};
use crate::token::{
    is_keyword_kind, is_symbol_kind, keyword, keyword_kind, kind_text, lemma_kind_text, Literal, LiteralView, Token,
    TokenKind, TokenView,
};

pub mod strict;

verus! {

// ---------------------------------------------------------------------------
// The meaning of scanning.
// ---------------------------------------------------------------------------

/// Every character of the text is ASCII.
pub open spec fn is_ascii_text(s: Seq<char>) -> bool {
    forall|i: int| 0 <= i < s.len() ==> is_ascii_char(#[trigger] s[i])
}

/// The character at a position, or `'\0'` past the end.
pub open spec fn char_at(s: Seq<char>, i: int) -> char {
    if 0 <= i < s.len() {
        s[i]
    } else {
        '\0'
    }
}

/// The position after consuming `expected` at `i`, if it is there.
pub open spec fn match_next(s: Seq<char>, i: int, expected: char) -> int {
    if 0 <= i < s.len() && s[i] == expected {
        i + 1
    } else {
        i
    }
}

/// The position of the first character at or after `i` that is not a digit.
pub open spec fn skip_digits(s: Seq<char>, i: int) -> int
    decreases s.len() - i,
{
    if 0 <= i < s.len() && is_digit_char(s[i]) {
        skip_digits(s, i + 1)
    } else {
        i
    }
}

/// The position of the first character at or after `i` that is neither a
/// letter nor a digit.
pub open spec fn skip_alphanumeric(s: Seq<char>, i: int) -> int
    decreases s.len() - i,
{
    if 0 <= i < s.len() && (is_letter_char(s[i]) || is_digit_char(s[i])) {
        skip_alphanumeric(s, i + 1)
    } else {
        i
    }
}

/// The position of the first character at or after `i` that is not a letter.
pub open spec fn skip_letters(s: Seq<char>, i: int) -> int
    decreases s.len() - i,
{
    if 0 <= i < s.len() && is_letter_char(s[i]) {
        skip_letters(s, i + 1)
    } else {
        i
    }
}

/// The position of the first `quote` at or after `i` (the end of the text if
/// there is none), and the line number after the new lines passed on the way.
pub open spec fn string_end(s: Seq<char>, i: int, quote: char, line: int) -> (int, int)
    decreases s.len() - i,
{
    if 0 <= i < s.len() && s[i] != quote {
        string_end(s, i + 1, quote, if s[i] == '\n' { line + 1 } else { line })
    } else {
        (i, line)
    }
}

/// The position of the first new line at or after `i`, or the end of the
/// text if there is none.
pub open spec fn line_end(s: Seq<char>, i: int) -> int
    decreases s.len() - i,
{
    if 0 <= i < s.len() && s[i] != '\n' {
        line_end(s, i + 1)
    } else {
        i
    }
}

/// Whether the text is a decimal fraction: digits, a point, digits.
pub open spec fn is_decimal_fraction(t: Seq<char>) -> bool {
    exists|k: int|
        0 < k < t.len() - 1 && #[trigger] t[k] == '.' && all_digits(t.subrange(0, k)) && all_digits(
            t.subrange(k + 1, t.len() as int),
        )
}

/// The end of a number that starts before `i`: its digits, then a point and
/// more digits if a digit follows the point.
pub open spec fn number_end(s: Seq<char>, i: int) -> int {
    let e = skip_digits(s, i);
    if char_at(s, e) == '.' && is_digit_char(char_at(s, e + 1)) {
        skip_digits(s, e + 1)
    } else {
        e
    }
}

/// What one recognizer did: whether it took the character, where reading
/// stands and on which line, the token it produced and whether it reported
/// an unterminated string.
pub struct StepOutcome {
    pub handled: bool,
    pub cur: int,
    pub line: int,
    pub token: Option<TokenView>,
    pub unterminated: bool,
}

/// The recognizer passed the character on.
pub open spec fn passed(cur: int, line: int) -> StepOutcome {
    StepOutcome { handled: false, cur, line, token: None, unterminated: false }
}

/// The recognizer took the character.
pub open spec fn taken(cur: int, line: int, token: Option<TokenView>) -> StepOutcome {
    StepOutcome { handled: true, cur, line, token, unterminated: false }
}

/// The token of kind `kind` read from `s[start..end]`.
pub open spec fn token_at(
    kind: TokenKind,
    s: Seq<char>,
    start: int,
    end: int,
    literal: Option<LiteralView>,
    line: int,
) -> TokenView {
    TokenView { kind, lexeme: s.subrange(start, end), literal, line: line as usize }
}

/// The operators that may be followed by `=`.
pub open spec fn comparator_step(s: Seq<char>, start: int, cur: int, line: int) -> StepOutcome {
    let c = s[start];
    let n = match_next(s, cur, '=');
    let eq = n != cur;
    if c == '!' {
        taken(n, line, Some(token_at(if eq { TokenKind::BangEqual } else { TokenKind::Bang }, s, start, n, None, line)))
    } else if c == '=' {
        taken(n, line, Some(token_at(if eq { TokenKind::EqualEqual } else { TokenKind::Equal }, s, start, n, None, line)))
    } else if c == '<' {
        taken(n, line, Some(token_at(if eq { TokenKind::LessEqual } else { TokenKind::Less }, s, start, n, None, line)))
    } else if c == '>' {
        taken(n, line, Some(token_at(if eq { TokenKind::GreaterEqual } else { TokenKind::Greater }, s, start, n, None, line)))
    } else {
        passed(n, line)
    }
}

/// A `//` comment runs up to the end of its line; the new line itself is
/// read next.
pub open spec fn comment_step(s: Seq<char>, start: int, cur: int, line: int) -> StepOutcome {
    if s[start] != '/' {
        passed(cur, line)
    } else {
        let n = match_next(s, cur, '/');
        if n == cur {
            passed(cur, line)
        } else {
            taken(line_end(s, n), line, None)
        }
    }
}

/// A letter followed by letters and digits; a reserved word is passed on,
/// with its characters consumed.
pub open spec fn identifier_step(s: Seq<char>, start: int, cur: int, line: int) -> StepOutcome {
    if !is_letter_char(s[start]) {
        passed(cur, line)
    } else {
        let e = skip_alphanumeric(s, cur);
        if keyword_kind(s.subrange(start, e)) is Some {
            passed(e, line)
        } else {
            taken(e, line, Some(token_at(TokenKind::Identifier, s, start, e, None, line)))
        }
    }
}

/// The float denoted by a decimal fraction, as the engine parses it.
pub open spec fn parsed_float<F: Fn(FloatQuery) -> FloatAnswer>(f: F, t: Seq<char>) -> u32 {
    answer_float(answer(f, FloatQueryView::Parse(t)))
}

/// A number: a decimal fraction becomes a float literal, digits alone an
/// integer literal if the value fits in an `i32`; anything else is passed on,
/// with its characters consumed.
pub open spec fn numeric_step<F: Fn(FloatQuery) -> FloatAnswer>(
    f: F,
    s: Seq<char>,
    start: int,
    cur: int,
    line: int,
) -> StepOutcome {
    if !is_digit_char(s[start]) {
        passed(cur, line)
    } else {
        let e = number_end(s, cur);
        let t = s.subrange(start, e);
        if t.contains('.') {
            if is_decimal_fraction(t) {
                taken(e, line, Some(token_at(TokenKind::Number, s, start, e, Some(LiteralView::Float(parsed_float(f, t))), line)))
            } else {
                passed(e, line)
            }
        } else if all_digits(t) && digits_value(t) <= i32::MAX as nat {
            taken(e, line, Some(token_at(TokenKind::Number, s, start, e, Some(LiteralView::Number(digits_value(t) as i32)), line)))
        } else {
            passed(e, line)
        }
    }
}

/// A string in double or single quotes; its literal is the text between the
/// quotes. A string that is not closed is reported and passed on, with the
/// rest of the text consumed.
pub open spec fn string_step(s: Seq<char>, start: int, cur: int, line: int) -> StepOutcome {
    let q = s[start];
    if q != '"' && q != '\'' {
        passed(cur, line)
    } else {
        let (e, l) = string_end(s, cur, q, line);
        if e >= s.len() {
            StepOutcome { handled: false, cur: e, line: l, token: None, unterminated: true }
        } else {
            taken(e + 1, l, Some(token_at(TokenKind::String, s, start, e + 1, Some(LiteralView::String(s.subrange(start + 1, e))), l)))
        }
    }
}

/// The kind of a one-character symbol.
pub open spec fn single_char_kind(c: char) -> Option<TokenKind> {
    if c == '(' {
        Some(TokenKind::LeftParen)
    } else if c == ')' {
        Some(TokenKind::RightParen)
    } else if c == '{' {
        Some(TokenKind::LeftBrace)
    } else if c == '}' {
        Some(TokenKind::RightBrace)
    } else if c == ',' {
        Some(TokenKind::Comma)
    } else if c == '.' {
        Some(TokenKind::Dot)
    } else if c == '-' {
        Some(TokenKind::Minus)
    } else if c == '+' {
        Some(TokenKind::Plus)
    } else if c == '/' {
        Some(TokenKind::Slash)
    } else if c == '*' {
        Some(TokenKind::Star)
    } else if c == ';' {
        Some(TokenKind::SemiColon)
    } else {
        None
    }
}

/// A one-character symbol.
pub open spec fn single_char_step(s: Seq<char>, start: int, cur: int, line: int) -> StepOutcome {
    match single_char_kind(s[start]) {
        Some(k) => taken(cur, line, Some(token_at(k, s, start, cur, None, line))),
        None => passed(cur, line),
    }
}

/// A reserved word: a letter or digit followed by letters.
pub open spec fn keyword_step(s: Seq<char>, start: int, cur: int, line: int) -> StepOutcome {
    let c = s[start];
    if !(is_letter_char(c) || is_digit_char(c)) {
        passed(cur, line)
    } else {
        let e = skip_letters(s, cur);
        match keyword_kind(s.subrange(start, e)) {
            Some(k) => taken(e, line, Some(token_at(k, s, start, e, None, line))),
            None => passed(e, line),
        }
    }
}

/// White space; a new line advances the line number.
pub open spec fn ignored_step(s: Seq<char>, start: int, cur: int, line: int) -> StepOutcome {
    let c = s[start];
    if c == ' ' || c == '\r' || c == '\t' {
        taken(cur, line, None)
    } else if c == '\n' {
        taken(cur, line + 1, None)
    } else {
        passed(cur, line)
    }
}

/// What reading the character at `start` does, the recognizers tried in turn.
pub open spec fn scan_step<F: Fn(FloatQuery) -> FloatAnswer>(
    f: F,
    s: Seq<char>,
    start: int,
    line: int,
) -> StepOutcome {
    let o1 = comparator_step(s, start, start + 1, line);
    if o1.handled {
        o1
    } else {
        let o2 = comment_step(s, start, o1.cur, o1.line);
        if o2.handled {
            o2
        } else {
            let o3 = identifier_step(s, start, o2.cur, o2.line);
            if o3.handled {
                o3
            } else {
                let o4 = numeric_step(f, s, start, o3.cur, o3.line);
                if o4.handled {
                    o4
                } else {
                    let o5 = string_step(s, start, o4.cur, o4.line);
                    if o5.handled {
                        o5
                    } else {
                        let o6 = single_char_step(s, start, o5.cur, o5.line);
                        if o6.handled {
                            o6
                        } else {
                            let o7 = keyword_step(s, start, o6.cur, o6.line);
                            if o7.handled {
                                o7
                            } else {
                                let o8 = ignored_step(s, start, o7.cur, o7.line);
                                StepOutcome { unterminated: o5.unterminated, ..o8 }
                            }
                        }
                    }
                }
            }
        }
    }
}

/// The result of scanning: the tokens, the lines on which an unterminated
/// string was reported, the final line number, and the start of the last
/// lexeme read.
pub struct ScanResult {
    pub tokens: Seq<TokenView>,
    pub unterminated: Seq<usize>,
    pub line: int,
    pub start: int,
}

/// Scanning the text from position `cur` on line `line`, the last lexeme read
/// having started at `start`.
pub open spec fn scan_from<F: Fn(FloatQuery) -> FloatAnswer>(
    f: F,
    s: Seq<char>,
    cur: int,
    line: int,
    start: int,
) -> ScanResult
    decreases s.len() - cur,
{
    if cur < 0 || cur >= s.len() {
        ScanResult { tokens: Seq::empty(), unterminated: Seq::empty(), line, start }
    } else {
        let o = scan_step(f, s, cur, line);
        proof {
            lemma_step_advances(f, s, cur, line);
        }
        let rest = scan_from(f, s, o.cur, o.line, cur);
        ScanResult {
            tokens: outcome_tokens(o) + rest.tokens,
            unterminated: outcome_reports(o) + rest.unterminated,
            line: rest.line,
            start: rest.start,
        }
    }
}

proof fn lemma_skip_digits(s: Seq<char>, i: int)
    requires
        0 <= i,
    ensures
        i <= skip_digits(s, i),
        i <= s.len() ==> skip_digits(s, i) <= s.len(),
    decreases s.len() - i,
{
    if 0 <= i < s.len() && is_digit_char(s[i]) {
        lemma_skip_digits(s, i + 1);
    }
}

proof fn lemma_skip_alphanumeric(s: Seq<char>, i: int)
    requires
        0 <= i,
    ensures
        i <= skip_alphanumeric(s, i),
        i <= s.len() ==> skip_alphanumeric(s, i) <= s.len(),
    decreases s.len() - i,
{
    if 0 <= i < s.len() && (is_letter_char(s[i]) || is_digit_char(s[i])) {
        lemma_skip_alphanumeric(s, i + 1);
    }
}

proof fn lemma_skip_letters(s: Seq<char>, i: int)
    requires
        0 <= i,
    ensures
        i <= skip_letters(s, i),
        i <= s.len() ==> skip_letters(s, i) <= s.len(),
    decreases s.len() - i,
{
    if 0 <= i < s.len() && is_letter_char(s[i]) {
        lemma_skip_letters(s, i + 1);
    }
}

proof fn lemma_line_end(s: Seq<char>, i: int)
    requires
        0 <= i <= s.len(),
    ensures
        i <= line_end(s, i) <= s.len(),
    decreases s.len() - i,
{
    if i < s.len() && s[i] != '\n' {
        lemma_line_end(s, i + 1);
    }
}

proof fn lemma_string_end(s: Seq<char>, i: int, quote: char, line: int)
    requires
        0 <= i <= s.len(),
    ensures
        i <= string_end(s, i, quote, line).0 <= s.len(),
        line <= string_end(s, i, quote, line).1,
        string_end(s, i, quote, line).1 - line <= string_end(s, i, quote, line).0 - i,
    decreases s.len() - i,
{
    if 0 <= i < s.len() && s[i] != quote {
        lemma_string_end(s, i + 1, quote, if s[i] == '\n' { line + 1 } else { line });
    }
}

/// Reading a character moves past it, stays within the text, and never
/// lowers the line number.
pub proof fn lemma_step_advances<F: Fn(FloatQuery) -> FloatAnswer>(
    f: F,
    s: Seq<char>,
    start: int,
    line: int,
)
    requires
        0 <= start < s.len(),
    ensures
        start < scan_step(f, s, start, line).cur <= s.len(),
        line <= scan_step(f, s, start, line).line,
        scan_step(f, s, start, line).line - line <= scan_step(f, s, start, line).cur - start,
{
    let cur = start + 1;
    let n = match_next(s, cur, '=');
    lemma_line_end(s, match_next(s, n, '/'));
    lemma_skip_alphanumeric(s, n);
    lemma_skip_digits(s, n);
    let e = skip_digits(s, n);
    lemma_skip_digits(s, e + 1);
    lemma_skip_alphanumeric(s, n);
    let e3 = skip_alphanumeric(s, n);
    lemma_skip_digits(s, e3);
    let e4 = skip_digits(s, e3);
    lemma_skip_digits(s, e4 + 1);
    lemma_string_end(s, n, s[start], line);
    lemma_string_end(s, e3, s[start], line);
    let ee = number_end(s, n);
    lemma_skip_letters(s, n);
    lemma_skip_letters(s, e3);
    lemma_skip_letters(s, ee);
    lemma_string_end(s, ee, s[start], line);
    let (se, sl) = string_end(s, n, s[start], line);
    lemma_skip_letters(s, se);
    lemma_skip_letters(s, se + 1);
}

/// Scanning never lowers the line number, and raises it by at most the
/// number of characters read.
pub proof fn lemma_scan_line_grows<F: Fn(FloatQuery) -> FloatAnswer>(
    f: F,
    s: Seq<char>,
    cur: int,
    line: int,
    start: int,
)
    ensures
        line <= scan_from(f, s, cur, line, start).line,
        0 <= cur <= s.len() ==> scan_from(f, s, cur, line, start).line <= line + s.len() - cur,
    decreases s.len() - cur,
{
    if 0 <= cur < s.len() {
        let o = scan_step(f, s, cur, line);
        lemma_step_advances(f, s, cur, line);
        lemma_scan_line_grows(f, s, o.cur, o.line, cur);
    }
}

/// Each recognizer in turn starts where the previous one stopped, within the
/// text, and the line number only grows along the way.
pub proof fn lemma_step_bounds<F: Fn(FloatQuery) -> FloatAnswer>(
    f: F,
    s: Seq<char>,
    start: int,
    line: int,
)
    requires
        0 <= start < s.len(),
    ensures
        ({
            let o1 = comparator_step(s, start, start + 1, line);
            let o2 = comment_step(s, start, o1.cur, o1.line);
            let o3 = identifier_step(s, start, o2.cur, o2.line);
            let o4 = numeric_step(f, s, start, o3.cur, o3.line);
            let o5 = string_step(s, start, o4.cur, o4.line);
            let o6 = single_char_step(s, start, o5.cur, o5.line);
            let o7 = keyword_step(s, start, o6.cur, o6.line);
            let o8 = ignored_step(s, start, o7.cur, o7.line);
            &&& start < o1.cur <= o2.cur <= o3.cur <= o4.cur <= o5.cur <= o6.cur <= o7.cur <= o8.cur <= s.len()
            &&& o1.line == line && o2.line == line && o3.line == line && o4.line == line
            &&& line <= o5.line && o6.line == o5.line && o7.line == o6.line && o7.line <= o8.line
            &&& !o4.handled ==> o4.cur <= s.len()
            &&& o5.line <= scan_step(f, s, start, line).line || o1.handled || o2.handled || o3.handled || o4.handled
        }),
{
    let o1 = comparator_step(s, start, start + 1, line);
    let o2 = comment_step(s, start, o1.cur, o1.line);
    let o3 = identifier_step(s, start, o2.cur, o2.line);
    let o4 = numeric_step(f, s, start, o3.cur, o3.line);
    let o5 = string_step(s, start, o4.cur, o4.line);
    let o6 = single_char_step(s, start, o5.cur, o5.line);
    let o7 = keyword_step(s, start, o6.cur, o6.line);
    lemma_line_end(s, match_next(s, o1.cur, '/'));
    lemma_skip_alphanumeric(s, o2.cur);
    lemma_skip_digits(s, o3.cur);
    let e = skip_digits(s, o3.cur);
    lemma_skip_digits(s, e + 1);
    lemma_string_end(s, o4.cur, s[start], line);
    lemma_skip_letters(s, o6.cur);
}

// ---------------------------------------------------------------------------
// The scanner.
// ---------------------------------------------------------------------------

/// Builds a [`Scanner`]; the position and line default to zero.
pub struct ScannerBuilder {
    source: String,
    line: usize,
    current: usize,
    start: usize,
}

/// The mathematical content of a [`ScannerBuilder`].
pub struct ScannerBuilderView {
    pub source: Seq<char>,
    pub line: usize,
    pub current: usize,
    pub start: usize,
}

impl View for ScannerBuilder {
    type V = ScannerBuilderView;

    closed spec fn view(&self) -> ScannerBuilderView {
        ScannerBuilderView {
            source: self.source@,
            line: self.line,
            current: self.current,
            start: self.start,
        }
    }
}

impl Default for ScannerBuilder {
    fn default() -> (r: Self)
        ensures
            r@ == (ScannerBuilderView { source: Seq::empty(), line: 0, current: 0, start: 0 }),
    {
        ScannerBuilder { source: String::new(), line: 0, current: 0, start: 0 }
    }
}

impl ScannerBuilder {
    /// Sets the source text.
    pub fn source(self, source: &str) -> (r: ScannerBuilder)
        ensures
            r@ == (ScannerBuilderView { source: source@, ..self@ }),
    {
        ScannerBuilder { source: text(source), ..self }
    }

    /// Sets the line number to start counting from.
    pub fn _line(self, line: usize) -> (r: ScannerBuilder)
        ensures
            r@ == (ScannerBuilderView { line, ..self@ }),
    {
        ScannerBuilder { line, ..self }
    }

    /// Sets the start of the current lexeme.
    pub fn _start(self, start: usize) -> (r: ScannerBuilder)
        ensures
            r@ == (ScannerBuilderView { start, ..self@ }),
    {
        ScannerBuilder { start, ..self }
    }

    /// Sets the position to read from.
    pub fn _current(self, current: usize) -> (r: ScannerBuilder)
        ensures
            r@ == (ScannerBuilderView { current, ..self@ }),
    {
        ScannerBuilder { current, ..self }
    }

    /// The scanner for the source, positions and line set so far, holding no
    /// tokens yet.
    pub fn build(self) -> (r: Scanner)
        ensures
            r@ == (ScannerView {
                source: self@.source,
                tokens: Seq::empty(),
                start: self@.start,
                current: self@.current,
                line: self@.line,
                unterminated: Seq::empty(),
            }),
    {
        Scanner::new(self.source.as_str(), self.start, self.current, self.line)
    }
}

/// Reads a source text into tokens.
pub struct Scanner {
    source: Vec<char>,
    tokens: Vec<Token>,
    start: usize,
    current: usize,
    line: usize,
    unterminated: Vec<usize>,
}

/// The mathematical content of a [`Scanner`]: its source, the tokens read so
/// far, the start of the current lexeme, the reading position, the line, and
/// the lines on which an unterminated string was reported.
pub struct ScannerView {
    pub source: Seq<char>,
    pub tokens: Seq<TokenView>,
    pub start: usize,
    pub current: usize,
    pub line: usize,
    pub unterminated: Seq<usize>,
}

/// The views of a sequence of tokens.
pub open spec fn token_views(ts: Seq<Token>) -> Seq<TokenView> {
    ts.map_values(|t: Token| t@)
}

impl View for Scanner {
    type V = ScannerView;

    closed spec fn view(&self) -> ScannerView {
        ScannerView {
            source: self.source@,
            tokens: token_views(self.tokens@),
            start: self.start,
            current: self.current,
            line: self.line,
            unterminated: self.unterminated@,
        }
    }
}

/// The end-of-text token on a line.
pub open spec fn eof_token(line: int) -> TokenView {
    TokenView { kind: TokenKind::Eof, lexeme: Seq::empty(), literal: None, line: line as usize }
}

impl Scanner {
    fn new(source: &str, start: usize, current: usize, line: usize) -> (r: Self)
        ensures
            r@ == (ScannerView {
                source: source@,
                tokens: Seq::empty(),
                start,
                current,
                line,
                unterminated: Seq::empty(),
            }),
    {
        let r = Scanner {
            source: chars_of(source),
            tokens: Vec::new(),
            start,
            current,
            line,
            unterminated: Vec::new(),
        };
        assert(token_views(r.tokens@) =~= Seq::empty());
        r
    }

    /// A builder with an empty source.
    pub fn builder() -> (r: ScannerBuilder)
        ensures
            r@ == (ScannerBuilderView { source: Seq::empty(), line: 0, current: 0, start: 0 }),
    {
        ScannerBuilder::default()
    }

    /// The tokens read so far.
    pub fn tokens(&self) -> (r: &Vec<Token>)
        ensures
            token_views(r@) == self@.tokens,
    {
        &self.tokens
    }

    /// The lines on which an unterminated string was reported.
    pub fn unterminated_string_lines(&self) -> (r: &Vec<usize>)
        ensures
            r@ == self@.unterminated,
    {
        &self.unterminated
    }
}


/// The tokens an outcome adds.
pub open spec fn outcome_tokens(o: StepOutcome) -> Seq<TokenView> {
    match o.token {
        Some(t) => seq![t],
        None => Seq::empty(),
    }
}

/// The report lines an outcome adds.
pub open spec fn outcome_reports(o: StepOutcome) -> Seq<usize> {
    if o.unterminated {
        seq![o.line as usize]
    } else {
        Seq::empty()
    }
}

/// Whether the text `chars[start..end]` contains `c`.
fn contains_char(chars: &Vec<char>, start: usize, end: usize, c: char) -> (r: bool)
    requires
        start <= end <= chars.len(),
    ensures
        r == chars@.subrange(start as int, end as int).contains(c),
{
    let ghost t = chars@.subrange(start as int, end as int);
    let mut i = start;
    while i < end
        invariant
            start <= i <= end <= chars.len(),
            t == chars@.subrange(start as int, end as int),
            forall|j: int| start <= j < i ==> chars@[j] != c,
        decreases end - i,
    {
        if chars[i] == c {
            assert(t[i - start] == c);
            return true;
        }
        i = i + 1;
    }
    assert forall|j: int| 0 <= j < t.len() implies t[j] != c by {
        assert(t[j] == chars@[start + j]);
    }
    false
}

/// Whether the text `chars[start..end]` is a decimal fraction.
fn decimal_fraction(chars: &Vec<char>, start: usize, end: usize) -> (r: bool)
    requires
        start <= end <= chars.len(),
    ensures
        r == is_decimal_fraction(chars@.subrange(start as int, end as int)),
{
    let ghost t = chars@.subrange(start as int, end as int);
    assert(forall|j: int| 0 <= j < t.len() ==> t[j] == chars@[start + j]);
    let mut k = start;
    while k < end && char_is_ascii_digit(chars[k])
        invariant
            start <= k <= end <= chars.len(),
            forall|j: int| start <= j < k ==> is_digit_char(#[trigger] chars@[j]),
        decreases end - k,
    {
        k = k + 1;
    }
    // `k` is the first position that is not a digit.
    let ghost kk = k - start;
    assert(forall|j: int| 0 <= j < kk ==> is_digit_char(#[trigger] t[j]));
    assert(kk < t.len() ==> !is_digit_char(t[kk]));
    if k == start || end - k <= 1 || chars[k] != '.' {
        assert forall|m: int|
            0 < m < t.len() - 1 && #[trigger] t[m] == '.' && all_digits(t.subrange(0, m))
                && all_digits(t.subrange(m + 1, t.len() as int)) implies false by {
            if m < kk {
                assert(is_digit_char(t[m]));
            } else if m > kk {
                assert(t.subrange(0, m)[kk] == t[kk]);
            }
        }
        return false;
    }
    let mut i = k + 1;
    while i < end
        invariant
            start <= k < i <= end <= chars.len(),
            kk == k - start,
            t == chars@.subrange(start as int, end as int),
            forall|j: int| 0 <= j < kk ==> is_digit_char(#[trigger] t[j]),
            t[kk] == '.',
            end - k > 1,
            forall|j: int| k < j < i ==> is_digit_char(#[trigger] chars@[j]),
        decreases end - i,
    {
        if !char_is_ascii_digit(chars[i]) {
            assert forall|m: int|
                0 < m < t.len() - 1 && #[trigger] t[m] == '.' && all_digits(t.subrange(0, m))
                    && all_digits(t.subrange(m + 1, t.len() as int)) implies false by {
                if m < kk {
                    assert(is_digit_char(t[m]));
                } else if m > kk {
                    assert(t.subrange(0, m)[kk] == t[kk]);
                } else {
                    assert(t[i - start] == chars@[i as int]);
                    assert(t.subrange(m + 1, t.len() as int)[i - start - m - 1] == t[i - start]);
                }
            }
            return false;
        }
        i = i + 1;
    }
    assert(all_digits(t.subrange(0, kk))) by {
        assert forall|j: int| 0 <= j < kk implies is_digit_char(#[trigger] t.subrange(0, kk)[j]) by {
            assert(t.subrange(0, kk)[j] == t[j]);
        }
    }
    assert(all_digits(t.subrange(kk + 1, t.len() as int))) by {
        assert forall|j: int| 0 <= j < t.len() - kk - 1 implies is_digit_char(
            #[trigger] t.subrange(kk + 1, t.len() as int)[j],
        ) by {
            assert(t.subrange(kk + 1, t.len() as int)[j] == t[kk + 1 + j]);
        }
    }
    assert(t[kk] == '.');
    true
}

impl Scanner {
    /// The scanner is reading the character at `start`.
    spec fn reading(self) -> bool {
        &&& self.start < self.current <= self.source@.len()
        &&& self.source@.len() < usize::MAX
        &&& is_ascii_text(self.source@)
    }

    /// The scanner went from `old` as the outcome `o` says.
    spec fn follows(self, old: Scanner, o: StepOutcome) -> bool {
        &&& self.source@ == old.source@
        &&& self.start == old.start
        &&& self.current == o.cur
        &&& self.line == o.line
        &&& token_views(self.tokens@) == token_views(old.tokens@) + outcome_tokens(o)
        &&& self.unterminated@ == old.unterminated@ + outcome_reports(o)
    }

    fn is_at_end(&self) -> (r: bool)
        ensures
            r == (self.current >= self.source@.len()),
    {
        self.current >= self.source.len()
    }

    fn advance(&mut self) -> (r: Option<char>)
        requires
            old(self).current < usize::MAX,
        ensures
            final(self).current == old(self).current + 1,
            final(self).source == old(self).source,
            final(self).tokens == old(self).tokens,
            final(self).start == old(self).start,
            final(self).line == old(self).line,
            final(self).unterminated == old(self).unterminated,
            r == (if old(self).current < old(self).source@.len() {
                Some(old(self).source@[old(self).current as int])
            } else {
                None::<char>
            }),
    {
        self.current = self.current + 1;
        if self.current - 1 < self.source.len() {
            Some(self.source[self.current - 1])
        } else {
            None
        }
    }

    fn peek(&self, to: usize) -> (r: Option<char>)
        requires
            self.current + to <= usize::MAX,
        ensures
            r == Some(char_at(self.source@, self.current + to)),
    {
        let to_index = self.current + to;
        if self.is_at_end() || to_index >= self.source.len() {
            return Some('\0');
        }
        Some(self.source[to_index])
    }

    fn next_match_char(&mut self, expected: char) -> (r: bool)
        requires
            old(self).current <= old(self).source@.len(),
            old(self).source@.len() < usize::MAX,
        ensures
            final(self).current == match_next(old(self).source@, old(self).current as int, expected),
            r == (final(self).current != old(self).current),
            final(self).source == old(self).source,
            final(self).tokens == old(self).tokens,
            final(self).start == old(self).start,
            final(self).line == old(self).line,
            final(self).unterminated == old(self).unterminated,
    {
        if self.is_at_end() {
            return false;
        }
        if self.source[self.current] != expected {
            return false;
        }
        self.current = self.current + 1;
        true
    }

    fn get_string(&self) -> (r: String)
        requires
            self.start <= self.current <= self.source@.len(),
        ensures
            r@ == self.source@.subrange(self.start as int, self.current as int),
    {
        string_from_chars(&self.source, self.start, self.current)
    }

    fn add_token(&mut self, kind: TokenKind, literal: Option<Literal>)
        requires
            old(self).start <= old(self).current <= old(self).source@.len(),
        ensures
            token_views(final(self).tokens@) == token_views(old(self).tokens@) + seq![
                TokenView {
                    kind,
                    lexeme: old(self).source@.subrange(old(self).start as int, old(self).current as int),
                    literal: crate::token::literal_view(literal),
                    line: old(self).line,
                },
            ],
            final(self).source == old(self).source,
            final(self).start == old(self).start,
            final(self).current == old(self).current,
            final(self).line == old(self).line,
            final(self).unterminated == old(self).unterminated,
    {
        let lexeme = self.get_string();
        let token = Token { kind, lexeme, literal, line: self.line };
        self.tokens.push(token);
        assert(token_views(self.tokens@) =~= token_views(old(self).tokens@) + seq![token@]);
    }

    fn process_comparator_char_token(&mut self, c: char) -> (r: bool)
        requires
            old(self).reading(),
            c == old(self).source@[old(self).start as int],
        ensures
            final(self).follows(
                *old(self),
                comparator_step(old(self).source@, old(self).start as int, old(self).current as int, old(self).line as int),
            ),
            r == comparator_step(old(self).source@, old(self).start as int, old(self).current as int, old(self).line as int).handled,
    {
        let next_match_equal = self.next_match_char('=');
        if c == '!' {
            self.add_token(if next_match_equal { TokenKind::BangEqual } else { TokenKind::Bang }, None);
        } else if c == '=' {
            self.add_token(if next_match_equal { TokenKind::EqualEqual } else { TokenKind::Equal }, None);
        } else if c == '<' {
            self.add_token(if next_match_equal { TokenKind::LessEqual } else { TokenKind::Less }, None);
        } else if c == '>' {
            self.add_token(if next_match_equal { TokenKind::GreaterEqual } else { TokenKind::Greater }, None);
        } else {
            assert(token_views(self.tokens@) =~= token_views(old(self).tokens@) + Seq::empty());
            assert(self.unterminated@ =~= old(self).unterminated@ + Seq::empty());
            return false;
        }
        assert(self.unterminated@ =~= old(self).unterminated@ + Seq::empty());
        true
    }

    fn process_comment_char_token(&mut self, c: char) -> (r: bool)
        requires
            old(self).reading(),
            c == old(self).source@[old(self).start as int],
        ensures
            final(self).follows(
                *old(self),
                comment_step(old(self).source@, old(self).start as int, old(self).current as int, old(self).line as int),
            ),
            r == comment_step(old(self).source@, old(self).start as int, old(self).current as int, old(self).line as int).handled,
    {
        let ghost s = self.source@;
        assert(self.unterminated@ =~= old(self).unterminated@ + Seq::empty());
        assert(token_views(self.tokens@) =~= token_views(old(self).tokens@) + Seq::empty());
        if c != '/' {
            return false;
        }
        if self.next_match_char('/') {
            // A comment goes until the end of the line.
            let ghost n = self.current as int;
            let mut at_new_line = false;
            while !at_new_line && !self.is_at_end()
                invariant
                    self.source == old(self).source,
                    self.source@ == s,
                    s.len() < usize::MAX,
                    n <= self.current <= s.len(),
                    line_end(s, self.current as int) == line_end(s, n),
                    at_new_line ==> self.current < s.len() && s[self.current as int] == '\n',
                    self.start == old(self).start,
                    self.line == old(self).line,
                    self.tokens == old(self).tokens,
                    self.unterminated == old(self).unterminated,
                decreases s.len() - self.current + if at_new_line { 0int } else { 1int },
            {
                if let Some(v) = self.peek(0) {
                    if v != '\n' {
                        self.advance();
                    } else {
                        at_new_line = true;
                    }
                }
            }
            true
        } else {
            false
        }
    }

    fn process_identifier_token(&mut self, c: char) -> (r: bool)
        requires
            old(self).reading(),
            c == old(self).source@[old(self).start as int],
        ensures
            final(self).follows(
                *old(self),
                identifier_step(old(self).source@, old(self).start as int, old(self).current as int, old(self).line as int),
            ),
            r == identifier_step(old(self).source@, old(self).start as int, old(self).current as int, old(self).line as int).handled,
    {
        let ghost s = self.source@;
        assert(self.unterminated@ =~= old(self).unterminated@ + Seq::empty());
        assert(token_views(self.tokens@) =~= token_views(old(self).tokens@) + Seq::empty());
        assert(is_ascii_char(s[self.start as int]));
        if char_is_alphabetic(c) {
            let ghost e = skip_alphanumeric(s, self.current as int);
            proof {
                lemma_skip_alphanumeric(s, self.current as int);
            }
            // Consume next character until we reach a non alpha-numeric character
            loop
                invariant
                    self.source == old(self).source,
                    self.source@ == s,
                    is_ascii_text(s),
                    s.len() < usize::MAX,
                    old(self).current <= self.current <= e <= s.len(),
                    skip_alphanumeric(s, self.current as int) == e,
                    self.start == old(self).start,
                    self.line == old(self).line,
                    self.tokens == old(self).tokens,
                    self.unterminated == old(self).unterminated,
                ensures
                    self.current == e,
                decreases s.len() - self.current,
            {
                let current = self.peek(0);
                proof {
                    if self.current < s.len() {
                        assert(is_ascii_char(s[self.current as int]));
                    }
                }
                if current.is_some() && char_is_alphanumeric(current.unwrap()) {
                    self.advance();
                    proof {
                        lemma_skip_alphanumeric(s, self.current as int);
                    }
                } else {
                    break;
                }
            }
            // check if there is a reserved keyword
            if keyword(&self.source, self.start, self.current).is_some() {
                return false;
            }
            self.add_token(TokenKind::Identifier, None);
            true
        } else {
            false
        }
    }

    fn skip_numeric(&mut self)
        requires
            old(self).start < old(self).current <= old(self).source@.len(),
            old(self).source@.len() < usize::MAX,
            is_ascii_text(old(self).source@),
        ensures
            final(self).current == skip_digits(old(self).source@, old(self).current as int),
            final(self).source == old(self).source,
            final(self).tokens == old(self).tokens,
            final(self).start == old(self).start,
            final(self).line == old(self).line,
            final(self).unterminated == old(self).unterminated,
    {
        let ghost s = self.source@;
        let ghost e = skip_digits(s, self.current as int);
        proof {
            lemma_skip_digits(s, self.current as int);
        }
        loop
            invariant
                self.source == old(self).source,
                    self.source@ == s,
                is_ascii_text(s),
                s.len() < usize::MAX,
                old(self).current <= self.current <= e <= s.len(),
                skip_digits(s, self.current as int) == e,
                self.start == old(self).start,
                self.line == old(self).line,
                self.tokens == old(self).tokens,
                self.unterminated == old(self).unterminated,
            ensures
                self.current == e,
            decreases s.len() - self.current,
        {
            let current = self.peek(0);
            proof {
                if self.current < s.len() {
                    assert(is_ascii_char(s[self.current as int]));
                }
            }
            if current.is_some() && char_is_numeric(current.unwrap()) {
                self.advance();
                proof {
                    lemma_skip_digits(s, self.current as int);
                }
            } else {
                break;
            }
        }
    }

    fn process_numeric_token<F: Fn(FloatQuery) -> FloatAnswer>(&mut self, c: char, floats: &F) -> (r: bool)
        requires
            engine_ok(*floats),
            old(self).reading(),
            c == old(self).source@[old(self).start as int],
        ensures
            final(self).follows(
                *old(self),
                numeric_step(*floats, old(self).source@, old(self).start as int, old(self).current as int, old(self).line as int),
            ),
            r == numeric_step(*floats, old(self).source@, old(self).start as int, old(self).current as int, old(self).line as int).handled,
    {
        let ghost s = self.source@;
        let ghost start = self.start as int;
        assert(self.unterminated@ =~= old(self).unterminated@ + Seq::empty());
        assert(token_views(self.tokens@) =~= token_views(old(self).tokens@) + Seq::empty());
        if char_is_ascii_digit(c) {
            self.skip_numeric();
            let ghost e = self.current as int;
            proof {
                lemma_skip_digits(s, old(self).current as int);
            }
            // Look for a fractional part.
            if let Some(v) = self.peek(0) {
                if v == '.' {
                    let next = self.peek(1);
                    proof {
                        if e + 1 < s.len() {
                            assert(is_ascii_char(s[e + 1]));
                        }
                    }
                    if next.is_some() && char_is_numeric(next.unwrap()) {
                        // Consume the "."
                        self.advance();
                        self.skip_numeric();
                        proof {
                            lemma_skip_digits(s, e + 1);
                        }
                    }
                }
            }
            assert(self.current == number_end(s, old(self).current as int));
            let ghost t = s.subrange(start, self.current as int);
            if contains_char(&self.source, self.start, self.current, '.') {
                if decimal_fraction(&self.source, self.start, self.current) {
                    let string = self.get_string();
                    let bits = ask_float(floats, FloatQuery::Parse(string));
                    self.add_token(TokenKind::Number, Some(Literal::float(bits)));
                    true
                } else {
                    false
                }
            } else {
                let string = self.get_string();
                assert(t.len() > 0 && is_digit_char(t[0]));
                match parse_i32(string.as_str()) {
                    Some(n) => {
                        proof {
                            if !all_digits(t) {
                                let i = choose|i: int| 0 <= i < t.len() && !is_digit_char(#[trigger] t[i]);
                                assert(i >= 1);
                            }
                        }
                        self.add_token(TokenKind::Number, Some(Literal::number(n)));
                        true
                    },
                    None => {
                        proof {
                            if !all_digits(t) {
                                let i = choose|i: int| 0 <= i < t.len() && !is_digit_char(#[trigger] t[i]);
                                assert(i >= 1);
                            }
                        }
                        false
                    },
                }
            }
        } else {
            false
        }
    }

    fn process_string_token(&mut self, c: char) -> (r: bool)
        requires
            old(self).reading(),
            c == old(self).source@[old(self).start as int],
            string_step(old(self).source@, old(self).start as int, old(self).current as int, old(self).line as int).line <= usize::MAX,
        ensures
            final(self).follows(
                *old(self),
                string_step(old(self).source@, old(self).start as int, old(self).current as int, old(self).line as int),
            ),
            r == string_step(old(self).source@, old(self).start as int, old(self).current as int, old(self).line as int).handled,
    {
        let ghost s = self.source@;
        let ghost o = string_step(s, self.start as int, self.current as int, self.line as int);
        assert(self.unterminated@ =~= old(self).unterminated@ + Seq::empty());
        assert(token_views(self.tokens@) =~= token_views(old(self).tokens@) + Seq::empty());
        if c != '"' && c != '\'' {
            return false;
        }
        let quote = c;
        let ghost fin = string_end(s, self.current as int, quote, self.line as int);
        proof {
            lemma_string_end(s, self.current as int, quote, self.line as int);
        }
        while !self.is_at_end()
            invariant_except_break
                self.source == old(self).source,
                    self.source@ == s,
                s.len() < usize::MAX,
                old(self).current <= self.current <= s.len(),
                string_end(s, self.current as int, quote, self.line as int) == fin,
                self.line <= fin.1 <= usize::MAX,
                self.start == old(self).start,
                self.tokens == old(self).tokens,
                self.unterminated == old(self).unterminated,
            ensures
                self.source == old(self).source,
                    self.source@ == s,
                self.current as int == fin.0,
                self.line as int == fin.1,
                self.start == old(self).start,
                self.tokens == old(self).tokens,
                self.unterminated == old(self).unterminated,
            decreases s.len() - self.current,
        {
            if let Some(p) = self.peek(0) {
                if p == quote {
                    break;
                } else if p == '\n' {
                    proof {
                        lemma_string_end(s, self.current + 1, quote, self.line + 1);
                    }
                    self.line = self.line + 1;
                }
            }
            self.advance();
            proof {
                lemma_string_end(s, self.current as int, quote, self.line as int);
            }
        }
        if self.is_at_end() {
            self.unterminated.push(self.line);
            assert(self.unterminated@ =~= old(self).unterminated@ + seq![self.line]);
            return false;
        }
        // The closing quote.
        self.advance();
        // Trim the surrounding quotes.
        let string = string_from_chars(&self.source, self.start + 1, self.current - 1);
        self.add_token(TokenKind::String, Some(Literal { value: crate::token::LiteralKind::String(string) }));
        true
    }

    fn process_single_char_token(&mut self, c: char) -> (r: bool)
        requires
            old(self).start < old(self).current <= old(self).source@.len(),
            c == old(self).source@[old(self).start as int],
        ensures
            final(self).follows(
                *old(self),
                single_char_step(old(self).source@, old(self).start as int, old(self).current as int, old(self).line as int),
            ),
            r == single_char_step(old(self).source@, old(self).start as int, old(self).current as int, old(self).line as int).handled,
    {
        assert(self.unterminated@ =~= old(self).unterminated@ + Seq::empty());
        assert(token_views(self.tokens@) =~= token_views(old(self).tokens@) + Seq::empty());
        if c == '(' {
            self.add_token(TokenKind::LeftParen, None);
        } else if c == ')' {
            self.add_token(TokenKind::RightParen, None);
        } else if c == '{' {
            self.add_token(TokenKind::LeftBrace, None);
        } else if c == '}' {
            self.add_token(TokenKind::RightBrace, None);
        } else if c == ',' {
            self.add_token(TokenKind::Comma, None);
        } else if c == '.' {
            self.add_token(TokenKind::Dot, None);
        } else if c == '-' {
            self.add_token(TokenKind::Minus, None);
        } else if c == '+' {
            self.add_token(TokenKind::Plus, None);
        } else if c == '/' {
            self.add_token(TokenKind::Slash, None);
        } else if c == '*' {
            self.add_token(TokenKind::Star, None);
        } else if c == ';' {
            self.add_token(TokenKind::SemiColon, None);
        } else {
            return false;
        }
        true
    }

    fn process_keyword_token(&mut self, c: char) -> (r: bool)
        requires
            old(self).start < old(self).current <= old(self).source@.len(),
            old(self).source@.len() < usize::MAX,
            is_ascii_text(old(self).source@),
            c == old(self).source@[old(self).start as int],
        ensures
            final(self).follows(
                *old(self),
                keyword_step(old(self).source@, old(self).start as int, old(self).current as int, old(self).line as int),
            ),
            r == keyword_step(old(self).source@, old(self).start as int, old(self).current as int, old(self).line as int).handled,
    {
        let ghost s = self.source@;
        assert(self.unterminated@ =~= old(self).unterminated@ + Seq::empty());
        assert(token_views(self.tokens@) =~= token_views(old(self).tokens@) + Seq::empty());
        assert(is_ascii_char(s[self.start as int]));
        if char_is_alphanumeric(c) {
            let ghost e = skip_letters(s, self.current as int);
            proof {
                lemma_skip_letters(s, self.current as int);
            }
            // Consume next character until we reach a non alphabetic character
            loop
                invariant
                    self.source == old(self).source,
                    self.source@ == s,
                    is_ascii_text(s),
                    s.len() < usize::MAX,
                    old(self).current <= self.current <= e <= s.len(),
                    skip_letters(s, self.current as int) == e,
                    self.start == old(self).start,
                    self.line == old(self).line,
                    self.tokens == old(self).tokens,
                    self.unterminated == old(self).unterminated,
                ensures
                    self.current == e,
                decreases s.len() - self.current,
            {
                let current = self.peek(0);
                proof {
                    if self.current < s.len() {
                        assert(is_ascii_char(s[self.current as int]));
                    }
                }
                if current.is_some() && char_is_alphabetic(current.unwrap()) {
                    self.advance();
                    proof {
                        lemma_skip_letters(s, self.current as int);
                    }
                } else {
                    break;
                }
            }
            match keyword(&self.source, self.start, self.current) {
                Some(kind) => {
                    self.add_token(kind, None);
                    true
                },
                None => false,
            }
        } else {
            false
        }
    }

    fn process_ignored_char(&mut self, c: char) -> (r: bool)
        requires
            old(self).start < old(self).current <= old(self).source@.len(),
            c == old(self).source@[old(self).start as int],
            ignored_step(old(self).source@, old(self).start as int, old(self).current as int, old(self).line as int).line <= usize::MAX,
        ensures
            final(self).follows(
                *old(self),
                ignored_step(old(self).source@, old(self).start as int, old(self).current as int, old(self).line as int),
            ),
            r == ignored_step(old(self).source@, old(self).start as int, old(self).current as int, old(self).line as int).handled,
    {
        assert(self.unterminated@ =~= old(self).unterminated@ + Seq::empty());
        assert(token_views(self.tokens@) =~= token_views(old(self).tokens@) + Seq::empty());
        if c == ' ' || c == '\r' || c == '\t' {
            true
        } else if c == '\n' {
            self.line = self.line + 1;
            true
        } else {
            false
        }
    }
}

impl Scanner {
    fn process_next_token<F: Fn(FloatQuery) -> FloatAnswer>(&mut self, floats: &F) -> (r: Result<(), ErrorCode>)
        requires
            engine_ok(*floats),
            old(self).start == old(self).current,
            old(self).current < old(self).source@.len() < usize::MAX,
            is_ascii_text(old(self).source@),
            scan_step(*floats, old(self).source@, old(self).current as int, old(self).line as int).line <= usize::MAX,
        ensures
            r is Ok,
            final(self).follows(
                *old(self),
                scan_step(*floats, old(self).source@, old(self).current as int, old(self).line as int),
            ),
    {
        let ghost s = self.source@;
        let ghost start = self.current as int;
        let ghost line = self.line as int;
        let ghost f = *floats;
        let ghost o1 = comparator_step(s, start, start + 1, line);
        let ghost o2 = comment_step(s, start, o1.cur, o1.line);
        let ghost o3 = identifier_step(s, start, o2.cur, o2.line);
        let ghost o4 = numeric_step(f, s, start, o3.cur, o3.line);
        let ghost o5 = string_step(s, start, o4.cur, o4.line);
        let ghost o6 = single_char_step(s, start, o5.cur, o5.line);
        let ghost o7 = keyword_step(s, start, o6.cur, o6.line);
        let ghost o8 = ignored_step(s, start, o7.cur, o7.line);
        proof {
            lemma_step_advances(f, s, start, line);
            lemma_step_bounds(f, s, start, line);
        }
        match self.advance() {
            Some(c) => {
                // Note: The match order is done with priority to avoid matching to the wrong token
                if self.process_comparator_char_token(c) || self.process_comment_char_token(c)
                    || self.process_identifier_token(c) || self.process_numeric_token(c, floats)
                    || self.process_string_token(c) || self.process_single_char_token(c)
                    || self.process_keyword_token(c) || self.process_ignored_char(c) {
                    // Do nothing if the operation succeeds
                }
                Ok(())
            },
            None => Err(ErrorCode::ProcessError),
        }
    }

    /// Reads the rest of the source into tokens and appends them, followed by
    /// an end-of-text token, to the tokens read so far; returns all of them.
    /// Unterminated strings are recorded (see
    /// [`Scanner::unterminated_string_lines`]). Scanning never fails on ASCII
    /// text.
    pub fn scan_tokens<F: Fn(FloatQuery) -> FloatAnswer>(&mut self, floats: &F) -> (r: Result<Vec<Token>, ErrorCode>)
        requires
            engine_ok(*floats),
            is_ascii_text(old(self)@.source),
            old(self)@.source.len() < usize::MAX,
            old(self)@.line + old(self)@.source.len() <= usize::MAX,
        ensures
            ({
                let res = scan_from(
                    *floats,
                    old(self)@.source,
                    old(self)@.current as int,
                    old(self)@.line as int,
                    old(self)@.start as int,
                );
                &&& final(self)@.source == old(self)@.source
                &&& final(self)@.tokens == old(self)@.tokens + res.tokens + seq![eof_token(res.line)]
                &&& final(self)@.unterminated == old(self)@.unterminated + res.unterminated
                &&& final(self)@.line == res.line
                &&& final(self)@.start == res.start
                &&& final(self)@.current == if old(self)@.current < old(self)@.source.len() {
                    old(self)@.source.len() as int
                } else {
                    old(self)@.current as int
                }
                &&& r matches Ok(v) && token_views(v@) == final(self)@.tokens
            }),
    {
        let ghost f = *floats;
        let ghost s = self.source@;
        let ghost total = scan_from(f, s, self.current as int, self.line as int, self.start as int);
        proof {
            lemma_scan_line_grows(f, s, self.current as int, self.line as int, self.start as int);
        }
        let ghost mut done_tokens: Seq<TokenView> = Seq::empty();
        let ghost mut done_reports: Seq<usize> = Seq::empty();
        let ghost old_tokens = token_views(self.tokens@);
        let ghost old_reports = self.unterminated@;
        let ghost cur0 = self.current;
        while !self.is_at_end()
            invariant
                engine_ok(*floats),
                f == *floats,
                self.source@ == s,
                s.len() < usize::MAX,
                is_ascii_text(s),
                total.line <= usize::MAX,
                ({
                    let rest = scan_from(f, s, self.current as int, self.line as int, self.start as int);
                    &&& total.tokens == done_tokens + rest.tokens
                    &&& total.unterminated == done_reports + rest.unterminated
                    &&& total.line == rest.line
                    &&& total.start == rest.start
                }),
                token_views(self.tokens@) == old_tokens + done_tokens,
                self.unterminated@ == old_reports + done_reports,
                cur0 < s.len() ==> self.current <= s.len(),
                cur0 >= s.len() ==> self.current == cur0,
            decreases s.len() - self.current,
        {
            let ghost cur = self.current as int;
            let ghost line = self.line as int;
            let ghost o = scan_step(f, s, cur, line);
            proof {
                lemma_step_advances(f, s, cur, line);
                lemma_scan_line_grows(f, s, o.cur, o.line, cur);
            }
            // Start from the beginning of the next lexeme
            self.start = self.current;
            match self.process_next_token(floats) {
                Ok(()) => {},
                Err(e) => {
                    return Err(e);
                },
            }
            proof {
                let rest = scan_from(f, s, o.cur, o.line, cur);
                assert(total.tokens =~= (done_tokens + outcome_tokens(o)) + rest.tokens);
                assert(total.unterminated =~= (done_reports + outcome_reports(o)) + rest.unterminated);
                done_tokens = done_tokens + outcome_tokens(o);
                done_reports = done_reports + outcome_reports(o);
                assert(token_views(self.tokens@) =~= old_tokens + done_tokens);
                assert(self.unterminated@ =~= old_reports + done_reports);
            }
        }
        let ghost before = token_views(self.tokens@);
        let eof = Token::new(TokenKind::Eof, "", None, self.line);
        proof {
            reveal_strlit("");
            assert(eof.lexeme@ =~= Seq::<char>::empty());
        }
        self.tokens.push(eof);
        proof {
            assert(token_views(self.tokens@) =~= before + seq![eof_token(total.line)]);
            assert(total.tokens =~= done_tokens);
            assert(total.unterminated =~= done_reports);
        }
        let result = self.tokens.clone();
        proof {
            assert forall|i: int| 0 <= i < result@.len() implies result@[i] == self.tokens@[i] by {
                assert(cloned::<Token>(self.tokens@[i], result@[i]));
            }
            assert(token_views(result@) =~= token_views(self.tokens@));
        }
        Ok(result)
    }
}

/// Reading a character never makes an end-of-text token.
proof fn lemma_step_not_eof<F: Fn(FloatQuery) -> FloatAnswer>(f: F, s: Seq<char>, start: int, line: int)
    requires
        0 <= start < s.len(),
    ensures
        scan_step(f, s, start, line).token matches Some(t) ==> t.kind != TokenKind::Eof,
{
}

/// Scanning the text makes no end-of-text token: the only one among the
/// scanner's tokens is the one it adds after the text.
pub proof fn lemma_scan_without_eof<F: Fn(FloatQuery) -> FloatAnswer>(
    f: F,
    s: Seq<char>,
    cur: int,
    line: int,
    start: int,
)
    ensures
        forall|i: int|
            0 <= i < scan_from(f, s, cur, line, start).tokens.len() ==> (#[trigger] scan_from(
                f,
                s,
                cur,
                line,
                start,
            ).tokens[i]).kind != TokenKind::Eof,
    decreases s.len() - cur,
{
    if 0 <= cur < s.len() {
        let o = scan_step(f, s, cur, line);
        lemma_step_advances(f, s, cur, line);
        lemma_step_not_eof(f, s, cur, line);
        lemma_scan_without_eof(f, s, o.cur, o.line, cur);
        let rest = scan_from(f, s, o.cur, o.line, cur);
        assert forall|i: int| 0 <= i < outcome_tokens(o).len() + rest.tokens.len() implies (#[trigger] (
        outcome_tokens(o) + rest.tokens)[i]).kind != TokenKind::Eof by {
            if i >= outcome_tokens(o).len() {
                assert((outcome_tokens(o) + rest.tokens)[i] == rest.tokens[i - outcome_tokens(o).len()]);
            }
        }
    }
}

proof fn lemma_skip_alphanumeric_letters(s: Seq<char>, i: int)
    requires
        0 <= i <= s.len(),
        forall|j: int| i <= j < s.len() ==> is_letter_char(#[trigger] s[j]),
    ensures
        skip_alphanumeric(s, i) == s.len(),
    decreases s.len() - i,
{
    if i < s.len() {
        lemma_skip_alphanumeric_letters(s, i + 1);
    }
}

/// Scanning a text that its first character's reading covers whole gives
/// that reading's token alone.
proof fn lemma_scan_one_step<F: Fn(FloatQuery) -> FloatAnswer>(f: F, s: Seq<char>, line: int, start: int)
    requires
        0 < s.len(),
        scan_step(f, s, 0, line).cur == s.len(),
    ensures
        scan_from(f, s, 0, line, start).tokens == outcome_tokens(scan_step(f, s, 0, line)),
{
    let o = scan_step(f, s, 0, line);
    assert(scan_from(f, s, o.cur, o.line, 0).tokens == Seq::<TokenView>::empty());
    assert(outcome_tokens(o) + Seq::<TokenView>::empty() =~= outcome_tokens(o));
}

/// Showing a kind and scanning the text back gives the kind: the text of an
/// operator, a punctuation mark or a reserved word (see
/// [`TokenKind::to_string`]) scans into one token of that kind, whose lexeme
/// is that text.
pub proof fn lemma_scan_kind_text<F: Fn(FloatQuery) -> FloatAnswer>(f: F, k: TokenKind, line: int, start: int)
    requires
        is_symbol_kind(k) || is_keyword_kind(k),
    ensures
        scan_from(f, kind_text(k), 0, line, start).tokens == seq![
            token_at(k, kind_text(k), 0, kind_text(k).len() as int, None, line),
        ],
{
    let s = kind_text(k);
    lemma_kind_text(k);
    if is_keyword_kind(k) {
        lemma_skip_alphanumeric_letters(s, 1);
        assert(s.subrange(0, s.len() as int) =~= s);
        assert(is_letter_char(s[0]) && is_letter_char(s[1]));
    } else {
        match k {
            TokenKind::LeftParen => {
                reveal_strlit("(");
                assert(s =~= seq!['(']);
            },
            TokenKind::RightParen => {
                reveal_strlit(")");
                assert(s =~= seq![')']);
            },
            TokenKind::LeftBrace => {
                reveal_strlit("{");
                assert(s =~= seq!['{']);
            },
            TokenKind::RightBrace => {
                reveal_strlit("}");
                assert(s =~= seq!['}']);
            },
            TokenKind::Comma => {
                reveal_strlit(",");
                assert(s =~= seq![',']);
            },
            TokenKind::Dot => {
                reveal_strlit(".");
                assert(s =~= seq!['.']);
            },
            TokenKind::SemiColon => {
                reveal_strlit(";");
                assert(s =~= seq![';']);
            },
            TokenKind::Minus => {
                reveal_strlit("-");
                assert(s =~= seq!['-']);
            },
            TokenKind::Plus => {
                reveal_strlit("+");
                assert(s =~= seq!['+']);
            },
            TokenKind::Slash => {
                reveal_strlit("/");
                assert(s =~= seq!['/']);
            },
            TokenKind::Star => {
                reveal_strlit("*");
                assert(s =~= seq!['*']);
            },
            TokenKind::Bang => {
                reveal_strlit("!");
                assert(s =~= seq!['!']);
            },
            TokenKind::BangEqual => {
                reveal_strlit("!=");
                assert(s =~= seq!['!', '=']);
            },
            TokenKind::Equal => {
                reveal_strlit("=");
                assert(s =~= seq!['=']);
            },
            TokenKind::EqualEqual => {
                reveal_strlit("==");
                assert(s =~= seq!['=', '=']);
            },
            TokenKind::Greater => {
                reveal_strlit(">");
                assert(s =~= seq!['>']);
            },
            TokenKind::GreaterEqual => {
                reveal_strlit(">=");
                assert(s =~= seq!['>', '=']);
            },
            TokenKind::Less => {
                reveal_strlit("<");
                assert(s =~= seq!['<']);
            },
            TokenKind::LessEqual => {
                reveal_strlit("<=");
                assert(s =~= seq!['<', '=']);
            },
            _ => {},
        }
    }
    lemma_scan_one_step(f, s, line, start);
}

proof fn lemma_skip_digits_all(s: Seq<char>, i: int)
    requires
        0 <= i <= s.len(),
        forall|j: int| i <= j < s.len() ==> is_digit_char(#[trigger] s[j]),
    ensures
        skip_digits(s, i) == s.len(),
    decreases s.len() - i,
{
    if i < s.len() {
        lemma_skip_digits_all(s, i + 1);
    }
}

proof fn lemma_skip_alphanumeric_all(s: Seq<char>, i: int)
    requires
        0 <= i <= s.len(),
        forall|j: int| i <= j < s.len() ==> is_letter_char(#[trigger] s[j]) || is_digit_char(s[j]),
    ensures
        skip_alphanumeric(s, i) == s.len(),
    decreases s.len() - i,
{
    if i < s.len() {
        lemma_skip_alphanumeric_all(s, i + 1);
    }
}

/// A run of digits whose value fits in an `i32` scans into one number token:
/// its lexeme is the run and its literal the integer the digits spell.
pub proof fn lemma_scan_digits<F: Fn(FloatQuery) -> FloatAnswer>(f: F, t: Seq<char>, line: int, start: int)
    requires
        t.len() > 0,
        all_digits(t),
        digits_value(t) <= i32::MAX,
    ensures
        scan_from(f, t, 0, line, start).tokens == seq![
            TokenView {
                kind: TokenKind::Number,
                lexeme: t,
                literal: Some(LiteralView::Number(digits_value(t) as i32)),
                line: line as usize,
            },
        ],
{
    assert(is_digit_char(t[0]));
    if t.len() > 1 {
        assert(is_digit_char(t[1]));
    }
    lemma_skip_digits_all(t, 1);
    assert(t.subrange(0, t.len() as int) =~= t);
    assert(!t.contains('.')) by {
        if t.contains('.') {
            let i = choose|i: int| 0 <= i < t.len() && t[i] == '.';
            assert(is_digit_char(t[i]));
        }
    }
    lemma_scan_one_step(f, t, line, start);
}

/// A word that starts with a letter, holds only letters and digits and is
/// not reserved scans into one identifier token, whose lexeme is the word.
pub proof fn lemma_scan_identifier<F: Fn(FloatQuery) -> FloatAnswer>(f: F, w: Seq<char>, line: int, start: int)
    requires
        w.len() > 0,
        is_letter_char(w[0]),
        forall|i: int| 0 <= i < w.len() ==> is_letter_char(#[trigger] w[i]) || is_digit_char(w[i]),
        keyword_kind(w) is None,
    ensures
        scan_from(f, w, 0, line, start).tokens == seq![
            TokenView { kind: TokenKind::Identifier, lexeme: w, literal: None, line: line as usize },
        ],
{
    if w.len() > 1 {
        assert(is_letter_char(w[1]) || is_digit_char(w[1]));
    }
    lemma_skip_alphanumeric_all(w, 1);
    assert(w.subrange(0, w.len() as int) =~= w);
    lemma_scan_one_step(f, w, line, start);
}

/// The number of new lines in a text.
pub open spec fn count_newlines(t: Seq<char>) -> nat
    decreases t.len(),
{
    if t.len() == 0 {
        0
    } else {
        (if t[0] == '\n' { 1nat } else { 0nat }) + count_newlines(t.subrange(1, t.len() as int))
    }
}

/// Where the search for a closing quote stops: at the first `quote` at or
/// after `i`, or at the end of the text, having counted the new lines passed.
proof fn lemma_string_end_stops(s: Seq<char>, i: int, quote: char, line: int)
    requires
        0 <= i <= s.len(),
    ensures
        i <= string_end(s, i, quote, line).0 <= s.len(),
        forall|k: int| i <= k < string_end(s, i, quote, line).0 ==> s[k] != quote,
        string_end(s, i, quote, line).0 < s.len() ==> s[string_end(s, i, quote, line).0] == quote,
        string_end(s, i, quote, line).1 == line + count_newlines(s.subrange(i, string_end(s, i, quote, line).0)),
    decreases s.len() - i,
{
    let e = string_end(s, i, quote, line).0;
    if i < s.len() && s[i] != quote {
        let next = if s[i] == '\n' { line + 1 } else { line };
        lemma_string_end_stops(s, i + 1, quote, next);
        assert(s.subrange(i, e).subrange(1, e - i) =~= s.subrange(i + 1, e));
    } else {
        assert(s.subrange(i, e) =~= Seq::<char>::empty());
    }
}

/// A quoted string ends at the first quote of the kind that opened it, the
/// other kind of quote standing inside it as any character does. A closed
/// string gives a string token whose lexeme runs from the opening quote to
/// the closing one and whose literal is what lies between them; the line
/// number grows by the new lines inside. A string that is never closed
/// takes the rest of the text, gives no token and is reported.
pub proof fn lemma_string_ends_at_its_quote(s: Seq<char>, start: int, cur: int, line: int)
    requires
        0 <= start < cur <= s.len(),
        s[start] == '"' || s[start] == '\'',
    ensures
        ({
            let o = string_step(s, start, cur, line);
            let q = s[start];
            &&& o.handled ==> {
                &&& cur < o.cur <= s.len()
                &&& s[o.cur - 1] == q
                &&& forall|k: int| cur <= k < o.cur - 1 ==> s[k] != q
                &&& o.line == line + count_newlines(s.subrange(cur, o.cur - 1))
                &&& !o.unterminated
                &&& o.token == Some(
                    TokenView {
                        kind: TokenKind::String,
                        lexeme: s.subrange(start, o.cur),
                        literal: Some(LiteralView::String(s.subrange(start + 1, o.cur - 1))),
                        line: o.line as usize,
                    },
                )
            }
            &&& !o.handled ==> {
                &&& o.unterminated
                &&& o.cur == s.len()
                &&& o.token is None
                &&& forall|k: int| cur <= k < s.len() ==> s[k] != q
                &&& o.line == line + count_newlines(s.subrange(cur, s.len() as int))
            }
        }),
{
    lemma_string_end_stops(s, cur, s[start], line);
}

/// Scanning a quoted text that holds no quote of the kind around it gives
/// one string token: its lexeme is the whole text and its literal what lies
/// between the quotes. Nothing is reported.
pub proof fn lemma_scan_quoted<F: Fn(FloatQuery) -> FloatAnswer>(
    f: F,
    q: char,
    t: Seq<char>,
    line: int,
    start: int,
)
    requires
        q == '"' || q == '\'',
        forall|k: int| 0 <= k < t.len() ==> t[k] != q,
    ensures
        ({
            let s = seq![q] + t + seq![q];
            let r = scan_from(f, s, 0, line, start);
            &&& r.tokens.len() == 1
            &&& r.tokens[0].kind == TokenKind::String
            &&& r.tokens[0].lexeme == s
            &&& r.tokens[0].literal == Some(LiteralView::String(t))
            &&& r.unterminated.len() == 0
        }),
{
    let s = seq![q] + t + seq![q];
    let n = match_next(s, 1, '=');
    assert(s[0] == q);
    assert(s[s.len() - 1] == q);
    assert forall|k: int| n <= k < s.len() - 1 implies s[k] != q by {
        assert(s[k] == t[k - 1]);
    }
    lemma_string_end_stops(s, n, q, line);
    let e = string_end(s, n, q, line).0;
    assert(e == s.len() - 1);
    assert(s.subrange(1, s.len() - 1) =~= t);
    assert(s.subrange(0, s.len() as int) =~= s);
    lemma_scan_one_step(f, s, line, start);
    let o = scan_step(f, s, 0, line);
    let rest = scan_from(f, s, o.cur, o.line, 0);
    assert(rest.unterminated.len() == 0);
}

/// The report of a string left open at the end of the text, on the line
/// where the text ended.
pub fn unterminated_string_report(line: usize) -> (r: String)
    ensures
        r@ == line_error_text(line, "Unexpected character: unterminated string."@),
{
    Reporter::line_error(line, "Unexpected character: unterminated string.")
}

} // verus!
