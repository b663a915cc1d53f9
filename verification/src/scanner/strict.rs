//! A strict scanner for expressions.
//!
//! It tries, for each character: an operator that may be followed by `=`, a
//! `//` comment, an identifier, a number, a quoted string, a one-character
//! symbol and white space. It knows no reserved words: a reserved word is
//! consumed and, like every character that nothing takes, reported as an
//! unexpected character. A number keeps its text as a string literal.

use vstd::prelude::*;

use crate::errors::{line_error_text, ErrorCode, Reporter};
use crate::scanner::{
    comment_step, comparator_step, count_newlines, eof_token, ignored_step, is_ascii_text, lemma_line_end,
    lemma_skip_digits, lemma_string_end, lemma_string_end_stops, match_next, number_end, outcome_tokens, passed,
    single_char_step, skip_digits, string_end, string_step, taken, token_at, token_views, StepOutcome,
};
use crate::scanner::Scanner as Reader;
use crate::text::{is_digit_char, is_letter_char, push_char, text};
use crate::token::{keyword, keyword_kind, Literal, LiteralView, Token, TokenKind, TokenView};

verus! {

// ---------------------------------------------------------------------------
// The meaning of strict scanning.
// ---------------------------------------------------------------------------

/// A letter or an underscore: a character that starts an identifier.
pub open spec fn is_word_start(c: char) -> bool {
    is_letter_char(c) || c == '_'
}

/// A letter, a digit or an underscore: a character inside an identifier.
pub open spec fn is_word_char(c: char) -> bool {
    is_word_start(c) || is_digit_char(c)
}

/// The position of the first character at or after `i` that cannot stand
/// inside an identifier.
pub open spec fn skip_word(s: Seq<char>, i: int) -> int
    decreases s.len() - i,
{
    if 0 <= i < s.len() && is_word_char(s[i]) {
        skip_word(s, i + 1)
    } else {
        i
    }
}

/// Whether a word is reserved here: the reserved words of the language but
/// `let` and `const`.
pub open spec fn is_reserved(w: Seq<char>) -> bool {
    match keyword_kind(w) {
        Some(k) => k != TokenKind::Let && k != TokenKind::Const,
        None => false,
    }
}

/// An identifier: a letter or underscore followed by letters, digits and
/// underscores; a reserved word is passed on, with its characters consumed.
pub open spec fn word_step(s: Seq<char>, start: int, cur: int, line: int) -> StepOutcome {
    if !is_word_start(s[start]) {
        passed(cur, line)
    } else {
        let e = skip_word(s, cur);
        if is_reserved(s.subrange(start, e)) {
            passed(e, line)
        } else {
            taken(e, line, Some(token_at(TokenKind::Identifier, s, start, e, None, line)))
        }
    }
}

/// A number: digits, then a point and more digits if a digit follows the
/// point. Its literal is its own text, as a string.
pub open spec fn number_step(s: Seq<char>, start: int, cur: int, line: int) -> StepOutcome {
    if !is_digit_char(s[start]) {
        passed(cur, line)
    } else {
        let e = number_end(s, cur);
        taken(
            e,
            line,
            Some(token_at(TokenKind::Number, s, start, e, Some(LiteralView::String(s.subrange(start, e))), line)),
        )
    }
}

/// What reading the character at `start` does, the recognizers tried in turn.
pub open spec fn strict_step(s: Seq<char>, start: int, line: int) -> StepOutcome {
    let o1 = comparator_step(s, start, start + 1, line);
    if o1.handled {
        o1
    } else {
        let o2 = comment_step(s, start, o1.cur, o1.line);
        if o2.handled {
            o2
        } else {
            let o3 = word_step(s, start, o2.cur, o2.line);
            if o3.handled {
                o3
            } else {
                let o4 = number_step(s, start, o3.cur, o3.line);
                if o4.handled {
                    o4
                } else {
                    let o5 = string_step(s, start, o4.cur, o4.line);
                    if o5.handled {
                        o5
                    } else {
                        let o6 = single_char_step(s, start, o5.cur, o5.line);
                        if o6.handled {
                            o6
                        } else {
                            let o7 = ignored_step(s, start, o6.cur, o6.line);
                            StepOutcome { unterminated: o5.unterminated, ..o7 }
                        }
                    }
                }
            }
        }
    }
}

/// The message for a string that is not closed.
pub open spec fn unterminated_message() -> Seq<char> {
    "Unexpected character: unterminated string."@
}

/// The message for a character that nothing takes.
pub open spec fn unexpected_message(c: char) -> Seq<char> {
    "Unexpected character: "@ + seq![c]
}

/// The reports that reading the character at `start` makes, in order: a
/// string that is not closed, then the character itself if nothing took it.
pub open spec fn step_reports(s: Seq<char>, start: int, line: int) -> Seq<Seq<char>> {
    let o = strict_step(s, start, line);
    (if o.unterminated {
        seq![line_error_text(o.line as usize, unterminated_message())]
    } else {
        Seq::empty()
    }) + (if o.handled {
        Seq::empty()
    } else {
        seq![line_error_text(o.line as usize, unexpected_message(s[start]))]
    })
}

/// The result of strict scanning: the tokens, the reports, the final line
/// number, and the start of the last lexeme read.
pub struct StrictScan {
    pub tokens: Seq<TokenView>,
    pub reports: Seq<Seq<char>>,
    pub line: int,
    pub start: int,
}

/// Strict scanning of the text from position `cur` on line `line`, the last
/// lexeme read having started at `start`.
pub open spec fn strict_scan_from(s: Seq<char>, cur: int, line: int, start: int) -> StrictScan
    decreases s.len() - cur,
{
    if cur < 0 || cur >= s.len() {
        StrictScan { tokens: Seq::empty(), reports: Seq::empty(), line, start }
    } else {
        let o = strict_step(s, cur, line);
        proof {
            lemma_strict_step_advances(s, cur, line);
        }
        let rest = strict_scan_from(s, o.cur, o.line, cur);
        StrictScan {
            tokens: outcome_tokens(o) + rest.tokens,
            reports: step_reports(s, cur, line) + rest.reports,
            line: rest.line,
            start: rest.start,
        }
    }
}

proof fn lemma_skip_word(s: Seq<char>, i: int)
    requires
        0 <= i,
    ensures
        i <= skip_word(s, i),
        i <= s.len() ==> skip_word(s, i) <= s.len(),
    decreases s.len() - i,
{
    if 0 <= i < s.len() && is_word_char(s[i]) {
        lemma_skip_word(s, i + 1);
    }
}

/// Each recognizer in turn starts where the previous one stopped, within the
/// text, and the line number only grows along the way.
proof fn lemma_strict_step_bounds(s: Seq<char>, start: int, line: int)
    requires
        0 <= start < s.len(),
    ensures
        ({
            let o1 = comparator_step(s, start, start + 1, line);
            let o2 = comment_step(s, start, o1.cur, o1.line);
            let o3 = word_step(s, start, o2.cur, o2.line);
            let o4 = number_step(s, start, o3.cur, o3.line);
            let o5 = string_step(s, start, o4.cur, o4.line);
            let o6 = single_char_step(s, start, o5.cur, o5.line);
            let o7 = ignored_step(s, start, o6.cur, o6.line);
            &&& start < o1.cur <= o2.cur <= o3.cur <= o4.cur <= o5.cur <= o6.cur <= o7.cur <= s.len()
            &&& o1.line == line && o2.line == line && o3.line == line && o4.line == line
            &&& line <= o5.line && o6.line == o5.line && o5.line <= o7.line
            &&& o5.line - line <= o5.cur - start
            &&& o7.line - line <= o7.cur - start
        }),
{
    let o1 = comparator_step(s, start, start + 1, line);
    let o2 = comment_step(s, start, o1.cur, o1.line);
    let o3 = word_step(s, start, o2.cur, o2.line);
    let o4 = number_step(s, start, o3.cur, o3.line);
    lemma_line_end(s, match_next(s, o1.cur, '/'));
    lemma_skip_word(s, o2.cur);
    lemma_skip_digits(s, o3.cur);
    let e = skip_digits(s, o3.cur);
    lemma_skip_digits(s, e + 1);
    lemma_string_end(s, o4.cur, s[start], line);
}

/// Reading a character moves past it, stays within the text, and never
/// lowers the line number.
pub proof fn lemma_strict_step_advances(s: Seq<char>, start: int, line: int)
    requires
        0 <= start < s.len(),
    ensures
        start < strict_step(s, start, line).cur <= s.len(),
        line <= strict_step(s, start, line).line,
        strict_step(s, start, line).line - line <= strict_step(s, start, line).cur - start,
{
    lemma_strict_step_bounds(s, start, line);
}

proof fn lemma_skip_word_all(s: Seq<char>, i: int)
    requires
        0 <= i <= s.len(),
        forall|j: int| i <= j < s.len() ==> is_word_char(#[trigger] s[j]),
    ensures
        skip_word(s, i) == s.len(),
    decreases s.len() - i,
{
    if i < s.len() {
        lemma_skip_word_all(s, i + 1);
    }
}

proof fn lemma_skip_digits_all(s: Seq<char>, i: int)
    requires
        0 <= i <= s.len(),
        forall|j: int| i <= j < s.len() ==> is_digit_char(#[trigger] s[j]),
    ensures
        skip_digits(s, i) == s.len(),
    decreases s.len() - i,
{
    if i < s.len() {
        lemma_skip_digits_all(s, i + 1);
    }
}

/// Strict scanning of a text that its first character's reading covers
/// whole gives that reading's token and reports alone.
proof fn lemma_strict_one_step(s: Seq<char>, line: int, start: int)
    requires
        0 < s.len(),
        strict_step(s, 0, line).cur == s.len(),
    ensures
        strict_scan_from(s, 0, line, start).tokens == outcome_tokens(strict_step(s, 0, line)),
        strict_scan_from(s, 0, line, start).reports == step_reports(s, 0, line),
{
    let o = strict_step(s, 0, line);
    let rest = strict_scan_from(s, o.cur, o.line, 0);
    assert(rest.tokens == Seq::<TokenView>::empty());
    assert(rest.reports == Seq::<Seq<char>>::empty());
    assert(outcome_tokens(o) + rest.tokens =~= outcome_tokens(o));
    assert(step_reports(s, 0, line) + rest.reports =~= step_reports(s, 0, line));
}

/// A reserved word (but `let` and `const`) yields no token: it is read
/// whole and its first letter is reported as an unexpected character.
pub proof fn lemma_strict_reserved_word(w: Seq<char>, line: int, start: int)
    requires
        is_reserved(w),
        0 <= line <= usize::MAX,
    ensures
        strict_scan_from(w, 0, line, start).tokens.len() == 0,
        strict_scan_from(w, 0, line, start).reports == seq![
            line_error_text(line as usize, "Unexpected character: "@ + seq![w[0]]),
        ],
{
    let k = keyword_kind(w).unwrap();
    crate::token::lemma_reserved_word_text(w);
    crate::token::lemma_kind_text(k);
    assert(is_letter_char(w[0]) && is_letter_char(w[1]));
    lemma_skip_word_all(w, 1);
    assert(w.subrange(0, w.len() as int) =~= w);
    lemma_strict_one_step(w, line, start);
}

/// A run of digits yields one number token whose literal is the run itself,
/// as a string, with no report.
pub proof fn lemma_strict_digits(t: Seq<char>, line: int, start: int)
    requires
        t.len() > 0,
        forall|i: int| 0 <= i < t.len() ==> is_digit_char(#[trigger] t[i]),
    ensures
        strict_scan_from(t, 0, line, start).tokens == seq![
            TokenView {
                kind: TokenKind::Number,
                lexeme: t,
                literal: Some(LiteralView::String(t)),
                line: line as usize,
            },
        ],
        strict_scan_from(t, 0, line, start).reports.len() == 0,
{
    assert(is_digit_char(t[0]));
    if t.len() > 1 {
        assert(is_digit_char(t[1]));
    }
    lemma_skip_digits_all(t, 1);
    assert(t.subrange(0, t.len() as int) =~= t);
    lemma_strict_one_step(t, line, start);
}

proof fn lemma_no_newlines(t: Seq<char>)
    requires
        forall|k: int| 0 <= k < t.len() ==> t[k] != '\n',
    ensures
        count_newlines(t) == 0,
    decreases t.len(),
{
    if t.len() > 0 {
        let r = t.subrange(1, t.len() as int);
        assert forall|k: int| 0 <= k < r.len() implies r[k] != '\n' by {
            assert(r[k] == t[k + 1]);
        }
        lemma_no_newlines(r);
    }
}

/// A string that is never closed yields no token and two reports on its
/// line: first that it is not closed, then its opening quote as an
/// unexpected character.
pub proof fn lemma_strict_open_string(q: char, t: Seq<char>, line: int, start: int)
    requires
        q == '"' || q == '\'',
        forall|k: int| 0 <= k < t.len() ==> t[k] != q && t[k] != '\n',
        0 <= line <= usize::MAX,
    ensures
        strict_scan_from(seq![q] + t, 0, line, start).tokens.len() == 0,
        strict_scan_from(seq![q] + t, 0, line, start).reports == seq![
            line_error_text(line as usize, "Unexpected character: unterminated string."@),
            line_error_text(line as usize, "Unexpected character: "@ + seq![q]),
        ],
{
    let s = seq![q] + t;
    assert(s[0] == q);
    let n = match_next(s, 1, '=');
    assert forall|k: int| n <= k < s.len() implies s[k] != q && s[k] != '\n' by {
        assert(s[k] == t[k - 1]);
    }
    lemma_string_end_stops(s, n, q, line);
    let e = string_end(s, n, q, line).0;
    assert(e == s.len());
    assert forall|k: int| 0 <= k < s.subrange(n, e).len() implies s.subrange(n, e)[k] != '\n' by {
        assert(s.subrange(n, e)[k] == s[n + k]);
    }
    lemma_no_newlines(s.subrange(n, e));
    lemma_strict_one_step(s, line, start);
    let o = strict_step(s, 0, line);
    assert(o.line == line);
    assert(step_reports(s, 0, line) =~= seq![
        line_error_text(line as usize, unterminated_message()),
        line_error_text(line as usize, unexpected_message(q)),
    ]);
}

// ---------------------------------------------------------------------------
// The strict scanner.
// ---------------------------------------------------------------------------

/// Reads a source text into tokens, reporting what it cannot read.
pub struct Scanner {
    reader: Reader,
    reports: Vec<String>,
}

/// The mathematical content of a strict [`Scanner`]: its source, the tokens
/// read so far, the start of the current lexeme, the reading position, the
/// line, and the reports made so far.
pub struct StrictScannerView {
    pub source: Seq<char>,
    pub tokens: Seq<TokenView>,
    pub start: usize,
    pub current: usize,
    pub line: usize,
    pub reports: Seq<Seq<char>>,
}

/// The texts of a sequence of reports.
pub open spec fn report_texts(rs: Seq<String>) -> Seq<Seq<char>> {
    rs.map_values(|r: String| r@)
}

impl View for Scanner {
    type V = StrictScannerView;

    closed spec fn view(&self) -> StrictScannerView {
        StrictScannerView {
            source: self.reader.source@,
            tokens: token_views(self.reader.tokens@),
            start: self.reader.start,
            current: self.reader.current,
            line: self.reader.line,
            reports: report_texts(self.reports@),
        }
    }
}

impl Scanner {
    /// Every report is kept among the scanner's reports: the reader holds
    /// none of its own.
    pub closed spec fn wf(&self) -> bool {
        self.reader.unterminated@.len() == 0
    }

    /// A scanner over an empty source.
    pub fn new() -> (r: Self)
        ensures
            r.wf(),
            r@ == (StrictScannerView {
                source: Seq::empty(),
                tokens: Seq::empty(),
                start: 0,
                current: 0,
                line: 0,
                reports: Seq::empty(),
            }),
    {
        let r = Scanner { reader: Reader::new("", 0, 0, 0), reports: Vec::new() };
        proof {
            reveal_strlit("");
            assert(r.reader.source@ =~= Seq::<char>::empty());
            assert(report_texts(r.reports@) =~= Seq::empty());
        }
        r
    }

    /// A scanner over a source, reading from its start on line one.
    pub fn from_source(source: &str) -> (r: Self)
        ensures
            r.wf(),
            r@ == (StrictScannerView {
                source: source@,
                tokens: Seq::empty(),
                start: 0,
                current: 0,
                line: 1,
                reports: Seq::empty(),
            }),
    {
        let r = Scanner { reader: Reader::new(source, 0, 0, 1), reports: Vec::new() };
        assert(report_texts(r.reports@) =~= Seq::empty());
        r
    }

    /// The tokens read so far.
    pub fn tokens(&self) -> (r: &Vec<Token>)
        ensures
            token_views(r@) == self@.tokens,
    {
        &self.reader.tokens
    }

    /// The reports made so far.
    pub fn reports(&self) -> (r: &Vec<String>)
        ensures
            report_texts(r@) == self@.reports,
    {
        &self.reports
    }
}

/// `c` starts an identifier.
fn is_alpha(c: char) -> (r: bool)
    ensures
        r == is_word_start(c),
{
    c >= 'a' && c <= 'z' || c >= 'A' && c <= 'Z' || c == '_'
}

/// `c` is a decimal digit.
fn is_digit(c: char) -> (r: bool)
    ensures
        r == is_digit_char(c),
{
    c >= '0' && c <= '9'
}

/// `c` can stand inside an identifier.
fn is_alpha_numeric(c: char) -> (r: bool)
    ensures
        r == is_word_char(c),
{
    is_alpha(c) || is_digit(c)
}

fn process_identifier_token(reader: &mut Reader, c: char) -> (r: bool)
    requires
        old(reader).reading(),
        c == old(reader).source@[old(reader).start as int],
    ensures
        final(reader).follows(
            *old(reader),
            word_step(old(reader).source@, old(reader).start as int, old(reader).current as int, old(reader).line as int),
        ),
        r == word_step(old(reader).source@, old(reader).start as int, old(reader).current as int, old(reader).line as int).handled,
{
    let ghost s = reader.source@;
    assert(reader.unterminated@ =~= old(reader).unterminated@ + Seq::empty());
    assert(token_views(reader.tokens@) =~= token_views(old(reader).tokens@) + Seq::empty());
    if is_alpha(c) {
        let ghost e = skip_word(s, reader.current as int);
        proof {
            lemma_skip_word(s, reader.current as int);
        }
        loop
            invariant
                reader.source == old(reader).source,
                reader.source@ == s,
                s.len() < usize::MAX,
                old(reader).current <= reader.current <= e <= s.len(),
                skip_word(s, reader.current as int) == e,
                reader.start == old(reader).start,
                reader.line == old(reader).line,
                reader.tokens == old(reader).tokens,
                reader.unterminated == old(reader).unterminated,
            ensures
                reader.current == e,
            decreases s.len() - reader.current,
        {
            let current = reader.peek(0);
            if current.is_some() && is_alpha_numeric(current.unwrap()) {
                reader.advance();
                proof {
                    lemma_skip_word(s, reader.current as int);
                }
            } else {
                break;
            }
        }
        // check if there is a reserved keyword
        match keyword(&reader.source, reader.start, reader.current) {
            Some(TokenKind::Let) | Some(TokenKind::Const) | None => {},
            Some(_) => {
                return false;
            },
        }
        reader.add_token(TokenKind::Identifier, None);
        true
    } else {
        false
    }
}

fn process_number_token(reader: &mut Reader, c: char) -> (r: bool)
    requires
        old(reader).reading(),
        c == old(reader).source@[old(reader).start as int],
    ensures
        final(reader).follows(
            *old(reader),
            number_step(old(reader).source@, old(reader).start as int, old(reader).current as int, old(reader).line as int),
        ),
        r == number_step(old(reader).source@, old(reader).start as int, old(reader).current as int, old(reader).line as int).handled,
{
    let ghost s = reader.source@;
    assert(reader.unterminated@ =~= old(reader).unterminated@ + Seq::empty());
    assert(token_views(reader.tokens@) =~= token_views(old(reader).tokens@) + Seq::empty());
    if is_digit(c) {
        reader.skip_numeric();
        let ghost e = reader.current as int;
        proof {
            lemma_skip_digits(s, old(reader).current as int);
        }
        // Look for a fractional part.
        if let Some(v) = reader.peek(0) {
            if v == '.' {
                let next = reader.peek(1);
                if next.is_some() && is_digit(next.unwrap()) {
                    // Consume the "."
                    reader.advance();
                    reader.skip_numeric();
                    proof {
                        lemma_skip_digits(s, e + 1);
                    }
                }
            }
        }
        assert(reader.current == number_end(s, old(reader).current as int));
        let number = reader.get_string();
        reader.add_token(TokenKind::Number, Some(Literal::string(number.as_str())));
        true
    } else {
        false
    }
}

/// The report of a character that nothing takes.
fn unexpected_report(line: usize, c: char) -> (r: String)
    ensures
        r@ == line_error_text(line, unexpected_message(c)),
{
    let mut message = text("Unexpected character: ");
    push_char(&mut message, c);
    proof {
        assert(message@ =~= unexpected_message(c));
    }
    Reporter::line_error(line, message.as_str())
}

impl Scanner {
    fn process_next_token(&mut self) -> (r: Result<(), ErrorCode>)
        requires
            old(self).wf(),
            old(self).reader.start == old(self).reader.current,
            old(self).reader.current < old(self).reader.source@.len() < usize::MAX,
            is_ascii_text(old(self).reader.source@),
            strict_step(old(self).reader.source@, old(self).reader.current as int, old(self).reader.line as int).line
                <= usize::MAX,
        ensures
            r is Ok,
            final(self).wf(),
            ({
                let o = strict_step(old(self).reader.source@, old(self).reader.current as int, old(self).reader.line as int);
                &&& final(self).reader.source@ == old(self).reader.source@
                &&& final(self).reader.start == old(self).reader.start
                &&& final(self).reader.current == o.cur
                &&& final(self).reader.line == o.line
                &&& token_views(final(self).reader.tokens@) == token_views(old(self).reader.tokens@) + outcome_tokens(o)
                &&& report_texts(final(self).reports@) == report_texts(old(self).reports@) + step_reports(
                    old(self).reader.source@,
                    old(self).reader.current as int,
                    old(self).reader.line as int,
                )
            }),
    {
        let ghost s = self.reader.source@;
        let ghost start = self.reader.current as int;
        let ghost line = self.reader.line as int;
        let ghost o = strict_step(s, start, line);
        let ghost o1 = comparator_step(s, start, start + 1, line);
        let ghost o2 = comment_step(s, start, o1.cur, o1.line);
        let ghost o3 = word_step(s, start, o2.cur, o2.line);
        let ghost o4 = number_step(s, start, o3.cur, o3.line);
        let ghost o5 = string_step(s, start, o4.cur, o4.line);
        let ghost o6 = single_char_step(s, start, o5.cur, o5.line);
        let ghost o7 = ignored_step(s, start, o6.cur, o6.line);
        proof {
            lemma_strict_step_bounds(s, start, line);
        }
        match self.reader.advance() {
            Some(c) => {
                // Note: The match order is done with priority to avoid matching to the wrong token
                let handled = self.reader.process_comparator_char_token(c)
                    || self.reader.process_comment_char_token(c)
                    || process_identifier_token(&mut self.reader, c)
                    || process_number_token(&mut self.reader, c)
                    || self.reader.process_string_token(c)
                    || self.reader.process_single_char_token(c)
                    || self.reader.process_ignored_char(c);
                let ghost before = report_texts(self.reports@);
                // The reader records a string left open by its line; here it
                // becomes a report.
                if self.reader.unterminated.len() > 0 {
                    self.reader.unterminated.pop();
                    let report = Reporter::line_error(self.reader.line, "Unexpected character: unterminated string.");
                    self.reports.push(report);
                }
                let ghost middle = report_texts(self.reports@);
                if !handled {
                    let report = unexpected_report(self.reader.line, c);
                    self.reports.push(report);
                }
                proof {
                    assert(self.reader.unterminated@ =~= Seq::<usize>::empty());
                    assert(report_texts(self.reports@) =~= before + step_reports(s, start, line));
                }
                Ok(())
            },
            None => Err(ErrorCode::ProcessError),
        }
    }
}

/// Strict scanning never lowers the line number, and raises it by at most
/// the number of characters read.
pub proof fn lemma_strict_line_grows(s: Seq<char>, cur: int, line: int, start: int)
    ensures
        line <= strict_scan_from(s, cur, line, start).line,
        0 <= cur <= s.len() ==> strict_scan_from(s, cur, line, start).line <= line + s.len() - cur,
    decreases s.len() - cur,
{
    if 0 <= cur < s.len() {
        let o = strict_step(s, cur, line);
        lemma_strict_step_advances(s, cur, line);
        lemma_strict_line_grows(s, o.cur, o.line, cur);
    }
}

impl Scanner {
    /// Reads the rest of the source into tokens and appends them, followed by
    /// an end-of-text token, to the tokens read so far; returns all of them.
    /// What cannot be read is reported (see [`Scanner::reports`]). Scanning
    /// never fails on ASCII text.
    pub fn scan_tokens(&mut self) -> (r: Result<Vec<Token>, ErrorCode>)
        requires
            old(self).wf(),
            is_ascii_text(old(self)@.source),
            old(self)@.source.len() < usize::MAX,
            old(self)@.line + old(self)@.source.len() <= usize::MAX,
        ensures
            final(self).wf(),
            ({
                let res = strict_scan_from(
                    old(self)@.source,
                    old(self)@.current as int,
                    old(self)@.line as int,
                    old(self)@.start as int,
                );
                &&& final(self)@.source == old(self)@.source
                &&& final(self)@.tokens == old(self)@.tokens + res.tokens + seq![eof_token(res.line)]
                &&& final(self)@.reports == old(self)@.reports + res.reports
                &&& final(self)@.line == res.line
                &&& final(self)@.start == res.start
                &&& final(self)@.current == if old(self)@.current < old(self)@.source.len() {
                    old(self)@.source.len() as int
                } else {
                    old(self)@.current as int
                }
                &&& r matches Ok(v) && token_views(v@) == final(self)@.tokens
            }),
    {
        let ghost s = self.reader.source@;
        let ghost total = strict_scan_from(s, self.reader.current as int, self.reader.line as int, self.reader.start as int);
        proof {
            lemma_strict_line_grows(s, self.reader.current as int, self.reader.line as int, self.reader.start as int);
        }
        let ghost mut done_tokens: Seq<TokenView> = Seq::empty();
        let ghost mut done_reports: Seq<Seq<char>> = Seq::empty();
        let ghost old_tokens = token_views(self.reader.tokens@);
        let ghost old_reports = report_texts(self.reports@);
        let ghost cur0 = self.reader.current;
        while !self.reader.is_at_end()
            invariant
                self.wf(),
                self.reader.source@ == s,
                s.len() < usize::MAX,
                is_ascii_text(s),
                total.line <= usize::MAX,
                ({
                    let rest = strict_scan_from(s, self.reader.current as int, self.reader.line as int, self.reader.start as int);
                    &&& total.tokens == done_tokens + rest.tokens
                    &&& total.reports == done_reports + rest.reports
                    &&& total.line == rest.line
                    &&& total.start == rest.start
                }),
                token_views(self.reader.tokens@) == old_tokens + done_tokens,
                report_texts(self.reports@) == old_reports + done_reports,
                cur0 < s.len() ==> self.reader.current <= s.len(),
                cur0 >= s.len() ==> self.reader.current == cur0,
            decreases s.len() - self.reader.current,
        {
            let ghost cur = self.reader.current as int;
            let ghost line = self.reader.line as int;
            let ghost o = strict_step(s, cur, line);
            proof {
                lemma_strict_step_advances(s, cur, line);
                lemma_strict_line_grows(s, o.cur, o.line, cur);
            }
            // Start from the beginning of the next lexeme
            self.reader.start = self.reader.current;
            match self.process_next_token() {
                Ok(()) => {},
                Err(e) => {
                    return Err(e);
                },
            }
            proof {
                let rest = strict_scan_from(s, o.cur, o.line, cur);
                assert(total.tokens =~= (done_tokens + outcome_tokens(o)) + rest.tokens);
                assert(total.reports =~= (done_reports + step_reports(s, cur, line)) + rest.reports);
                done_tokens = done_tokens + outcome_tokens(o);
                done_reports = done_reports + step_reports(s, cur, line);
                assert(token_views(self.reader.tokens@) =~= old_tokens + done_tokens);
                assert(report_texts(self.reports@) =~= old_reports + done_reports);
            }
        }
        let ghost before = token_views(self.reader.tokens@);
        let eof = Token::new(TokenKind::Eof, "", None, self.reader.line);
        proof {
            reveal_strlit("");
            assert(eof.lexeme@ =~= Seq::<char>::empty());
        }
        self.reader.tokens.push(eof);
        proof {
            assert(token_views(self.reader.tokens@) =~= before + seq![eof_token(total.line)]);
            assert(total.tokens =~= done_tokens);
            assert(total.reports =~= done_reports);
        }
        let result = self.reader.tokens.clone();
        proof {
            assert forall|i: int| 0 <= i < result@.len() implies result@[i] == self.reader.tokens@[i] by {
                assert(cloned::<Token>(self.reader.tokens@[i], result@[i]));
            }
            assert(token_views(result@) =~= token_views(self.reader.tokens@));
        }
        Ok(result)
    }
}

} // verus!
