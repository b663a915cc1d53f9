//! Tokens: their kinds, the literal values they may carry, and the reserved
//! words of the language.

use vstd::prelude::*;

use crate::float::{answer, answer_text, ask_text, ask_truth, engine_ok, truth_result, FloatAnswer, FloatQuery, FloatQueryView};
use crate::text::{append, i32_text, is_letter_char, signed_decimal_text, text};

verus! {

/// The kind of a token.
#[derive(Clone, Copy, Debug, PartialEq, Eq, Structural)]
pub enum TokenKind {
    // Single-character tokens.
    LeftParen,
    RightParen,
    LeftBrace,
    RightBrace,
    Comma,
    Dot,
    SemiColon,
    Minus,
    Plus,
    Slash,
    Star,
    // One or two character tokens.
    Bang,
    BangEqual,
    Equal,
    EqualEqual,
    Greater,
    GreaterEqual,
    Less,
    LessEqual,
    // Literals.
    Identifier,
    String,
    Number,
    // Keywords.
    And,
    Class,
    Const,
    Else,
    False,
    Fun,
    For,
    If,
    Let,
    Nil,
    Or,
    Print,
    Return,
    Super,
    This,
    True,
    Var,
    While,
    Eof,
}

/// The text that names a token kind.
pub open spec fn kind_text(k: TokenKind) -> Seq<char> {
    match k {
        TokenKind::LeftParen => "("@,
        TokenKind::RightParen => ")"@,
        TokenKind::LeftBrace => "{"@,
        TokenKind::RightBrace => "}"@,
        TokenKind::Comma => ","@,
        TokenKind::Dot => "."@,
        TokenKind::SemiColon => ";"@,
        TokenKind::Minus => "-"@,
        TokenKind::Plus => "+"@,
        TokenKind::Slash => "/"@,
        TokenKind::Star => "*"@,
        TokenKind::Bang => "!"@,
        TokenKind::BangEqual => "!="@,
        TokenKind::Equal => "="@,
        TokenKind::EqualEqual => "=="@,
        TokenKind::Greater => ">"@,
        TokenKind::GreaterEqual => ">="@,
        TokenKind::Less => "<"@,
        TokenKind::LessEqual => "<="@,
        TokenKind::Identifier => "identifier"@,
        TokenKind::String => "string"@,
        TokenKind::Number => "number"@,
        TokenKind::And => "and"@,
        TokenKind::Class => "class"@,
        TokenKind::Const => "const"@,
        TokenKind::Else => "else"@,
        TokenKind::False => "false"@,
        TokenKind::Fun => "fun"@,
        TokenKind::For => "for"@,
        TokenKind::If => "if"@,
        TokenKind::Let => "let"@,
        TokenKind::Nil => "nil"@,
        TokenKind::Or => "or"@,
        TokenKind::Print => "print"@,
        TokenKind::Return => "return"@,
        TokenKind::Super => "super"@,
        TokenKind::This => "this"@,
        TokenKind::True => "true"@,
        TokenKind::Var => "var"@,
        TokenKind::While => "while"@,
        TokenKind::Eof => "Eof"@,
    }
}

impl TokenKind {
    /// The text that names this kind: the symbol of an operator or a
    /// punctuation mark, the word of a keyword, and `identifier`, `string`,
    /// `number` or `Eof` for the others.
    pub fn to_string(&self) -> (r: String)
        ensures
            r@ == kind_text(*self),
    {
        match self {
            TokenKind::LeftParen => text("("),
            TokenKind::RightParen => text(")"),
            TokenKind::LeftBrace => text("{"),
            TokenKind::RightBrace => text("}"),
            TokenKind::Comma => text(","),
            TokenKind::Dot => text("."),
            TokenKind::SemiColon => text(";"),
            TokenKind::Minus => text("-"),
            TokenKind::Plus => text("+"),
            TokenKind::Slash => text("/"),
            TokenKind::Star => text("*"),
            TokenKind::Bang => text("!"),
            TokenKind::BangEqual => text("!="),
            TokenKind::Equal => text("="),
            TokenKind::EqualEqual => text("=="),
            TokenKind::Greater => text(">"),
            TokenKind::GreaterEqual => text(">="),
            TokenKind::Less => text("<"),
            TokenKind::LessEqual => text("<="),
            TokenKind::Identifier => text("identifier"),
            TokenKind::String => text("string"),
            TokenKind::Number => text("number"),
            TokenKind::And => text("and"),
            TokenKind::Class => text("class"),
            TokenKind::Const => text("const"),
            TokenKind::Else => text("else"),
            TokenKind::False => text("false"),
            TokenKind::Fun => text("fun"),
            TokenKind::For => text("for"),
            TokenKind::If => text("if"),
            TokenKind::Let => text("let"),
            TokenKind::Nil => text("nil"),
            TokenKind::Or => text("or"),
            TokenKind::Print => text("print"),
            TokenKind::Return => text("return"),
            TokenKind::Super => text("super"),
            TokenKind::This => text("this"),
            TokenKind::True => text("true"),
            TokenKind::Var => text("var"),
            TokenKind::While => text("while"),
            TokenKind::Eof => text("Eof"),
        }
    }
}

/// The keyword kind of a reserved word, if it is one.
pub open spec fn keyword_kind(w: Seq<char>) -> Option<TokenKind> {
    if w == seq!['a', 'n', 'd'] {
        Some(TokenKind::And)
    } else if w == seq!['c', 'l', 'a', 's', 's'] {
        Some(TokenKind::Class)
    } else if w == seq!['c', 'o', 'n', 's', 't'] {
        Some(TokenKind::Const)
    } else if w == seq!['e', 'l', 's', 'e'] {
        Some(TokenKind::Else)
    } else if w == seq!['f', 'a', 'l', 's', 'e'] {
        Some(TokenKind::False)
    } else if w == seq!['f', 'o', 'r'] {
        Some(TokenKind::For)
    } else if w == seq!['f', 'u', 'n'] {
        Some(TokenKind::Fun)
    } else if w == seq!['i', 'f'] {
        Some(TokenKind::If)
    } else if w == seq!['l', 'e', 't'] {
        Some(TokenKind::Let)
    } else if w == seq!['n', 'i', 'l'] {
        Some(TokenKind::Nil)
    } else if w == seq!['o', 'r'] {
        Some(TokenKind::Or)
    } else if w == seq!['p', 'r', 'i', 'n', 't'] {
        Some(TokenKind::Print)
    } else if w == seq!['r', 'e', 't', 'u', 'r', 'n'] {
        Some(TokenKind::Return)
    } else if w == seq!['s', 'u', 'p', 'e', 'r'] {
        Some(TokenKind::Super)
    } else if w == seq!['t', 'h', 'i', 's'] {
        Some(TokenKind::This)
    } else if w == seq!['t', 'r', 'u', 'e'] {
        Some(TokenKind::True)
    } else if w == seq!['v', 'a', 'r'] {
        Some(TokenKind::Var)
    } else if w == seq!['w', 'h', 'i', 'l', 'e'] {
        Some(TokenKind::While)
    } else {
        None
    }
}

/// Whether `chars[start..end]` spells `word`.
fn spells(chars: &Vec<char>, start: usize, end: usize, word: &[char]) -> (r: bool)
    requires
        start <= end <= chars.len(),
    ensures
        r == (chars@.subrange(start as int, end as int) == word@),
{
    if end - start != word.len() {
        assert(chars@.subrange(start as int, end as int).len() != word@.len());
        return false;
    }
    let mut i: usize = 0;
    while i < word.len()
        invariant
            start <= end <= chars.len(),
            end - start == word@.len(),
            0 <= i <= word@.len(),
            forall|j: int| 0 <= j < i ==> chars@[start + j] == word@[j],
        decreases word.len() - i,
    {
        if chars[start + i] != word[i] {
            assert(chars@.subrange(start as int, end as int)[i as int] != word@[i as int]);
            return false;
        }
        i = i + 1;
    }
    assert(chars@.subrange(start as int, end as int) =~= word@);
    true
}

/// The kinds that a reserved word names.
pub open spec fn is_keyword_kind(k: TokenKind) -> bool {
    match k {
        TokenKind::And | TokenKind::Class | TokenKind::Const | TokenKind::Else | TokenKind::False | TokenKind::Fun | TokenKind::For | TokenKind::If | TokenKind::Let | TokenKind::Nil | TokenKind::Or | TokenKind::Print | TokenKind::Return | TokenKind::Super | TokenKind::This | TokenKind::True | TokenKind::Var | TokenKind::While => true,
        _ => false,
    }
}

/// The kinds that an operator or a punctuation mark names.
pub open spec fn is_symbol_kind(k: TokenKind) -> bool {
    match k {
        TokenKind::LeftParen | TokenKind::RightParen | TokenKind::LeftBrace | TokenKind::RightBrace | TokenKind::Comma | TokenKind::Dot | TokenKind::SemiColon | TokenKind::Minus | TokenKind::Plus | TokenKind::Slash | TokenKind::Star | TokenKind::Bang | TokenKind::BangEqual | TokenKind::Equal | TokenKind::EqualEqual | TokenKind::Greater | TokenKind::GreaterEqual | TokenKind::Less | TokenKind::LessEqual => true,
        _ => false,
    }
}

/// The text of a keyword kind is a word of letters that is reserved for that
/// kind; the text of a symbol kind is its one or two characters.
pub proof fn lemma_kind_text(k: TokenKind)
    ensures
        is_keyword_kind(k) ==> keyword_kind(kind_text(k)) == Some(k),
        is_keyword_kind(k) ==> kind_text(k).len() >= 2,
        is_keyword_kind(k) ==> forall|i: int| 0 <= i < kind_text(k).len() ==> is_letter_char(#[trigger] kind_text(k)[i]),
        is_symbol_kind(k) ==> 1 <= kind_text(k).len() <= 2,
{
    match k {
        TokenKind::And => {
            reveal_strlit("and");
            assert(kind_text(k) =~= seq!['a', 'n', 'd']);
        },
        TokenKind::Class => {
            reveal_strlit("class");
            assert(kind_text(k) =~= seq!['c', 'l', 'a', 's', 's']);
        },
        TokenKind::Const => {
            reveal_strlit("const");
            assert(kind_text(k) =~= seq!['c', 'o', 'n', 's', 't']);
        },
        TokenKind::Else => {
            reveal_strlit("else");
            assert(kind_text(k) =~= seq!['e', 'l', 's', 'e']);
        },
        TokenKind::False => {
            reveal_strlit("false");
            assert(kind_text(k) =~= seq!['f', 'a', 'l', 's', 'e']);
        },
        TokenKind::Fun => {
            reveal_strlit("fun");
            assert(kind_text(k) =~= seq!['f', 'u', 'n']);
        },
        TokenKind::For => {
            reveal_strlit("for");
            assert(kind_text(k) =~= seq!['f', 'o', 'r']);
        },
        TokenKind::If => {
            reveal_strlit("if");
            assert(kind_text(k) =~= seq!['i', 'f']);
        },
        TokenKind::Let => {
            reveal_strlit("let");
            assert(kind_text(k) =~= seq!['l', 'e', 't']);
        },
        TokenKind::Nil => {
            reveal_strlit("nil");
            assert(kind_text(k) =~= seq!['n', 'i', 'l']);
        },
        TokenKind::Or => {
            reveal_strlit("or");
            assert(kind_text(k) =~= seq!['o', 'r']);
        },
        TokenKind::Print => {
            reveal_strlit("print");
            assert(kind_text(k) =~= seq!['p', 'r', 'i', 'n', 't']);
        },
        TokenKind::Return => {
            reveal_strlit("return");
            assert(kind_text(k) =~= seq!['r', 'e', 't', 'u', 'r', 'n']);
        },
        TokenKind::Super => {
            reveal_strlit("super");
            assert(kind_text(k) =~= seq!['s', 'u', 'p', 'e', 'r']);
        },
        TokenKind::This => {
            reveal_strlit("this");
            assert(kind_text(k) =~= seq!['t', 'h', 'i', 's']);
        },
        TokenKind::True => {
            reveal_strlit("true");
            assert(kind_text(k) =~= seq!['t', 'r', 'u', 'e']);
        },
        TokenKind::Var => {
            reveal_strlit("var");
            assert(kind_text(k) =~= seq!['v', 'a', 'r']);
        },
        TokenKind::While => {
            reveal_strlit("while");
            assert(kind_text(k) =~= seq!['w', 'h', 'i', 'l', 'e']);
        },
        TokenKind::LeftParen => {
            reveal_strlit("(");
            assert(kind_text(k) =~= seq!['(']);
        },
        TokenKind::RightParen => {
            reveal_strlit(")");
            assert(kind_text(k) =~= seq![')']);
        },
        TokenKind::LeftBrace => {
            reveal_strlit("{");
            assert(kind_text(k) =~= seq!['{']);
        },
        TokenKind::RightBrace => {
            reveal_strlit("}");
            assert(kind_text(k) =~= seq!['}']);
        },
        TokenKind::Comma => {
            reveal_strlit(",");
            assert(kind_text(k) =~= seq![',']);
        },
        TokenKind::Dot => {
            reveal_strlit(".");
            assert(kind_text(k) =~= seq!['.']);
        },
        TokenKind::SemiColon => {
            reveal_strlit(";");
            assert(kind_text(k) =~= seq![';']);
        },
        TokenKind::Minus => {
            reveal_strlit("-");
            assert(kind_text(k) =~= seq!['-']);
        },
        TokenKind::Plus => {
            reveal_strlit("+");
            assert(kind_text(k) =~= seq!['+']);
        },
        TokenKind::Slash => {
            reveal_strlit("/");
            assert(kind_text(k) =~= seq!['/']);
        },
        TokenKind::Star => {
            reveal_strlit("*");
            assert(kind_text(k) =~= seq!['*']);
        },
        TokenKind::Bang => {
            reveal_strlit("!");
            assert(kind_text(k) =~= seq!['!']);
        },
        TokenKind::BangEqual => {
            reveal_strlit("!=");
            assert(kind_text(k) =~= seq!['!', '=']);
        },
        TokenKind::Equal => {
            reveal_strlit("=");
            assert(kind_text(k) =~= seq!['=']);
        },
        TokenKind::EqualEqual => {
            reveal_strlit("==");
            assert(kind_text(k) =~= seq!['=', '=']);
        },
        TokenKind::Greater => {
            reveal_strlit(">");
            assert(kind_text(k) =~= seq!['>']);
        },
        TokenKind::GreaterEqual => {
            reveal_strlit(">=");
            assert(kind_text(k) =~= seq!['>', '=']);
        },
        TokenKind::Less => {
            reveal_strlit("<");
            assert(kind_text(k) =~= seq!['<']);
        },
        TokenKind::LessEqual => {
            reveal_strlit("<=");
            assert(kind_text(k) =~= seq!['<', '=']);
        },
        _ => {},
    }
}

/// A reserved word is the text of the kind it is reserved for.
pub proof fn lemma_reserved_word_text(w: Seq<char>)
    ensures
        keyword_kind(w) matches Some(k) ==> is_keyword_kind(k) && kind_text(k) == w,
{
    if let Some(k) = keyword_kind(w) {
        lemma_kind_text(k);
        match k {
            TokenKind::And => {
                reveal_strlit("and");
                assert(kind_text(k) =~= w);
            },
            TokenKind::Class => {
                reveal_strlit("class");
                assert(kind_text(k) =~= w);
            },
            TokenKind::Const => {
                reveal_strlit("const");
                assert(kind_text(k) =~= w);
            },
            TokenKind::Else => {
                reveal_strlit("else");
                assert(kind_text(k) =~= w);
            },
            TokenKind::False => {
                reveal_strlit("false");
                assert(kind_text(k) =~= w);
            },
            TokenKind::Fun => {
                reveal_strlit("fun");
                assert(kind_text(k) =~= w);
            },
            TokenKind::For => {
                reveal_strlit("for");
                assert(kind_text(k) =~= w);
            },
            TokenKind::If => {
                reveal_strlit("if");
                assert(kind_text(k) =~= w);
            },
            TokenKind::Let => {
                reveal_strlit("let");
                assert(kind_text(k) =~= w);
            },
            TokenKind::Nil => {
                reveal_strlit("nil");
                assert(kind_text(k) =~= w);
            },
            TokenKind::Or => {
                reveal_strlit("or");
                assert(kind_text(k) =~= w);
            },
            TokenKind::Print => {
                reveal_strlit("print");
                assert(kind_text(k) =~= w);
            },
            TokenKind::Return => {
                reveal_strlit("return");
                assert(kind_text(k) =~= w);
            },
            TokenKind::Super => {
                reveal_strlit("super");
                assert(kind_text(k) =~= w);
            },
            TokenKind::This => {
                reveal_strlit("this");
                assert(kind_text(k) =~= w);
            },
            TokenKind::True => {
                reveal_strlit("true");
                assert(kind_text(k) =~= w);
            },
            TokenKind::Var => {
                reveal_strlit("var");
                assert(kind_text(k) =~= w);
            },
            TokenKind::While => {
                reveal_strlit("while");
                assert(kind_text(k) =~= w);
            },
            _ => {},
        }
    }
}

/// The keyword kind of the word `chars[start..end]`, if it is a reserved word.
pub fn keyword(chars: &Vec<char>, start: usize, end: usize) -> (r: Option<TokenKind>)
    requires
        start <= end <= chars.len(),
    ensures
        r == keyword_kind(chars@.subrange(start as int, end as int)),
{
    if spells(chars, start, end, &['a', 'n', 'd']) {
        Some(TokenKind::And)
    } else if spells(chars, start, end, &['c', 'l', 'a', 's', 's']) {
        Some(TokenKind::Class)
    } else if spells(chars, start, end, &['c', 'o', 'n', 's', 't']) {
        Some(TokenKind::Const)
    } else if spells(chars, start, end, &['e', 'l', 's', 'e']) {
        Some(TokenKind::Else)
    } else if spells(chars, start, end, &['f', 'a', 'l', 's', 'e']) {
        Some(TokenKind::False)
    } else if spells(chars, start, end, &['f', 'o', 'r']) {
        Some(TokenKind::For)
    } else if spells(chars, start, end, &['f', 'u', 'n']) {
        Some(TokenKind::Fun)
    } else if spells(chars, start, end, &['i', 'f']) {
        Some(TokenKind::If)
    } else if spells(chars, start, end, &['l', 'e', 't']) {
        Some(TokenKind::Let)
    } else if spells(chars, start, end, &['n', 'i', 'l']) {
        Some(TokenKind::Nil)
    } else if spells(chars, start, end, &['o', 'r']) {
        Some(TokenKind::Or)
    } else if spells(chars, start, end, &['p', 'r', 'i', 'n', 't']) {
        Some(TokenKind::Print)
    } else if spells(chars, start, end, &['r', 'e', 't', 'u', 'r', 'n']) {
        Some(TokenKind::Return)
    } else if spells(chars, start, end, &['s', 'u', 'p', 'e', 'r']) {
        Some(TokenKind::Super)
    } else if spells(chars, start, end, &['t', 'h', 'i', 's']) {
        Some(TokenKind::This)
    } else if spells(chars, start, end, &['t', 'r', 'u', 'e']) {
        Some(TokenKind::True)
    } else if spells(chars, start, end, &['v', 'a', 'r']) {
        Some(TokenKind::Var)
    } else if spells(chars, start, end, &['w', 'h', 'i', 'l', 'e']) {
        Some(TokenKind::While)
    } else {
        None
    }
}


/// The value a literal token carries.
#[derive(Debug)]
pub enum LiteralKind {
    Number(i32),
    /// A single-precision float, by its IEEE-754 bit pattern.
    Float(u32),
    String(String),
    Bool(bool),
    Nil,
}

/// The mathematical content of a [`LiteralKind`].
pub enum LiteralView {
    Number(i32),
    Float(u32),
    String(Seq<char>),
    Bool(bool),
    Nil,
}

/// A literal value.
#[derive(Debug)]
pub struct Literal {
    pub value: LiteralKind,
}

impl View for Literal {
    type V = LiteralView;

    open spec fn view(&self) -> LiteralView {
        match &self.value {
            LiteralKind::Number(n) => LiteralView::Number(*n),
            LiteralKind::Float(b) => LiteralView::Float(*b),
            LiteralKind::String(s) => LiteralView::String(s@),
            LiteralKind::Bool(b) => LiteralView::Bool(*b),
            LiteralKind::Nil => LiteralView::Nil,
        }
    }
}

impl Clone for Literal {
    fn clone(&self) -> (r: Self)
        ensures
            r == *self,
    {
        match &self.value {
            LiteralKind::Number(n) => Literal { value: LiteralKind::Number(*n) },
            LiteralKind::Float(b) => Literal { value: LiteralKind::Float(*b) },
            LiteralKind::String(s) => Literal { value: LiteralKind::String(s.clone()) },
            LiteralKind::Bool(b) => Literal { value: LiteralKind::Bool(*b) },
            LiteralKind::Nil => Literal { value: LiteralKind::Nil },
        }
    }
}

impl Default for Literal {
    /// The nil literal.
    fn default() -> (r: Self)
        ensures
            r@ == LiteralView::Nil,
    {
        Literal { value: LiteralKind::Nil }
    }
}

impl From<i32> for Literal {
    fn from(i: i32) -> (r: Literal) {
        Literal { value: LiteralKind::Number(i) }
    }
}

impl vstd::std_specs::convert::FromSpecImpl<i32> for Literal {
    open spec fn obeys_from_spec() -> bool {
        true
    }

    open spec fn from_spec(v: i32) -> Literal {
        Literal { value: LiteralKind::Number(v) }
    }
}

impl From<bool> for Literal {
    fn from(b: bool) -> (r: Literal) {
        Literal { value: LiteralKind::Bool(b) }
    }
}

impl vstd::std_specs::convert::FromSpecImpl<bool> for Literal {
    open spec fn obeys_from_spec() -> bool {
        true
    }

    open spec fn from_spec(v: bool) -> Literal {
        Literal { value: LiteralKind::Bool(v) }
    }
}

impl Literal {
    /// An integer literal.
    pub fn number(n: i32) -> (r: Self)
        ensures
            r@ == LiteralView::Number(n),
    {
        Literal { value: LiteralKind::Number(n) }
    }

    /// A float literal, given by its IEEE-754 bit pattern.
    pub fn float(bits: u32) -> (r: Self)
        ensures
            r@ == LiteralView::Float(bits),
    {
        Literal { value: LiteralKind::Float(bits) }
    }

    /// A string literal.
    pub fn string(s: &str) -> (r: Self)
        ensures
            r@ == LiteralView::String(s@),
    {
        Literal { value: LiteralKind::String(text(s)) }
    }

    /// A boolean literal.
    pub fn boolean(b: bool) -> (r: Self)
        ensures
            r@ == LiteralView::Bool(b),
    {
        Literal { value: LiteralKind::Bool(b) }
    }

    /// The rendering of the literal: the decimal digits of a number, the
    /// engine's rendering of a float, the characters of a string, `true` or
    /// `false`, and `Nil`.
    pub fn to_string<F: Fn(FloatQuery) -> FloatAnswer>(&self, floats: &F) -> (r: String)
        requires
            engine_ok(*floats),
        ensures
            r@ == literal_text(*floats, self@),
    {
        match &self.value {
            LiteralKind::Number(n) => i32_text(*n),
            LiteralKind::Float(b) => ask_text(floats, FloatQuery::Display(*b)),
            LiteralKind::String(s) => s.clone(),
            LiteralKind::Bool(b) => if *b {
                text("true")
            } else {
                text("false")
            },
            LiteralKind::Nil => text("Nil"),
        }
    }
}

/// The rendering of a literal value.
pub open spec fn literal_text<F: Fn(FloatQuery) -> FloatAnswer>(f: F, l: LiteralView) -> Seq<char> {
    match l {
        LiteralView::Number(n) => signed_decimal_text(n as int),
        LiteralView::Float(b) => answer_text(answer(f, FloatQueryView::Display(b))),
        LiteralView::String(s) => s,
        LiteralView::Bool(b) => if b {
            "true"@
        } else {
            "false"@
        },
        LiteralView::Nil => "Nil"@,
    }
}

/// A token: its kind, the source text it was read from, the literal value it
/// carries, if any, and the line it ends on.
#[derive(Debug)]
pub struct Token {
    pub kind: TokenKind,
    pub lexeme: String,
    pub literal: Option<Literal>,
    pub line: usize,
}

/// The mathematical content of a [`Token`].
pub struct TokenView {
    pub kind: TokenKind,
    pub lexeme: Seq<char>,
    pub literal: Option<LiteralView>,
    pub line: usize,
}

/// The view of an optional literal.
pub open spec fn literal_view(l: Option<Literal>) -> Option<LiteralView> {
    match l {
        Some(v) => Some(v@),
        None => None,
    }
}

impl View for Token {
    type V = TokenView;

    open spec fn view(&self) -> TokenView {
        TokenView {
            kind: self.kind,
            lexeme: self.lexeme@,
            literal: literal_view(self.literal),
            line: self.line,
        }
    }
}

impl Clone for Token {
    fn clone(&self) -> (r: Self)
        ensures
            r == *self,
    {
        Token {
            kind: self.kind,
            lexeme: self.lexeme.clone(),
            literal: match &self.literal {
                Some(l) => Some(l.clone()),
                None => None,
            },
            line: self.line,
        }
    }
}

/// The rendering of a token: its kind, followed by a space and its literal
/// when it carries one.
pub open spec fn token_text<F: Fn(FloatQuery) -> FloatAnswer>(f: F, t: TokenView) -> Seq<char> {
    match t.literal {
        Some(l) => kind_text(t.kind) + " "@ + literal_text(f, l),
        None => kind_text(t.kind),
    }
}

impl Token {
    pub fn new(kind: TokenKind, lexeme: &str, literal: Option<Literal>, line: usize) -> (r: Self)
        ensures
            r.kind == kind,
            r.lexeme@ == lexeme@,
            r.literal == literal,
            r.line == line,
    {
        Token { kind, lexeme: text(lexeme), literal, line }
    }

    /// The rendering of the token (see [`token_text`]).
    pub fn to_string<F: Fn(FloatQuery) -> FloatAnswer>(&self, floats: &F) -> (r: String)
        requires
            engine_ok(*floats),
        ensures
            r@ == token_text(*floats, self@),
    {
        let mut r = self.kind.to_string();
        match &self.literal {
            Some(l) => {
                append(&mut r, " ");
                let t = l.to_string(floats);
                append(&mut r, t.as_str());
            },
            None => {},
        }
        r
    }
}

/// Whether two literal values are equal: of one variant, with equal
/// contents; two floats are equal as the engine says.
pub open spec fn literal_eq<F: Fn(FloatQuery) -> FloatAnswer>(f: F, a: LiteralView, b: LiteralView) -> bool {
    match (a, b) {
        (LiteralView::Number(x), LiteralView::Number(y)) => x == y,
        (LiteralView::Float(x), LiteralView::Float(y)) => truth_result(f, FloatQueryView::Equal(x, y)),
        (LiteralView::String(x), LiteralView::String(y)) => x == y,
        (LiteralView::Bool(x), LiteralView::Bool(y)) => x == y,
        (LiteralView::Nil, LiteralView::Nil) => true,
        _ => false,
    }
}

/// Whether two tokens are equal: of one kind, with the same lexeme, equal
/// literals (or none on either) and the same line.
pub open spec fn token_eq<F: Fn(FloatQuery) -> FloatAnswer>(f: F, a: TokenView, b: TokenView) -> bool {
    &&& a.kind == b.kind
    &&& a.lexeme == b.lexeme
    &&& match (a.literal, b.literal) {
        (Some(x), Some(y)) => literal_eq(f, x, y),
        (None, None) => true,
        _ => false,
    }
    &&& a.line == b.line
}

impl Literal {
    /// Whether two literals are equal (see [`literal_eq`]).
    pub fn equals<F: Fn(FloatQuery) -> FloatAnswer>(&self, other: &Literal, floats: &F) -> (r: bool)
        requires
            engine_ok(*floats),
        ensures
            r == literal_eq(*floats, self@, other@),
    {
        match (&self.value, &other.value) {
            (LiteralKind::Number(x), LiteralKind::Number(y)) => *x == *y,
            (LiteralKind::Float(x), LiteralKind::Float(y)) => ask_truth(floats, FloatQuery::Equal(*x, *y)),
            (LiteralKind::String(x), LiteralKind::String(y)) => *x == *y,
            (LiteralKind::Bool(x), LiteralKind::Bool(y)) => *x == *y,
            (LiteralKind::Nil, LiteralKind::Nil) => true,
            _ => false,
        }
    }
}

impl Token {
    /// Whether two tokens are equal (see [`token_eq`]).
    pub fn equals<F: Fn(FloatQuery) -> FloatAnswer>(&self, other: &Token, floats: &F) -> (r: bool)
        requires
            engine_ok(*floats),
        ensures
            r == token_eq(*floats, self@, other@),
    {
        if self.kind != other.kind || self.lexeme != other.lexeme || self.line != other.line {
            return false;
        }
        match (&self.literal, &other.literal) {
            (Some(x), Some(y)) => x.equals(y, floats),
            (None, None) => true,
            _ => false,
        }
    }
}

} // verus!
