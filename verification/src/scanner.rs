//! The scanner: source bytes in, tokens out.
//!
//! A token carries its kind, its lexeme (a copy of the source slice it was
//! read from, or the message text for an `Error` token), and the 1-based
//! source line it ends on. Lexical errors never stop the scanner; they come
//! out as `Error` tokens for the compiler to surface.

use vstd::prelude::*;
use vstd::string::StringSliceAdditionalSpecFns;
use crate::bytes::{copy_range, bytes_equal, text_bytes};
use crate::numbers::{is_ascii_digit, is_number_lexeme};

verus! {

#[derive(Clone, Copy, PartialEq, Eq, Structural, Debug)]
pub enum TokenType {
    LeftParen,
    RightParen,
    LeftBrace,
    RightBrace,
    Comma,
    Dot,
    Minus,
    Plus,
    Semicolon,
    Slash,
    Star,
    Bang,
    BangEqual,
    Equal,
    EqualEqual,
    Greater,
    GreaterEqual,
    Less,
    LessEqual,
    Identifier,
    String,
    Number,
    And,
    Class,
    Else,
    False,
    For,
    Fun,
    If,
    Nil,
    Or,
    Print,
    Return,
    Super,
    This,
    True,
    Var,
    While,
    Error,
    Eof,
}

#[derive(Clone, Debug)]
pub struct Token {
    pub kind: TokenType,
    pub lexeme: Vec<u8>,
    pub line: u32,
}

/// What every token out of the scanner satisfies: a number token's lexeme
/// has the number-literal shape, so it can be read as a binary64 value, and
/// a string token's lexeme still wears its two quotes.
pub open spec fn token_ok(t: Token) -> bool {
    &&& t.kind == TokenType::Number ==> is_number_lexeme(t.lexeme@)
    &&& t.kind == TokenType::String ==> t.lexeme@.len() >= 2
}

impl Token {
    pub fn new(kind: TokenType, lexeme: Vec<u8>, line: u32) -> (r: Token)
        ensures
            r.kind == kind,
            r.lexeme == lexeme,
            r.line == line,
    {
        Token { kind, lexeme, line }
    }

    /// A copy with the same kind, lexeme content and line.
    pub fn duplicate(&self) -> (r: Token)
        ensures
            r.kind == self.kind,
            r.lexeme@ == self.lexeme@,
            r.line == self.line,
    {
        Token { kind: self.kind, lexeme: copy_range(&self.lexeme, 0, self.lexeme.len()), line: self.line }
    }
}

/// The shape each token kind's lexeme has: punctuation and operators are
/// their exact characters, identifiers and keywords their exact spelling
/// (an identifier is never a keyword), numbers the number-literal shape,
/// strings their quoted contents with no quote inside, and an end-of-source
/// token is empty. An error token carries a message, not a lexeme.
pub open spec fn token_shape(kind: TokenType, lex: Seq<u8>) -> bool {
    match kind {
        TokenType::LeftParen => lex == seq![40u8],
        TokenType::RightParen => lex == seq![41u8],
        TokenType::LeftBrace => lex == seq![123u8],
        TokenType::RightBrace => lex == seq![125u8],
        TokenType::Comma => lex == seq![44u8],
        TokenType::Dot => lex == seq![46u8],
        TokenType::Minus => lex == seq![45u8],
        TokenType::Plus => lex == seq![43u8],
        TokenType::Semicolon => lex == seq![59u8],
        TokenType::Slash => lex == seq![47u8],
        TokenType::Star => lex == seq![42u8],
        TokenType::Bang => lex == seq![33u8],
        TokenType::BangEqual => lex == seq![33u8, 61u8],
        TokenType::Equal => lex == seq![61u8],
        TokenType::EqualEqual => lex == seq![61u8, 61u8],
        TokenType::Greater => lex == seq![62u8],
        TokenType::GreaterEqual => lex == seq![62u8, 61u8],
        TokenType::Less => lex == seq![60u8],
        TokenType::LessEqual => lex == seq![60u8, 61u8],
        TokenType::Identifier => lex.len() > 0 && is_ident_start(lex[0]) && (forall|i: int|
            0 <= i < lex.len() ==> is_ident_part(#[trigger] lex[i])) && spec_keyword_kind(lex)
            == TokenType::Identifier,
        TokenType::String => lex.len() >= 2 && lex[0] == 34 && lex[lex.len() - 1] == 34 && (
        forall|i: int| 0 < i < lex.len() - 1 ==> #[trigger] lex[i] != 34),
        TokenType::Number => is_number_lexeme(lex),
        TokenType::Error => true,
        TokenType::Eof => lex.len() == 0,
        _ => spec_keyword_kind(lex) == kind,
    }
}

/// The line counter after one more line: one up, saturating at the top.
pub open spec fn next_line(line: u32) -> u32 {
    if line < u32::MAX {
        (line + 1) as u32
    } else {
        u32::MAX
    }
}

/// The line counter after `k` more lines, saturating at the top.
pub open spec fn line_after(line: u32, k: nat) -> u32
    decreases k,
{
    if k == 0 {
        line
    } else {
        next_line(line_after(line, (k - 1) as nat))
    }
}

/// How many line feeds `s` holds in `[from, to)`.
pub open spec fn newlines_in(s: Seq<u8>, from: int, to: int) -> nat
    decreases to - from,
{
    if from >= to {
        0
    } else {
        newlines_in(s, from, to - 1) + (if s[to - 1] == 10 {
            1nat
        } else {
            0nat
        })
    }
}

/// Counting line feeds splits over adjacent regions.
pub proof fn lemma_newlines_split(s: Seq<u8>, a: int, b: int, c: int)
    requires
        a <= b <= c,
    ensures
        newlines_in(s, a, c) == newlines_in(s, a, b) + newlines_in(s, b, c),
    decreases c - b,
{
    if b < c {
        lemma_newlines_split(s, a, b, c - 1);
    }
}

/// A region without line feeds counts none.
pub proof fn lemma_newlines_none(s: Seq<u8>, a: int, b: int)
    requires
        forall|j: int| a <= j < b ==> #[trigger] s[j] != 10,
    ensures
        newlines_in(s, a, b) == 0,
    decreases b - a,
{
    if a < b {
        lemma_newlines_none(s, a, b - 1);
    }
}

/// Line counting composes: stepping `j` lines and then `k` more is stepping
/// `j + k`.
pub proof fn lemma_line_after_split(line: u32, j: nat, k: nat)
    ensures
        line_after(line_after(line, j), k) == line_after(line, j + k),
    decreases k,
{
    if k > 0 {
        lemma_line_after_split(line, j, (k - 1) as nat);
    }
}

/// A letter or underscore, the bytes an identifier may start with.
pub open spec fn is_ident_start(b: u8) -> bool {
    (65 <= b <= 90) || (97 <= b <= 122) || b == 95
}

/// A byte some token starts with; any other byte is a lexical fault.
pub open spec fn starts_token(b: u8) -> bool {
    ||| is_ident_start(b)
    ||| is_ascii_digit(b)
    ||| b == 40
    ||| b == 41
    ||| b == 123
    ||| b == 125
    ||| b == 59
    ||| b == 44
    ||| b == 46
    ||| b == 45
    ||| b == 43
    ||| b == 47
    ||| b == 42
    ||| b == 33
    ||| b == 61
    ||| b == 60
    ||| b == 62
    ||| b == 34
}

/// A byte that may continue an identifier.
pub open spec fn is_ident_part(b: u8) -> bool {
    is_ident_start(b) || is_ascii_digit(b)
}

pub struct Scanner {
    pub source: Vec<u8>,
    pub start: usize,
    pub current: usize,
    pub line: u32,
}

impl Scanner {
    pub open spec fn wf(self) -> bool {
        self.start <= self.current <= self.source@.len()
    }

    pub fn new(source: Vec<u8>) -> (r: Scanner)
        ensures
            r.wf(),
            r.current == 0,
            r.line == 1,
            r.source == source,
    {
        Scanner { source, start: 0, current: 0, line: 1 }
    }

    fn is_at_end(&self) -> (r: bool)
        ensures
            r == (self.current == self.source@.len()),
    {
        self.current == self.source.len()
    }

    /// The byte under the cursor, if any.
    fn peek(&self) -> (r: Option<u8>)
        requires
            self.wf(),
        ensures
            self.current < self.source@.len() ==> r == Some(self.source@[self.current as int]),
            self.current == self.source@.len() ==> r is None,
    {
        if self.current < self.source.len() {
            Some(self.source[self.current])
        } else {
            None
        }
    }

    /// The byte after the cursor, if any.
    fn peek_next(&self) -> (r: Option<u8>)
        requires
            self.wf(),
        ensures
            self.current + 1 < self.source@.len() ==> r == Some(self.source@[self.current + 1]),
            self.current + 1 >= self.source@.len() ==> r is None,
    {
        if self.current < self.source.len() && self.current + 1 < self.source.len() {
            Some(self.source[self.current + 1])
        } else {
            None
        }
    }

    /// Consume and return the byte under the cursor.
    fn advance(&mut self) -> (r: u8)
        requires
            old(self).wf(),
            old(self).current < old(self).source@.len(),
        ensures
            final(self).wf(),
            r == old(self).source@[old(self).current as int],
            final(self).current == old(self).current + 1,
            final(self).source == old(self).source,
            final(self).start == old(self).start,
            final(self).line == old(self).line,
    {
        let n = self.source.len();
        let b = self.source[self.current];
        self.current = self.current + 1;
        assert(self.current <= n);
        b
    }

    /// Consume the byte under the cursor when it is `c`.
    fn match_byte(&mut self, c: u8) -> (r: bool)
        requires
            old(self).wf(),
        ensures
            final(self).wf(),
            final(self).source == old(self).source,
            final(self).start == old(self).start,
            final(self).line == old(self).line,
            r == (old(self).current < old(self).source@.len()
                && old(self).source@[old(self).current as int] == c),
            r ==> final(self).current == old(self).current + 1,
            !r ==> final(self).current == old(self).current,
    {
        if self.current < self.source.len() && self.source[self.current] == c {
            self.current = self.current + 1;
            true
        } else {
            false
        }
    }

    /// Move to the next source line, stopping at the largest line number
    /// rather than wrapping.
    fn bump_line(&mut self)
        ensures
            final(self).source == old(self).source,
            final(self).start == old(self).start,
            final(self).current == old(self).current,
            final(self).line == next_line(old(self).line),
    {
        if self.line < u32::MAX {
            self.line = self.line + 1;
        }
    }

    /// A token whose lexeme is the source slice scanned since `start`.
    fn make_token(&self, kind: TokenType) -> (r: Token)
        requires
            self.wf(),
        ensures
            r.kind == kind,
            r.lexeme@ == self.source@.subrange(self.start as int, self.current as int),
            r.line == self.line,
    {
        Token {
            kind,
            lexeme: copy_range(&self.source, self.start, self.current),
            line: self.line,
        }
    }

    /// An error token carrying a message instead of a lexeme.
    fn error_token(&self, msg: &str) -> (r: Token)
        ensures
            r.kind == TokenType::Error,
            r.line == self.line,
            r.lexeme@ == msg.spec_bytes(),
    {
        Token { kind: TokenType::Error, lexeme: text_bytes(msg), line: self.line }
    }

    /// A one-character token: the byte just consumed.
    fn single_token(&self, kind: TokenType, b: u8) -> (r: Token)
        requires
            self.wf(),
            self.start + 1 == self.current,
            self.source@[self.start as int] == b,
            b != 10,
            token_shape(kind, seq![b]),
        ensures
            r.kind == kind,
            r.line == self.line,
            r.lexeme@ == self.source@.subrange(self.start as int, self.current as int),
            token_shape(r.kind, r.lexeme@),
            newlines_in(self.source@, self.start as int, self.current as int) == 0,
    {
        let t = self.make_token(kind);
        proof {
            assert(t.lexeme@ =~= seq![b]);
            assert(newlines_in(self.source@, self.start as int, self.start as int) == 0);
            assert(newlines_in(self.source@, self.start as int, self.start + 1) == 0);
        }
        t
    }

    /// A two-character token: the two bytes just consumed.
    fn double_token(&self, kind: TokenType, b0: u8, b1: u8) -> (r: Token)
        requires
            self.wf(),
            self.start + 2 == self.current,
            self.source@[self.start as int] == b0,
            self.source@[self.start + 1] == b1,
            b0 != 10,
            b1 != 10,
            token_shape(kind, seq![b0, b1]),
        ensures
            r.kind == kind,
            r.line == self.line,
            r.lexeme@ == self.source@.subrange(self.start as int, self.current as int),
            token_shape(r.kind, r.lexeme@),
            newlines_in(self.source@, self.start as int, self.current as int) == 0,
    {
        let t = self.make_token(kind);
        proof {
            assert(t.lexeme@ =~= seq![b0, b1]);
            assert(newlines_in(self.source@, self.start as int, self.start as int) == 0);
            assert(newlines_in(self.source@, self.start as int, self.start + 1) == 0);
            assert(newlines_in(self.source@, self.start as int, self.start + 2) == 0);
        }
        t
    }

    /// Skip whitespace and line comments, stepping the line counter once
    /// per line feed skipped.
    fn skip_whitespace(&mut self)
        requires
            old(self).wf(),
        ensures
            final(self).wf(),
            final(self).source == old(self).source,
            final(self).start == old(self).start,
            final(self).current >= old(self).current,
            final(self).line == line_after(
                old(self).line,
                newlines_in(old(self).source@, old(self).current as int, final(self).current as int),
            ),
            final(self).current < final(self).source@.len() ==> final(self).source@[final(
            self).current as int] != 10,
    {
        loop
            invariant
                self.wf(),
                self.source == old(self).source,
                self.start == old(self).start,
                self.current >= old(self).current,
                self.line == line_after(
                    old(self).line,
                    newlines_in(self.source@, old(self).current as int, self.current as int),
                ),
            decreases self.source@.len() - self.current,
        {
            if self.current == self.source.len() {
                return;
            }
            let c = self.source[self.current];
            if c == 10 {
                self.bump_line();
                self.current = self.current + 1;
            } else if c == 32 || c == 9 || c == 11 || c == 12 || c == 13 {
                self.current = self.current + 1;
            } else if c == 47 {
                // a '/' opens a comment only together with a second one
                if self.current + 1 < self.source.len() && self.source[self.current + 1] == 47 {
                    let ghost before = self.current as int;
                    self.current = self.current + 2;
                    proof {
                        assert(newlines_in(self.source@, old(self).current as int, before + 1)
                            == newlines_in(self.source@, old(self).current as int, before));
                        assert(newlines_in(self.source@, old(self).current as int, before + 2)
                            == newlines_in(self.source@, old(self).current as int, before + 1));
                    }
                    while self.current < self.source.len() && self.source[self.current] != 10
                        invariant
                            self.wf(),
                            self.source == old(self).source,
                            self.start == old(self).start,
                            self.current >= old(self).current,
                            self.current > before,
                            self.line == line_after(
                                old(self).line,
                                newlines_in(
                                    self.source@,
                                    old(self).current as int,
                                    self.current as int,
                                ),
                            ),
                        decreases self.source@.len() - self.current,
                    {
                        self.current = self.current + 1;
                    }
                } else {
                    return;
                }
            } else {
                return;
            }
        }
    }

    /// Scan an identifier or keyword; the byte before the cursor started it.
    fn identifier(&mut self) -> (r: Token)
        requires
            old(self).wf(),
            old(self).start < old(self).current,
            is_ident_start(old(self).source@[old(self).start as int]),
            forall|j: int|
                old(self).start <= j < old(self).current ==> is_ident_part(
                    #[trigger] old(self).source@[j]),
        ensures
            final(self).wf(),
            final(self).source == old(self).source,
            final(self).start == old(self).start,
            final(self).line == old(self).line,
            final(self).current >= old(self).current,
            final(self).start < final(self).current,
            r.lexeme@ == final(self).source@.subrange(
                final(self).start as int,
                final(self).current as int,
            ),
            r.line == final(self).line,
            token_ok(r),
            token_shape(r.kind, r.lexeme@),
            r.kind != TokenType::Eof,
            r.kind != TokenType::Error,
            final(self).current == final(self).source@.len() || !is_ident_part(
                final(self).source@[final(self).current as int],
            ),
            newlines_in(final(self).source@, old(self).current as int, final(self).current as int)
                == 0,
    {
        while self.current < self.source.len()
            && (self.source[self.current] == 95
                || (65 <= self.source[self.current] && self.source[self.current] <= 90)
                || (97 <= self.source[self.current] && self.source[self.current] <= 122)
                || (48 <= self.source[self.current] && self.source[self.current] <= 57))
            invariant
                self.wf(),
                self.source == old(self).source,
                self.start == old(self).start,
                self.line == old(self).line,
                self.current >= old(self).current,
                self.start < self.current,
                is_ident_start(self.source@[self.start as int]),
                forall|j: int|
                    self.start <= j < self.current ==> is_ident_part(#[trigger] self.source@[j]),
            decreases self.source@.len() - self.current,
        {
            self.current = self.current + 1;
        }
        let lexeme = copy_range(&self.source, self.start, self.current);
        let kind = keyword_kind(&lexeme);
        proof {
            let lex = lexeme@;
            assert forall|i: int| 0 <= i < lex.len() implies is_ident_part(#[trigger] lex[i]) by {
                assert(lex[i] == self.source@[self.start + i]);
            }
            assert(lex[0] == self.source@[self.start as int]);
            assert(token_shape(kind, lex));
            lemma_newlines_none(self.source@, old(self).current as int, self.current as int);
        }
        Token { kind, lexeme, line: self.line }
    }

    /// Scan a number literal; the byte before the cursor was its first digit.
    fn number(&mut self) -> (r: Token)
        requires
            old(self).wf(),
            old(self).start < old(self).current,
            is_ascii_digit(old(self).source@[old(self).start as int]),
            forall|j: int|
                old(self).start <= j < old(self).current ==> is_ascii_digit(
                    #[trigger] old(self).source@[j]),
        ensures
            final(self).wf(),
            final(self).source == old(self).source,
            final(self).start == old(self).start,
            final(self).line == old(self).line,
            final(self).current >= old(self).current,
            final(self).start < final(self).current,
            r.lexeme@ == final(self).source@.subrange(
                final(self).start as int,
                final(self).current as int,
            ),
            r.line == final(self).line,
            r.kind == TokenType::Number,
            token_ok(r),
            token_shape(r.kind, r.lexeme@),
            final(self).current == final(self).source@.len() || !is_ascii_digit(
                final(self).source@[final(self).current as int],
            ),
            final(self).current < final(self).source@.len() && final(self).source@[final(
            self).current as int] == 46 ==> (exists|j: int|
                final(self).start <= j < final(self).current && (#[trigger] final(self).source@[j])
                    == 46) || final(self).current + 1 >= final(self).source@.len()
                || !is_ascii_digit(final(self).source@[final(self).current + 1]),
            newlines_in(final(self).source@, old(self).current as int, final(self).current as int)
                == 0,
    {
        while self.current < self.source.len()
            && 48 <= self.source[self.current] && self.source[self.current] <= 57
            invariant
                self.wf(),
                self.source == old(self).source,
                self.start == old(self).start,
                self.line == old(self).line,
                self.current >= old(self).current,
                self.start < self.current,
                forall|j: int| self.start <= j < self.current ==> is_ascii_digit(#[trigger] self.source@[j]),
            decreases self.source@.len() - self.current,
        {
            self.current = self.current + 1;
        }
        let ghost dot = self.current as int;
        if self.current < self.source.len() && self.source[self.current] == 46
            && self.current + 1 < self.source.len()
            && 48 <= self.source[self.current + 1] && self.source[self.current + 1] <= 57 {
            self.current = self.current + 1;
            while self.current < self.source.len()
                && 48 <= self.source[self.current] && self.source[self.current] <= 57
                invariant
                    self.wf(),
                    self.source == old(self).source,
                    self.start == old(self).start,
                    self.line == old(self).line,
                    self.start <= dot < self.current,
                    self.current >= old(self).current,
                    self.source@[dot] == 46,
                    dot + 1 < self.source@.len(),
                    is_ascii_digit(self.source@[dot + 1]),
                    forall|j: int| self.start <= j < dot ==> is_ascii_digit(#[trigger] self.source@[j]),
                    forall|j: int| dot < j < self.current ==> is_ascii_digit(#[trigger] self.source@[j]),
                decreases self.source@.len() - self.current,
            {
                self.current = self.current + 1;
            }
            let t = self.make_token(TokenType::Number);
            proof {
                let s = self.source@.subrange(self.start as int, self.current as int);
                assert forall|i: int| 0 <= i < s.len() implies (is_ascii_digit(s[i]) || s[i]
                    == 46) by {
                    assert(s[i] == self.source@[self.start + i]);
                }
                assert(is_number_lexeme(t.lexeme@));
                assert(self.start <= dot < self.current && self.source@[dot] == 46);
                lemma_newlines_none(self.source@, old(self).current as int, self.current as int);
            }
            t
        } else {
            let t = self.make_token(TokenType::Number);
            proof {
                let s = self.source@.subrange(self.start as int, self.current as int);
                assert forall|i: int| 0 <= i < s.len() implies is_ascii_digit(s[i]) by {
                    assert(s[i] == self.source@[self.start + i]);
                }
                assert(is_number_lexeme(t.lexeme@));
                lemma_newlines_none(self.source@, old(self).current as int, self.current as int);
            }
            t
        }
    }

    /// Scan a string literal; the opening quote came before the cursor. The
    /// lexeme keeps both quotes; line feeds inside count as source lines.
    fn string(&mut self) -> (r: Token)
        requires
            old(self).wf(),
            old(self).current == old(self).start + 1,
            old(self).source@[old(self).start as int] == 34,
        ensures
            final(self).wf(),
            final(self).source == old(self).source,
            final(self).start == old(self).start,
            final(self).current >= old(self).current,
            r.kind == TokenType::String || r.kind == TokenType::Error,
            r.line == final(self).line,
            token_ok(r),
            r.kind == TokenType::String ==> final(self).start < final(self).current && r.lexeme@
                == final(self).source@.subrange(
                final(self).start as int,
                final(self).current as int,
            ) && token_shape(r.kind, r.lexeme@),
            (r.kind == TokenType::Error) == (forall|j: int|
                old(self).current <= j < old(self).source@.len() ==> #[trigger] old(
                self).source@[j] != 34),
            r.kind == TokenType::Error ==> r.lexeme@ == "Unterminated string.".spec_bytes()
                && final(self).current == final(self).source@.len(),
            final(self).line == line_after(
                old(self).line,
                newlines_in(old(self).source@, old(self).current as int, final(self).current as int),
            ),
    {
        while self.current < self.source.len() && self.source[self.current] != 34
            invariant
                self.wf(),
                self.source == old(self).source,
                self.start == old(self).start,
                self.current >= old(self).current,
                self.start < self.current,
                self.source@[self.start as int] == 34,
                forall|j: int| self.start < j < self.current ==> #[trigger] self.source@[j] != 34,
                self.line == line_after(
                    old(self).line,
                    newlines_in(self.source@, old(self).current as int, self.current as int),
                ),
            decreases self.source@.len() - self.current,
        {
            if self.source[self.current] == 10 {
                self.bump_line();
            }
            self.current = self.current + 1;
        }
        if self.current == self.source.len() {
            self.error_token("Unterminated string.")
        } else {
            // consume the closing quote; with the opening one the lexeme
            // spans at least two bytes
            self.current = self.current + 1;
            let t = self.make_token(TokenType::String);
            proof {
                let lex = t.lexeme@;
                assert forall|i: int| 0 < i < lex.len() - 1 implies #[trigger] lex[i] != 34 by {
                    assert(lex[i] == self.source@[self.start + i]);
                }
                assert(lex[0] == self.source@[self.start as int]);
                assert(lex[lex.len() - 1] == self.source@[self.current - 1]);
            }
            t
        }
    }

    /// Scan and return one token: skip whitespace and comments, then read
    /// the lexeme beginning at the cursor, as far as it reaches. A token
    /// other than an error carries exactly its kind's lexeme shape; one
    /// other than an error or the end of the source carries the source
    /// slice it was read from, and the cursor ends just past it. At the end
    /// of the source the token is `Eof` and the cursor stays put. The line
    /// counter steps once per line feed passed over, and the token carries
    /// the line it ends on. An error token comes exactly from a byte no
    /// token starts with, or from a string literal no quote closes.
    pub fn scan_token(&mut self) -> (r: Token)
        requires
            old(self).wf(),
        ensures
            final(self).wf(),
            final(self).source == old(self).source,
            final(self).current >= old(self).current,
            r.kind != TokenType::Eof ==> final(self).current > old(self).current,
            r.line == final(self).line,
            token_ok(r),
            r.kind != TokenType::Error ==> token_shape(r.kind, r.lexeme@),
            r.kind == TokenType::Eof ==> final(self).current == final(self).source@.len(),
            r.kind != TokenType::Error && r.kind != TokenType::Eof ==> final(self).start < final(
            self).current <= final(self).source@.len() && r.lexeme@
                == final(self).source@.subrange(
                final(self).start as int,
                final(self).current as int,
            ),
            final(self).line == line_after(
                old(self).line,
                newlines_in(old(self).source@, old(self).current as int, final(self).current as int),
            ),
            (r.kind == TokenType::Error) == (final(self).start < final(self).source@.len() && (
            !starts_token(final(self).source@[final(self).start as int]) || (final(self).source@[
                final(self).start as int
            ] == 34 && forall|j: int|
                final(self).start < j < final(self).source@.len() ==> #[trigger] final(
                self).source@[j] != 34))),
            r.kind == TokenType::Error ==> r.lexeme@ == (if !starts_token(
                final(self).source@[final(self).start as int],
            ) {
                "Unexpected character.".spec_bytes()
            } else {
                "Unterminated string.".spec_bytes()
            }),
    {
        self.skip_whitespace();
        self.start = self.current;
        let ghost mid = *self;
        if self.is_at_end() {
            let t = self.make_token(TokenType::Eof);
            proof {
                assert(t.lexeme@.len() == 0);
            }
            return t;
        }
        let c = self.advance();
        let t = if is_ident_start_byte(c) {
            self.identifier()
        } else if 48 <= c && c <= 57 {
            self.number()
        } else {
            match c {
                40 => self.single_token(TokenType::LeftParen, c),
                41 => self.single_token(TokenType::RightParen, c),
                123 => self.single_token(TokenType::LeftBrace, c),
                125 => self.single_token(TokenType::RightBrace, c),
                59 => self.single_token(TokenType::Semicolon, c),
                44 => self.single_token(TokenType::Comma, c),
                46 => self.single_token(TokenType::Dot, c),
                45 => self.single_token(TokenType::Minus, c),
                43 => self.single_token(TokenType::Plus, c),
                47 => self.single_token(TokenType::Slash, c),
                42 => self.single_token(TokenType::Star, c),
                33 => {
                    if self.match_byte(61) {
                        self.double_token(TokenType::BangEqual, c, 61)
                    } else {
                        self.single_token(TokenType::Bang, c)
                    }
                },
                61 => {
                    if self.match_byte(61) {
                        self.double_token(TokenType::EqualEqual, c, 61)
                    } else {
                        self.single_token(TokenType::Equal, c)
                    }
                },
                60 => {
                    if self.match_byte(61) {
                        self.double_token(TokenType::LessEqual, c, 61)
                    } else {
                        self.single_token(TokenType::Less, c)
                    }
                },
                62 => {
                    if self.match_byte(61) {
                        self.double_token(TokenType::GreaterEqual, c, 61)
                    } else {
                        self.single_token(TokenType::Greater, c)
                    }
                },
                34 => self.string(),
                _ => self.error_token("Unexpected character."),
            }
        };
        proof {
            let s = old(self).source@;
            let a = old(self).current as int;
            let b = mid.current as int;
            let e = self.current as int;
            lemma_newlines_split(s, a, b, e);
            if b < e {
                lemma_newlines_split(s, b, b + 1, e);
                assert(newlines_in(s, b, b) == 0);
                assert(newlines_in(s, b, b + 1) == 0);
            }
            lemma_line_after_split(old(self).line, newlines_in(s, a, b), newlines_in(s, b, e));
        }
        t
    }

    /// Scan the whole source: a token list ending in exactly one `Eof`,
    /// every token of its kind's lexeme shape.
    pub fn scan_tokens(&mut self) -> (r: Vec<Token>)
        requires
            old(self).wf(),
        ensures
            r@.len() >= 1,
            r@[r@.len() - 1].kind == TokenType::Eof,
            forall|i: int| 0 <= i < r@.len() - 1 ==> (#[trigger] r@[i]).kind != TokenType::Eof,
            forall|i: int| 0 <= i < r@.len() ==> token_ok(#[trigger] r@[i]),
            forall|i: int|
                0 <= i < r@.len() ==> ((#[trigger] r@[i]).kind != TokenType::Error ==> token_shape(
                    r@[i].kind,
                    r@[i].lexeme@,
                )),
    {
        let mut out: Vec<Token> = Vec::new();
        loop
            invariant_except_break
                self.wf(),
                self.source == old(self).source,
                forall|i: int| 0 <= i < out@.len() ==> (#[trigger] out@[i]).kind != TokenType::Eof,
                forall|i: int| 0 <= i < out@.len() ==> token_ok(#[trigger] out@[i]),
                forall|i: int|
                    0 <= i < out@.len() ==> ((#[trigger] out@[i]).kind != TokenType::Error
                        ==> token_shape(out@[i].kind, out@[i].lexeme@)),
            ensures
                out@.len() >= 1,
                out@[out@.len() - 1].kind == TokenType::Eof,
                forall|i: int| 0 <= i < out@.len() - 1 ==> (#[trigger] out@[i]).kind != TokenType::Eof,
                forall|i: int| 0 <= i < out@.len() ==> token_ok(#[trigger] out@[i]),
                forall|i: int|
                    0 <= i < out@.len() ==> ((#[trigger] out@[i]).kind != TokenType::Error
                        ==> token_shape(out@[i].kind, out@[i].lexeme@)),
            decreases self.source@.len() - self.current,
        {
            let t = self.scan_token();
            let is_eof = matches!(t.kind, TokenType::Eof);
            out.push(t);
            if is_eof {
                break;
            }
        }
        out
    }
}

/// Exec mirror of `is_ident_start`.
fn is_ident_start_byte(b: u8) -> (r: bool)
    ensures
        r == is_ident_start(b),
{
    (65 <= b && b <= 90) || (97 <= b && b <= 122) || b == 95
}

/// The keyword table: what an identifier-shaped lexeme scans as.
pub open spec fn spec_keyword_kind(s: Seq<u8>) -> TokenType {
    if s == "and".spec_bytes() { TokenType::And }
    else if s == "class".spec_bytes() { TokenType::Class }
    else if s == "else".spec_bytes() { TokenType::Else }
    else if s == "false".spec_bytes() { TokenType::False }
    else if s == "for".spec_bytes() { TokenType::For }
    else if s == "fun".spec_bytes() { TokenType::Fun }
    else if s == "if".spec_bytes() { TokenType::If }
    else if s == "nil".spec_bytes() { TokenType::Nil }
    else if s == "or".spec_bytes() { TokenType::Or }
    else if s == "print".spec_bytes() { TokenType::Print }
    else if s == "return".spec_bytes() { TokenType::Return }
    else if s == "super".spec_bytes() { TokenType::Super }
    else if s == "this".spec_bytes() { TokenType::This }
    else if s == "true".spec_bytes() { TokenType::True }
    else if s == "var".spec_bytes() { TokenType::Var }
    else if s == "while".spec_bytes() { TokenType::While }
    else { TokenType::Identifier }
}

/// Decide whether an identifier lexeme is a keyword, dispatching on its
/// first byte and then holding the whole lexeme against the one or three
/// keywords that start with it: exactly the keyword table's lookup.
fn keyword_kind(lexeme: &Vec<u8>) -> (r: TokenType)
    requires
        lexeme@.len() > 0,
    ensures
        r == spec_keyword_kind(lexeme@),
{
    proof {
        lemma_keyword_bytes();
    }
    let c = lexeme[0];
    if c == 97 {
        if bytes_equal(lexeme, &text_bytes("and")) { return TokenType::And; }
    } else if c == 99 {
        if bytes_equal(lexeme, &text_bytes("class")) { return TokenType::Class; }
    } else if c == 101 {
        if bytes_equal(lexeme, &text_bytes("else")) { return TokenType::Else; }
    } else if c == 102 {
        if bytes_equal(lexeme, &text_bytes("false")) { return TokenType::False; }
        if bytes_equal(lexeme, &text_bytes("for")) { return TokenType::For; }
        if bytes_equal(lexeme, &text_bytes("fun")) { return TokenType::Fun; }
    } else if c == 105 {
        if bytes_equal(lexeme, &text_bytes("if")) { return TokenType::If; }
    } else if c == 110 {
        if bytes_equal(lexeme, &text_bytes("nil")) { return TokenType::Nil; }
    } else if c == 111 {
        if bytes_equal(lexeme, &text_bytes("or")) { return TokenType::Or; }
    } else if c == 112 {
        if bytes_equal(lexeme, &text_bytes("print")) { return TokenType::Print; }
    } else if c == 114 {
        if bytes_equal(lexeme, &text_bytes("return")) { return TokenType::Return; }
    } else if c == 115 {
        if bytes_equal(lexeme, &text_bytes("super")) { return TokenType::Super; }
    } else if c == 116 {
        if bytes_equal(lexeme, &text_bytes("this")) { return TokenType::This; }
        if bytes_equal(lexeme, &text_bytes("true")) { return TokenType::True; }
    } else if c == 118 {
        if bytes_equal(lexeme, &text_bytes("var")) { return TokenType::Var; }
    } else if c == 119 {
        if bytes_equal(lexeme, &text_bytes("while")) { return TokenType::While; }
    }
    TokenType::Identifier
}

/// The bytes of each keyword, so the comparisons in `keyword_kind` decide
/// `spec_keyword_kind` branch for branch.
proof fn lemma_keyword_bytes()
    ensures
        "and".spec_bytes() == seq![97u8, 110u8, 100u8],
        "class".spec_bytes() == seq![99u8, 108u8, 97u8, 115u8, 115u8],
        "else".spec_bytes() == seq![101u8, 108u8, 115u8, 101u8],
        "false".spec_bytes() == seq![102u8, 97u8, 108u8, 115u8, 101u8],
        "for".spec_bytes() == seq![102u8, 111u8, 114u8],
        "fun".spec_bytes() == seq![102u8, 117u8, 110u8],
        "if".spec_bytes() == seq![105u8, 102u8],
        "nil".spec_bytes() == seq![110u8, 105u8, 108u8],
        "or".spec_bytes() == seq![111u8, 114u8],
        "print".spec_bytes() == seq![112u8, 114u8, 105u8, 110u8, 116u8],
        "return".spec_bytes() == seq![114u8, 101u8, 116u8, 117u8, 114u8, 110u8],
        "super".spec_bytes() == seq![115u8, 117u8, 112u8, 101u8, 114u8],
        "this".spec_bytes() == seq![116u8, 104u8, 105u8, 115u8],
        "true".spec_bytes() == seq![116u8, 114u8, 117u8, 101u8],
        "var".spec_bytes() == seq![118u8, 97u8, 114u8],
        "while".spec_bytes() == seq![119u8, 104u8, 105u8, 108u8, 101u8],
{
    broadcast use vstd::string::group_string_axioms;

    reveal_strlit("and");
    assert(vstd::string::is_ascii("and"));
    assert("and".spec_bytes() =~= seq![97u8, 110u8, 100u8]);
    reveal_strlit("class");
    assert(vstd::string::is_ascii("class"));
    assert("class".spec_bytes() =~= seq![99u8, 108u8, 97u8, 115u8, 115u8]);
    reveal_strlit("else");
    assert(vstd::string::is_ascii("else"));
    assert("else".spec_bytes() =~= seq![101u8, 108u8, 115u8, 101u8]);
    reveal_strlit("false");
    assert(vstd::string::is_ascii("false"));
    assert("false".spec_bytes() =~= seq![102u8, 97u8, 108u8, 115u8, 101u8]);
    reveal_strlit("for");
    assert(vstd::string::is_ascii("for"));
    assert("for".spec_bytes() =~= seq![102u8, 111u8, 114u8]);
    reveal_strlit("fun");
    assert(vstd::string::is_ascii("fun"));
    assert("fun".spec_bytes() =~= seq![102u8, 117u8, 110u8]);
    reveal_strlit("if");
    assert(vstd::string::is_ascii("if"));
    assert("if".spec_bytes() =~= seq![105u8, 102u8]);
    reveal_strlit("nil");
    assert(vstd::string::is_ascii("nil"));
    assert("nil".spec_bytes() =~= seq![110u8, 105u8, 108u8]);
    reveal_strlit("or");
    assert(vstd::string::is_ascii("or"));
    assert("or".spec_bytes() =~= seq![111u8, 114u8]);
    reveal_strlit("print");
    assert(vstd::string::is_ascii("print"));
    assert("print".spec_bytes() =~= seq![112u8, 114u8, 105u8, 110u8, 116u8]);
    reveal_strlit("return");
    assert(vstd::string::is_ascii("return"));
    assert("return".spec_bytes() =~= seq![114u8, 101u8, 116u8, 117u8, 114u8, 110u8]);
    reveal_strlit("super");
    assert(vstd::string::is_ascii("super"));
    assert("super".spec_bytes() =~= seq![115u8, 117u8, 112u8, 101u8, 114u8]);
    reveal_strlit("this");
    assert(vstd::string::is_ascii("this"));
    assert("this".spec_bytes() =~= seq![116u8, 104u8, 105u8, 115u8]);
    reveal_strlit("true");
    assert(vstd::string::is_ascii("true"));
    assert("true".spec_bytes() =~= seq![116u8, 114u8, 117u8, 101u8]);
    reveal_strlit("var");
    assert(vstd::string::is_ascii("var"));
    assert("var".spec_bytes() =~= seq![118u8, 97u8, 114u8]);
    reveal_strlit("while");
    assert(vstd::string::is_ascii("while"));
    assert("while".spec_bytes() =~= seq![119u8, 104u8, 105u8, 108u8, 101u8]);
}

} // verus!
