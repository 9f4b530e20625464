//! The lexer: converts source text into a stream of tokens, one at a time,
//! on demand.
//!
//! The function `spec_next_token` is the mathematical model of lexing: given
//! the source and a position, it says which token starts there and where the
//! next one begins. `Lexer::next_token` is proved to follow it exactly.

use vstd::prelude::*;

use crate::token::Token;
use crate::token::TokenV;

verus! {

/// The whitespace characters the lexer skips before each token.
pub open spec fn is_whitespace_char(c: char) -> bool {
    c == ' ' || c == '\t' || c == '\n' || c == '\r'
}

/// The characters an identifier or keyword is made of.
pub open spec fn is_letter_char(c: char) -> bool {
    ('a' <= c && c <= 'z') || ('A' <= c && c <= 'Z') || c == '_'
}

/// The decimal digits.
pub open spec fn is_digit_char(c: char) -> bool {
    '0' <= c && c <= '9'
}

/// The numeric value of a decimal digit.
pub open spec fn digit_value(c: char) -> int
    recommends
        is_digit_char(c),
{
    c as int - '0' as int
}

/// The first position at or after `pos` that does not hold whitespace.
pub open spec fn whitespace_end(s: Seq<char>, pos: int) -> int
    decreases s.len() - pos,
{
    if 0 <= pos < s.len() && is_whitespace_char(s[pos]) {
        whitespace_end(s, pos + 1)
    } else {
        pos
    }
}

/// The first position at or after `pos` that does not hold a letter.
pub open spec fn ident_end(s: Seq<char>, pos: int) -> int
    decreases s.len() - pos,
{
    if 0 <= pos < s.len() && is_letter_char(s[pos]) {
        ident_end(s, pos + 1)
    } else {
        pos
    }
}

/// The first position at or after `pos` that does not hold a digit.
pub open spec fn digits_end(s: Seq<char>, pos: int) -> int
    decreases s.len() - pos,
{
    if 0 <= pos < s.len() && is_digit_char(s[pos]) {
        digits_end(s, pos + 1)
    } else {
        pos
    }
}

/// The value of a run of decimal digits.
pub open spec fn digits_value(ds: Seq<char>) -> int
    decreases ds.len(),
{
    if ds.len() == 0 {
        0
    } else {
        digits_value(ds.drop_last()) * 10 + digit_value(ds.last())
    }
}

/// The token an identifier run denotes: one of the fixed keywords, or an
/// identifier.
pub open spec fn lookup_ident(name: Seq<char>) -> TokenV {
    if name == "fn"@ {
        TokenV::Function
    } else if name == "let"@ {
        TokenV::Let
    } else if name == "true"@ {
        TokenV::Bool(true)
    } else if name == "false"@ {
        TokenV::Bool(false)
    } else if name == "if"@ {
        TokenV::If
    } else if name == "else"@ {
        TokenV::Else
    } else if name == "return"@ {
        TokenV::Return
    } else {
        TokenV::Ident(name)
    }
}

/// The token starting exactly at position `p` (no whitespace skipped) and the
/// position just past it. Past the end of the source the token is `Eof` and
/// the position does not move. A digit run whose value does not fit in a
/// 64-bit signed integer is an `Illegal` token, as is any unrecognized
/// character.
pub open spec fn scan_token(s: Seq<char>, p: int) -> (TokenV, int) {
    if p < 0 || p >= s.len() {
        (TokenV::Eof, p)
    } else {
        let c = s[p];
        if c == '=' {
            if p + 1 < s.len() && s[p + 1] == '=' {
                (TokenV::Equal, p + 2)
            } else {
                (TokenV::Assign, p + 1)
            }
        } else if c == '!' {
            if p + 1 < s.len() && s[p + 1] == '=' {
                (TokenV::NotEqual, p + 2)
            } else {
                (TokenV::Bang, p + 1)
            }
        } else if c == '+' {
            (TokenV::Plus, p + 1)
        } else if c == '-' {
            (TokenV::Minus, p + 1)
        } else if c == '/' {
            (TokenV::Slash, p + 1)
        } else if c == '*' {
            (TokenV::Asterisk, p + 1)
        } else if c == '<' {
            (TokenV::LessThan, p + 1)
        } else if c == '>' {
            (TokenV::GreaterThan, p + 1)
        } else if c == '(' {
            (TokenV::Lparen, p + 1)
        } else if c == ')' {
            (TokenV::Rparen, p + 1)
        } else if c == '{' {
            (TokenV::Lbrace, p + 1)
        } else if c == '}' {
            (TokenV::Rbrace, p + 1)
        } else if c == ',' {
            (TokenV::Comma, p + 1)
        } else if c == ';' {
            (TokenV::Semicolon, p + 1)
        } else if is_letter_char(c) {
            let e = ident_end(s, p);
            (lookup_ident(s.subrange(p, e)), e)
        } else if is_digit_char(c) {
            let e = digits_end(s, p);
            let v = digits_value(s.subrange(p, e));
            if v <= i64::MAX {
                (TokenV::Int(v as i64), e)
            } else {
                (TokenV::Illegal, e)
            }
        } else {
            (TokenV::Illegal, p + 1)
        }
    }
}

/// The next token of `s` at or after position `pos`, and the position just
/// past it: whitespace is skipped first, then one token is read.
pub open spec fn spec_next_token(s: Seq<char>, pos: int) -> (TokenV, int) {
    scan_token(s, whitespace_end(s, pos))
}

/// A cursor over source text that yields one token per call of
/// `next_token`, and `Eof` forever once the source is exhausted.
pub struct Lexer<'a> {
    input: &'a str,
    len: usize,
    pos: usize,
    next_pos: usize,
    ch: char,
}

impl<'a> Lexer<'a> {
    /// The source text under the cursor.
    pub closed spec fn src(&self) -> Seq<char> {
        self.input@
    }

    /// The position of the cursor in the source.
    pub closed spec fn cursor(&self) -> int {
        self.pos as int
    }

    /// The internal consistency of the cursor: `len` caches the source
    /// length, `ch` caches the character under the cursor (a NUL sentinel at
    /// the end), and `next_pos` points one past the cursor until the end is
    /// reached.
    pub closed spec fn wf(&self) -> bool {
        &&& self.len == self.src().len()
        &&& 0 <= self.pos <= self.len
        &&& self.next_pos == if self.pos < self.len {
            self.pos + 1
        } else {
            self.len as int
        }
        &&& self.ch == if self.pos < self.len {
            self.src()[self.pos as int]
        } else {
            '\0'
        }
    }

    pub fn new(input: &'a str) -> (r: Self)
        ensures
            r.wf(),
            r.src() == input@,
            r.cursor() == 0,
    {
        let len = input.unicode_len();
        let ch = if 0 < len {
            input.get_char(0)
        } else {
            '\0'
        };
        let next_pos: usize = if 0 < len {
            1
        } else {
            0
        };
        Lexer { input, len, pos: 0, next_pos, ch }
    }

    /// The number of characters of the source.
    pub fn input_len(&self) -> (n: usize)
        requires
            self.wf(),
        ensures
            n == self.src().len(),
    {
        self.len
    }

    /// Advances the cursor one character, stopping at the end of the source.
    fn read_char(&mut self)
        requires
            old(self).wf(),
        ensures
            final(self).wf(),
            final(self).src() == old(self).src(),
            final(self).cursor() == if old(self).cursor() < old(self).src().len() {
                old(self).cursor() + 1
            } else {
                old(self).cursor()
            },
    {
        if self.next_pos < self.len {
            self.ch = self.input.get_char(self.next_pos);
            self.pos = self.next_pos;
            self.next_pos = self.next_pos + 1;
        } else {
            self.ch = '\0';
            self.pos = self.next_pos;
        }
    }

    /// The character one past the cursor, or a NUL sentinel at the end.
    fn nextch(&self) -> (c: char)
        requires
            self.wf(),
        ensures
            c == if self.cursor() + 1 < self.src().len() {
                self.src()[self.cursor() + 1]
            } else {
                '\0'
            },
    {
        if self.next_pos < self.len {
            self.input.get_char(self.next_pos)
        } else {
            '\0'
        }
    }

    /// Whether the character one past the cursor is `ch`.
    fn nextch_is(&self, ch: char) -> (r: bool)
        requires
            self.wf(),
            ch != '\0',
        ensures
            r == (self.cursor() + 1 < self.src().len() && self.src()[self.cursor() + 1] == ch),
    {
        self.nextch() == ch
    }

    /// Moves the cursor past any whitespace.
    fn skip_whitespace(&mut self)
        requires
            old(self).wf(),
        ensures
            final(self).wf(),
            final(self).src() == old(self).src(),
            final(self).cursor() == whitespace_end(old(self).src(), old(self).cursor()),
    {
        while self.ch == ' ' || self.ch == '\t' || self.ch == '\n' || self.ch == '\r'
            invariant
                self.wf(),
                self.src() == old(self).src(),
                whitespace_end(self.src(), self.cursor()) == whitespace_end(
                    old(self).src(),
                    old(self).cursor(),
                ),
            decreases self.src().len() - self.cursor(),
        {
            self.read_char();
        }
    }

    /// Reads one token and moves the cursor past it; `Eof` forever once the
    /// source is exhausted. This follows `spec_next_token` exactly.
    pub fn next_token(&mut self) -> (tok: Token)
        requires
            old(self).wf(),
        ensures
            final(self).wf(),
            final(self).src() == old(self).src(),
            tok@ == spec_next_token(old(self).src(), old(self).cursor()).0,
            final(self).cursor() == spec_next_token(old(self).src(), old(self).cursor()).1,
    {
        self.skip_whitespace();
        if self.pos >= self.len {
            return Token::Eof;
        }
        let tok: Token;
        if self.ch == '=' {
            if self.nextch_is('=') {
                self.read_char();
                tok = Token::Equal;
            } else {
                tok = Token::Assign;
            }
        } else if self.ch == '!' {
            if self.nextch_is('=') {
                self.read_char();
                tok = Token::NotEqual;
            } else {
                tok = Token::Bang;
            }
        } else if self.ch == '+' {
            tok = Token::Plus;
        } else if self.ch == '-' {
            tok = Token::Minus;
        } else if self.ch == '/' {
            tok = Token::Slash;
        } else if self.ch == '*' {
            tok = Token::Asterisk;
        } else if self.ch == '<' {
            tok = Token::LessThan;
        } else if self.ch == '>' {
            tok = Token::GreaterThan;
        } else if self.ch == '(' {
            tok = Token::Lparen;
        } else if self.ch == ')' {
            tok = Token::Rparen;
        } else if self.ch == '{' {
            tok = Token::Lbrace;
        } else if self.ch == '}' {
            tok = Token::Rbrace;
        } else if self.ch == ',' {
            tok = Token::Comma;
        } else if self.ch == ';' {
            tok = Token::Semicolon;
        } else if ('a' <= self.ch && self.ch <= 'z') || ('A' <= self.ch && self.ch <= 'Z')
            || self.ch == '_' {
            return self.consume_identifier();
        } else if '0' <= self.ch && self.ch <= '9' {
            return self.consume_number();
        } else {
            tok = Token::Illegal;
        }
        self.read_char();
        tok
    }

    /// Reads an identifier run and classifies it as a keyword or identifier.
    fn consume_identifier(&mut self) -> (tok: Token)
        requires
            old(self).wf(),
            old(self).cursor() < old(self).src().len(),
            is_letter_char(old(self).src()[old(self).cursor()]),
        ensures
            final(self).wf(),
            final(self).src() == old(self).src(),
            final(self).cursor() == ident_end(old(self).src(), old(self).cursor()),
            tok@ == lookup_ident(
                old(self).src().subrange(old(self).cursor(), final(self).cursor()),
            ),
    {
        let start_pos = self.pos;
        while ('a' <= self.ch && self.ch <= 'z') || ('A' <= self.ch && self.ch <= 'Z')
            || self.ch == '_'
            invariant
                self.wf(),
                self.src() == old(self).src(),
                start_pos <= self.cursor(),
                ident_end(self.src(), self.cursor()) == ident_end(
                    old(self).src(),
                    old(self).cursor(),
                ),
            decreases self.src().len() - self.cursor(),
        {
            self.read_char();
        }
        let literal: &str = self.input.substring_char(start_pos, self.pos);
        if str_eq(literal, "fn") {
            Token::Function
        } else if str_eq(literal, "let") {
            Token::Let
        } else if str_eq(literal, "true") {
            Token::Bool(true)
        } else if str_eq(literal, "false") {
            Token::Bool(false)
        } else if str_eq(literal, "if") {
            Token::If
        } else if str_eq(literal, "else") {
            Token::Else
        } else if str_eq(literal, "return") {
            Token::Return
        } else {
            Token::Ident(literal.to_owned())
        }
    }

    /// Reads a digit run and builds its value; a run whose value does not
    /// fit in a 64-bit signed integer yields `Illegal`.
    fn consume_number(&mut self) -> (tok: Token)
        requires
            old(self).wf(),
            old(self).cursor() < old(self).src().len(),
            is_digit_char(old(self).src()[old(self).cursor()]),
        ensures
            final(self).wf(),
            final(self).src() == old(self).src(),
            final(self).cursor() == digits_end(old(self).src(), old(self).cursor()),
            tok@ == ({
                let v = digits_value(
                    old(self).src().subrange(old(self).cursor(), final(self).cursor()),
                );
                if v <= i64::MAX {
                    TokenV::Int(v as i64)
                } else {
                    TokenV::Illegal
                }
            }),
    {
        let start_pos = self.pos;
        let ghost s = self.src();
        let mut value: i64 = 0;
        let mut overflow: bool = false;
        while '0' <= self.ch && self.ch <= '9'
            invariant
                self.wf(),
                self.src() == old(self).src(),
                s == self.src(),
                start_pos <= self.cursor() <= self.src().len(),
                digits_end(self.src(), self.cursor()) == digits_end(
                    old(self).src(),
                    old(self).cursor(),
                ),
                0 <= value,
                !overflow ==> value == digits_value(s.subrange(start_pos as int, self.cursor())),
                overflow ==> digits_value(s.subrange(start_pos as int, self.cursor())) > i64::MAX,
            decreases self.src().len() - self.cursor(),
        {
            let d: i64 = ((self.ch as u32) - ('0' as u32)) as i64;
            let ghost prefix = s.subrange(start_pos as int, self.cursor());
            let ghost extended = s.subrange(start_pos as int, self.cursor() + 1);
            proof {
                assert(extended.drop_last() =~= prefix);
                assert(extended.last() == s[self.cursor()]);
            }
            if !overflow {
                if value <= (i64::MAX - d) / 10 {
                    value = value * 10 + d;
                } else {
                    overflow = true;
                    proof {
                        assert(digits_value(extended) > i64::MAX) by {
                            assert(digits_value(prefix) == value);
                            assert(value > (i64::MAX - d) / 10);
                            assert(value * 10 + d > i64::MAX) by (nonlinear_arith)
                                requires
                                    value > (i64::MAX - d) / 10,
                                    0 <= d <= 9,
                                    0 <= value,
                            ;
                        }
                    }
                }
            } else {
                proof {
                    assert(digits_value(extended) == digits_value(prefix) * 10 + digit_value(
                        extended.last(),
                    ));
                    assert(digits_value(prefix) * 10 >= digits_value(prefix)) by (nonlinear_arith)
                        requires
                            digits_value(prefix) >= 0,
                    ;
                }
            }
            self.read_char();
        }
        if overflow {
            Token::Illegal
        } else {
            Token::Int(value)
        }
    }
}

/// Whether two pieces of text hold the same characters.
fn str_eq(a: &str, b: &str) -> (r: bool)
    ensures
        r == (a@ == b@),
{
    let sa: String = a.to_owned();
    let sb: String = b.to_owned();
    sa == sb
}

/// Skipping whitespace stays within the text and never moves backward.
proof fn lemma_whitespace_end_bounds(s: Seq<char>, pos: int)
    requires
        0 <= pos <= s.len(),
    ensures
        pos <= whitespace_end(s, pos) <= s.len(),
    decreases s.len() - pos,
{
    if pos < s.len() && is_whitespace_char(s[pos]) {
        lemma_whitespace_end_bounds(s, pos + 1);
    }
}

/// An identifier run stays within the text and never moves backward.
proof fn lemma_ident_end_bounds(s: Seq<char>, pos: int)
    requires
        0 <= pos <= s.len(),
    ensures
        pos <= ident_end(s, pos) <= s.len(),
    decreases s.len() - pos,
{
    if pos < s.len() && is_letter_char(s[pos]) {
        lemma_ident_end_bounds(s, pos + 1);
    }
}

/// A digit run stays within the text and never moves backward.
proof fn lemma_digits_end_bounds(s: Seq<char>, pos: int)
    requires
        0 <= pos <= s.len(),
    ensures
        pos <= digits_end(s, pos) <= s.len(),
    decreases s.len() - pos,
{
    if pos < s.len() && is_digit_char(s[pos]) {
        lemma_digits_end_bounds(s, pos + 1);
    }
}

/// Reading one token never leaves the text, and makes progress: any token
/// but `Eof` moves the position strictly forward.
pub proof fn lemma_next_token_progress(s: Seq<char>, pos: int)
    requires
        0 <= pos <= s.len(),
    ensures
        ({
            let (t, p2) = spec_next_token(s, pos);
            &&& pos <= p2 <= s.len()
            &&& (!(t is Eof) ==> p2 > pos)
        }),
{
    lemma_whitespace_end_bounds(s, pos);
    let p = whitespace_end(s, pos);
    if p < s.len() {
        let c = s[p];
        if is_letter_char(c) {
            lemma_ident_end_bounds(s, p + 1);
        }
        if is_digit_char(c) {
            lemma_digits_end_bounds(s, p + 1);
        }
    }
}

/// The whole token stream of a source text from a position: the tokens
/// `next_token` yields, one after another, closed by a single `Eof`. Each
/// call of `Lexer::next_token` returns the head of this stream at the
/// lexer's cursor and moves the cursor to the rest, so repeated calls until
/// `Eof` reproduce the stream exactly.
pub open spec fn spec_tokens(s: Seq<char>, pos: int) -> Seq<TokenV>
    recommends
        0 <= pos <= s.len(),
    decreases s.len() - pos
        when 0 <= pos <= s.len()
        via spec_tokens_decreases
{
    let (t, p2) = spec_next_token(s, pos);
    if t is Eof {
        seq![TokenV::Eof]
    } else {
        seq![t] + spec_tokens(s, p2)
    }
}

#[via_fn]
proof fn spec_tokens_decreases(s: Seq<char>, pos: int) {
    lemma_next_token_progress(s, pos);
}

} // verus!
