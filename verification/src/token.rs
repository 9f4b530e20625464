//! The closed set of lexical symbols the language recognizes.

use vstd::prelude::*;

verus! {

/// A lexical token. Tokens are plain values produced one at a time by the
/// lexer; identifier and literal tokens carry their text or value.
#[derive(Debug, PartialEq, Eq)]
pub enum Token {
    Illegal,
    Eof,
    Ident(String),
    Int(i64),
    Bool(bool),
    Assign,
    Plus,
    Minus,
    Bang,
    Slash,
    Asterisk,
    LessThan,
    GreaterThan,
    Equal,
    NotEqual,
    Lparen,
    Rparen,
    Lbrace,
    Rbrace,
    Comma,
    Semicolon,
    Function,
    Let,
    If,
    Else,
    Return,
}

/// The mathematical model of a token: identical to `Token` except that the
/// text of an identifier is a sequence of characters.
pub enum TokenV {
    Illegal,
    Eof,
    Ident(Seq<char>),
    Int(i64),
    Bool(bool),
    Assign,
    Plus,
    Minus,
    Bang,
    Slash,
    Asterisk,
    LessThan,
    GreaterThan,
    Equal,
    NotEqual,
    Lparen,
    Rparen,
    Lbrace,
    Rbrace,
    Comma,
    Semicolon,
    Function,
    Let,
    If,
    Else,
    Return,
}

impl View for Token {
    type V = TokenV;

    open spec fn view(&self) -> TokenV {
        match self {
            Token::Illegal => TokenV::Illegal,
            Token::Eof => TokenV::Eof,
            Token::Ident(s) => TokenV::Ident(s@),
            Token::Int(n) => TokenV::Int(*n),
            Token::Bool(b) => TokenV::Bool(*b),
            Token::Assign => TokenV::Assign,
            Token::Plus => TokenV::Plus,
            Token::Minus => TokenV::Minus,
            Token::Bang => TokenV::Bang,
            Token::Slash => TokenV::Slash,
            Token::Asterisk => TokenV::Asterisk,
            Token::LessThan => TokenV::LessThan,
            Token::GreaterThan => TokenV::GreaterThan,
            Token::Equal => TokenV::Equal,
            Token::NotEqual => TokenV::NotEqual,
            Token::Lparen => TokenV::Lparen,
            Token::Rparen => TokenV::Rparen,
            Token::Lbrace => TokenV::Lbrace,
            Token::Rbrace => TokenV::Rbrace,
            Token::Comma => TokenV::Comma,
            Token::Semicolon => TokenV::Semicolon,
            Token::Function => TokenV::Function,
            Token::Let => TokenV::Let,
            Token::If => TokenV::If,
            Token::Else => TokenV::Else,
            Token::Return => TokenV::Return,
        }
    }
}

impl Token {
    /// Equality of tokens, including the payload of identifier and literal
    /// tokens.
    #[verifier::rlimit(100)]
    #[verifier::spinoff_prover]
    pub fn token_eq(&self, other: &Token) -> (r: bool)
        ensures
            r == (self@ == other@),
    {
        match (self, other) {
            (Token::Illegal, Token::Illegal) => true,
            (Token::Eof, Token::Eof) => true,
            (Token::Ident(a), Token::Ident(b)) => *a == *b,
            (Token::Int(a), Token::Int(b)) => *a == *b,
            (Token::Bool(a), Token::Bool(b)) => *a == *b,
            (Token::Assign, Token::Assign) => true,
            (Token::Plus, Token::Plus) => true,
            (Token::Minus, Token::Minus) => true,
            (Token::Bang, Token::Bang) => true,
            (Token::Slash, Token::Slash) => true,
            (Token::Asterisk, Token::Asterisk) => true,
            (Token::LessThan, Token::LessThan) => true,
            (Token::GreaterThan, Token::GreaterThan) => true,
            (Token::Equal, Token::Equal) => true,
            (Token::NotEqual, Token::NotEqual) => true,
            (Token::Lparen, Token::Lparen) => true,
            (Token::Rparen, Token::Rparen) => true,
            (Token::Lbrace, Token::Lbrace) => true,
            (Token::Rbrace, Token::Rbrace) => true,
            (Token::Comma, Token::Comma) => true,
            (Token::Semicolon, Token::Semicolon) => true,
            (Token::Function, Token::Function) => true,
            (Token::Let, Token::Let) => true,
            (Token::If, Token::If) => true,
            (Token::Else, Token::Else) => true,
            (Token::Return, Token::Return) => true,
            _ => false,
        }
    }

    /// A short human-readable name for the token, used in parse error
    /// messages.
    pub fn describe(&self) -> (r: &'static str)
        ensures
            r@ == spec_describe(self@),
    {
        match self {
            Token::Illegal => "illegal token",
            Token::Eof => "end of input",
            Token::Ident(_) => "identifier",
            Token::Int(_) => "integer literal",
            Token::Bool(_) => "boolean literal",
            Token::Assign => "=",
            Token::Plus => "+",
            Token::Minus => "-",
            Token::Bang => "!",
            Token::Slash => "/",
            Token::Asterisk => "*",
            Token::LessThan => "<",
            Token::GreaterThan => ">",
            Token::Equal => "==",
            Token::NotEqual => "!=",
            Token::Lparen => "(",
            Token::Rparen => ")",
            Token::Lbrace => "{",
            Token::Rbrace => "}",
            Token::Comma => ",",
            Token::Semicolon => ";",
            Token::Function => "fn",
            Token::Let => "let",
            Token::If => "if",
            Token::Else => "else",
            Token::Return => "return",
        }
    }
}

/// The text `Token::describe` returns for each kind of token.
pub open spec fn spec_describe(t: TokenV) -> Seq<char> {
    match t {
        TokenV::Illegal => "illegal token"@,
        TokenV::Eof => "end of input"@,
        TokenV::Ident(_) => "identifier"@,
        TokenV::Int(_) => "integer literal"@,
        TokenV::Bool(_) => "boolean literal"@,
        TokenV::Assign => "="@,
        TokenV::Plus => "+"@,
        TokenV::Minus => "-"@,
        TokenV::Bang => "!"@,
        TokenV::Slash => "/"@,
        TokenV::Asterisk => "*"@,
        TokenV::LessThan => "<"@,
        TokenV::GreaterThan => ">"@,
        TokenV::Equal => "=="@,
        TokenV::NotEqual => "!="@,
        TokenV::Lparen => "("@,
        TokenV::Rparen => ")"@,
        TokenV::Lbrace => "{"@,
        TokenV::Rbrace => "}"@,
        TokenV::Comma => ","@,
        TokenV::Semicolon => ";"@,
        TokenV::Function => "fn"@,
        TokenV::Let => "let"@,
        TokenV::If => "if"@,
        TokenV::Else => "else"@,
        TokenV::Return => "return"@,
    }
}

} // verus!
