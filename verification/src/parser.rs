//! The parser: consumes tokens from the lexer and builds an abstract syntax
//! tree, using recursive descent for statements and precedence climbing for
//! expressions. Errors are collected in a list rather than aborting: a
//! statement that fails to parse is skipped and parsing continues.
//!
//! The spec functions `sp_parse_program`, `sp_parse_stmt` and
//! `sp_parse_expr` are the mathematical model of parsing, as transitions on
//! the parser state `PStateV` (source, cursor, two-token lookahead, errors);
//! the executable methods are proved to follow them exactly. Parsing carries
//! a fuel proportional to the source length, which bounds the recursion
//! depth; it is far larger than any depth an input of that length can reach.

use vstd::prelude::*;

use crate::ast::Expr;
use crate::ast::ExprV;
use crate::ast::Ident;
use crate::ast::Infix;
use crate::ast::Literal;
use crate::ast::LiteralV;
use crate::ast::Prefix;
use crate::ast::Program;
use crate::ast::Stmt;
use crate::ast::StmtV;
use crate::ast::view_block;
use crate::ast::view_exprs;
use crate::ast::view_params;
use crate::lexer::Lexer;
use crate::lexer::spec_next_token;
use crate::token::Token;
use crate::token::TokenV;
use crate::token::spec_describe;

verus! {

/// The categories of parse failure.
#[derive(Debug, Clone, Copy, PartialEq, Eq, Structural)]
pub enum ParseErrorKind {
    UnexpectedToken,
}

/// One recorded parse failure: its category and a human-readable message.
#[derive(Debug)]
pub struct ParseError {
    kind: ParseErrorKind,
    msg: String,
}

/// The model of a parse failure.
pub struct ParseErrorV {
    pub kind: ParseErrorKind,
    pub msg: Seq<char>,
}

impl View for ParseError {
    type V = ParseErrorV;

    closed spec fn view(&self) -> ParseErrorV {
        ParseErrorV { kind: self.kind, msg: self.msg@ }
    }
}

impl ParseError {
    fn new(kind: ParseErrorKind, msg: String) -> (r: Self)
        ensures
            r@ == (ParseErrorV { kind, msg: msg@ }),
    {
        ParseError { kind, msg }
    }

    /// The category of this failure.
    pub fn kind(&self) -> (k: ParseErrorKind)
        ensures
            k == self@.kind,
    {
        self.kind
    }

    /// The human-readable message of this failure.
    pub fn message(&self) -> (m: &str)
        ensures
            m@ == self@.msg,
    {
        self.msg.as_str()
    }
}

/// The ordered list of failures a parse accumulated.
pub type ParseErrors = Vec<ParseError>;

/// Operator binding powers, weakest first: the expression loop parses an
/// infix operator only while the next token binds tighter than the level it
/// was called at, which yields conventional precedence and left
/// associativity.
#[derive(Debug, Clone, Copy, PartialEq, Eq, Structural)]
pub enum Precedence {
    Lowest,
    Equals,
    LessGreater,
    Sum,
    Product,
    Prefix,
    Call,
}

/// The numeric binding power of a precedence level.
pub open spec fn prec_val(p: Precedence) -> int {
    match p {
        Precedence::Lowest => 0,
        Precedence::Equals => 1,
        Precedence::LessGreater => 2,
        Precedence::Sum => 3,
        Precedence::Product => 4,
        Precedence::Prefix => 5,
        Precedence::Call => 6,
    }
}

/// The precedence a token has when it appears in infix position.
pub open spec fn spec_precedence(t: TokenV) -> Precedence {
    match t {
        TokenV::Equal => Precedence::Equals,
        TokenV::NotEqual => Precedence::Equals,
        TokenV::LessThan => Precedence::LessGreater,
        TokenV::GreaterThan => Precedence::LessGreater,
        TokenV::Plus => Precedence::Sum,
        TokenV::Minus => Precedence::Sum,
        TokenV::Slash => Precedence::Product,
        TokenV::Asterisk => Precedence::Product,
        TokenV::Lparen => Precedence::Call,
        _ => Precedence::Lowest,
    }
}

/// The infix operator a token denotes (callers only apply this to the eight
/// operator tokens).
pub open spec fn infix_of(t: TokenV) -> Infix {
    match t {
        TokenV::Plus => Infix::Plus,
        TokenV::Minus => Infix::Minus,
        TokenV::Slash => Infix::Divide,
        TokenV::Asterisk => Infix::Multiply,
        TokenV::Equal => Infix::Equal,
        TokenV::NotEqual => Infix::NotEqual,
        TokenV::LessThan => Infix::LessThan,
        TokenV::GreaterThan => Infix::GreaterThan,
        _ => Infix::Plus,
    }
}

/// The model of the parser state: the source and cursor of the lexer, the
/// two-token lookahead, and the errors collected so far.
pub struct PStateV {
    pub src: Seq<char>,
    pub pos: int,
    pub cur: TokenV,
    pub nxt: TokenV,
    pub errs: Seq<ParseErrorV>,
}

/// One step of the lookahead: the current token becomes the next one, and a
/// fresh token is read from the source.
pub open spec fn sp_bump(s: PStateV) -> PStateV {
    let (t, p) = spec_next_token(s.src, s.pos);
    PStateV { src: s.src, pos: p, cur: s.nxt, nxt: t, errs: s.errs }
}

/// The message recorded when the next token is not the expected one.
pub open spec fn sp_error_msg(expected: TokenV, got: TokenV) -> Seq<char> {
    "expected next token to be "@ + spec_describe(expected) + ", got "@ + spec_describe(got)
        + " instead"@
}

/// The state with an unexpected-token error recorded against the next token.
pub open spec fn sp_push_error(s: PStateV, expected: TokenV) -> PStateV {
    PStateV {
        errs: s.errs.push(
            ParseErrorV { kind: ParseErrorKind::UnexpectedToken, msg: sp_error_msg(expected, s.nxt) },
        ),
        ..s
    }
}

/// The message recorded when no expression can start with the current token.
pub open spec fn sp_no_prefix_msg(got: TokenV) -> Seq<char> {
    "no prefix parse function for "@ + spec_describe(got) + " found"@
}

/// The state with a no-expression error recorded against the current token.
pub open spec fn sp_push_no_prefix(s: PStateV) -> PStateV {
    PStateV {
        errs: s.errs.push(
            ParseErrorV { kind: ParseErrorKind::UnexpectedToken, msg: sp_no_prefix_msg(s.cur) },
        ),
        ..s
    }
}

/// Advance past the next token if it is the expected one; otherwise record
/// an error and stay, reporting failure.
pub open spec fn sp_expect_next(s: PStateV, t: TokenV) -> (PStateV, bool) {
    if s.nxt == t {
        (sp_bump(s), true)
    } else {
        (sp_push_error(s, t), false)
    }
}

/// The fuel the parser starts with: far more than the recursion depth any
/// input of this length can force.
pub open spec fn parse_fuel(src: Seq<char>) -> nat {
    (16 * src.len() + 64) as nat
}

/// The model of parsing a whole program: statements accumulate onto `acc`
/// until the end of input; a statement that fails to parse is skipped. The
/// parser always advances one token between statements.
pub open spec fn sp_parse_program(s: PStateV, acc: Seq<StmtV>, fuel: nat) -> (PStateV, Seq<StmtV>)
    decreases fuel,
{
    if fuel == 0 || s.cur is Eof {
        (s, acc)
    } else {
        let (s1, r) = sp_parse_stmt(s, (fuel - 1) as nat);
        let s2 = sp_bump(s1);
        match r {
            Some(st) => sp_parse_program(s2, acc.push(st), (fuel - 1) as nat),
            None => sp_parse_program(s2, acc, (fuel - 1) as nat),
        }
    }
}

/// The model of parsing one statement, dispatched on the current token.
pub open spec fn sp_parse_stmt(s: PStateV, fuel: nat) -> (PStateV, Option<StmtV>)
    decreases fuel,
{
    if fuel == 0 {
        (s, None)
    } else {
        match s.cur {
            TokenV::Let => sp_parse_let_stmt(s, (fuel - 1) as nat),
            TokenV::Return => sp_parse_return_stmt(s, (fuel - 1) as nat),
            _ => sp_parse_expr_stmt(s, (fuel - 1) as nat),
        }
    }
}

/// The model of `let IDENT = EXPR ;`: a malformed identifier rejects the
/// statement silently; a missing `=` records an error.
pub open spec fn sp_parse_let_stmt(s: PStateV, fuel: nat) -> (PStateV, Option<StmtV>)
    decreases fuel,
{
    if fuel == 0 {
        (s, None)
    } else {
        match s.nxt {
            TokenV::Ident(name) => {
                let s1 = sp_bump(s);
                let (s2, ok) = sp_expect_next(s1, TokenV::Assign);
                if !ok {
                    (s2, None)
                } else {
                    let s3 = sp_bump(s2);
                    let (s4, e) = sp_parse_expr(s3, Precedence::Lowest, (fuel - 1) as nat);
                    match e {
                        None => (s4, None),
                        Some(expr) => {
                            let s5 = if s4.nxt == TokenV::Semicolon {
                                sp_bump(s4)
                            } else {
                                s4
                            };
                            (s5, Some(StmtV::Let(name, expr)))
                        },
                    }
                }
            },
            _ => (s, None),
        }
    }
}

/// The model of `return EXPR ;`.
pub open spec fn sp_parse_return_stmt(s: PStateV, fuel: nat) -> (PStateV, Option<StmtV>)
    decreases fuel,
{
    if fuel == 0 {
        (s, None)
    } else {
        let s1 = sp_bump(s);
        let (s2, e) = sp_parse_expr(s1, Precedence::Lowest, (fuel - 1) as nat);
        match e {
            None => (s2, None),
            Some(expr) => {
                let s3 = if s2.nxt == TokenV::Semicolon {
                    sp_bump(s2)
                } else {
                    s2
                };
                (s3, Some(StmtV::Return(expr)))
            },
        }
    }
}

/// The model of an expression statement: one expression at the lowest
/// precedence, with an optional trailing semicolon.
pub open spec fn sp_parse_expr_stmt(s: PStateV, fuel: nat) -> (PStateV, Option<StmtV>)
    decreases fuel,
{
    if fuel == 0 {
        (s, None)
    } else {
        let (s1, e) = sp_parse_expr(s, Precedence::Lowest, (fuel - 1) as nat);
        match e {
            None => (s1, None),
            Some(expr) => {
                let s2 = if s1.nxt == TokenV::Semicolon {
                    sp_bump(s1)
                } else {
                    s1
                };
                (s2, Some(StmtV::Expr(expr)))
            },
        }
    }
}

/// The model of expression parsing by precedence climbing: a prefix parse
/// for the current token, then infix operators while the next token binds
/// tighter than `prec`.
pub open spec fn sp_parse_expr(s: PStateV, prec: Precedence, fuel: nat) -> (PStateV, Option<ExprV>)
    decreases fuel,
{
    if fuel == 0 {
        (s, None)
    } else {
        let (s1, left) = match s.cur {
            TokenV::Ident(name) => (s, Some(ExprV::Ident(name))),
            TokenV::Int(n) => (s, Some(ExprV::Literal(LiteralV::Int(n)))),
            TokenV::Bool(b) => (s, Some(ExprV::Literal(LiteralV::Bool(b)))),
            TokenV::Bang => sp_parse_prefix_expr(s, Prefix::Not, (fuel - 1) as nat),
            TokenV::Minus => sp_parse_prefix_expr(s, Prefix::Neg, (fuel - 1) as nat),
            TokenV::Lparen => sp_parse_grouped_expr(s, (fuel - 1) as nat),
            TokenV::If => sp_parse_if_expr(s, (fuel - 1) as nat),
            TokenV::Function => sp_parse_fn_expr(s, (fuel - 1) as nat),
            _ => (sp_push_no_prefix(s), None),
        };
        match left {
            None => (s1, None),
            Some(l) => sp_parse_infix_chain(s1, l, prec, (fuel - 1) as nat),
        }
    }
}

/// The model of a prefix operator expression: the operator, then its operand
/// at prefix precedence.
pub open spec fn sp_parse_prefix_expr(s: PStateV, op: Prefix, fuel: nat) -> (PStateV, Option<
    ExprV,
>)
    decreases fuel,
{
    if fuel == 0 {
        (s, None)
    } else {
        let s1 = sp_bump(s);
        let (s2, e) = sp_parse_expr(s1, Precedence::Prefix, (fuel - 1) as nat);
        match e {
            None => (s2, None),
            Some(x) => (s2, Some(ExprV::Prefix(op, Box::new(x)))),
        }
    }
}

/// The model of a parenthesized expression.
pub open spec fn sp_parse_grouped_expr(s: PStateV, fuel: nat) -> (PStateV, Option<ExprV>)
    decreases fuel,
{
    if fuel == 0 {
        (s, None)
    } else {
        let s1 = sp_bump(s);
        let (s2, e) = sp_parse_expr(s1, Precedence::Lowest, (fuel - 1) as nat);
        match e {
            None => (s2, None),
            Some(x) => {
                let (s3, ok) = sp_expect_next(s2, TokenV::Rparen);
                if ok {
                    (s3, Some(x))
                } else {
                    (s3, None)
                }
            },
        }
    }
}

/// The model of a brace-delimited block: past the `{`, statements until the
/// matching `}` or the end of input, which is left as the current token.
pub open spec fn sp_parse_block(s: PStateV, fuel: nat) -> (PStateV, Seq<StmtV>)
    decreases fuel,
{
    if fuel == 0 {
        (s, Seq::empty())
    } else {
        let s1 = sp_bump(s);
        sp_parse_block_stmts(s1, Seq::empty(), (fuel - 1) as nat)
    }
}

/// The model of the statements of a block, accumulating onto `acc`.
pub open spec fn sp_parse_block_stmts(s: PStateV, acc: Seq<StmtV>, fuel: nat) -> (PStateV, Seq<
    StmtV,
>)
    decreases fuel,
{
    if fuel == 0 || s.cur is Rbrace || s.cur is Eof {
        (s, acc)
    } else {
        let (s1, r) = sp_parse_stmt(s, (fuel - 1) as nat);
        let s2 = sp_bump(s1);
        match r {
            Some(st) => sp_parse_block_stmts(s2, acc.push(st), (fuel - 1) as nat),
            None => sp_parse_block_stmts(s2, acc, (fuel - 1) as nat),
        }
    }
}

/// The model of an if-expression: `if ( EXPR ) { ... }` with an optional
/// `else { ... }`.
pub open spec fn sp_parse_if_expr(s: PStateV, fuel: nat) -> (PStateV, Option<ExprV>)
    decreases fuel,
{
    if fuel == 0 {
        (s, None)
    } else {
        let (s1, ok1) = sp_expect_next(s, TokenV::Lparen);
        if !ok1 {
            (s1, None)
        } else {
            let s2 = sp_bump(s1);
            let (s3, c) = sp_parse_expr(s2, Precedence::Lowest, (fuel - 1) as nat);
            match c {
                None => (s3, None),
                Some(cond) => {
                    let (s4, ok2) = sp_expect_next(s3, TokenV::Rparen);
                    if !ok2 {
                        (s4, None)
                    } else {
                        let (s5, ok3) = sp_expect_next(s4, TokenV::Lbrace);
                        if !ok3 {
                            (s5, None)
                        } else {
                            let (s6, cons) = sp_parse_block(s5, (fuel - 1) as nat);
                            if s6.nxt == TokenV::Else {
                                let s7 = sp_bump(s6);
                                let (s8, ok4) = sp_expect_next(s7, TokenV::Lbrace);
                                if !ok4 {
                                    (s8, None)
                                } else {
                                    let (s9, alt) = sp_parse_block(s8, (fuel - 1) as nat);
                                    (s9, Some(ExprV::If(Box::new(cond), cons, Some(alt))))
                                }
                            } else {
                                (s6, Some(ExprV::If(Box::new(cond), cons, None)))
                            }
                        }
                    }
                },
            }
        }
    }
}

/// The model of a function literal: `fn ( params ) { ... }`.
pub open spec fn sp_parse_fn_expr(s: PStateV, fuel: nat) -> (PStateV, Option<ExprV>)
    decreases fuel,
{
    if fuel == 0 {
        (s, None)
    } else {
        let (s1, ok1) = sp_expect_next(s, TokenV::Lparen);
        if !ok1 {
            (s1, None)
        } else {
            let (s2, ps) = sp_parse_params(s1, (fuel - 1) as nat);
            match ps {
                None => (s2, None),
                Some(params) => {
                    let (s3, ok2) = sp_expect_next(s2, TokenV::Lbrace);
                    if !ok2 {
                        (s3, None)
                    } else {
                        let (s4, body) = sp_parse_block(s3, (fuel - 1) as nat);
                        (s4, Some(ExprV::Func(params, body)))
                    }
                },
            }
        }
    }
}

/// The model of a parameter list, the current token being the `(`.
pub open spec fn sp_parse_params(s: PStateV, fuel: nat) -> (PStateV, Option<Seq<Seq<char>>>)
    decreases fuel,
{
    if fuel == 0 {
        (s, None)
    } else if s.nxt == TokenV::Rparen {
        (sp_bump(s), Some(Seq::empty()))
    } else {
        let s1 = sp_bump(s);
        match s1.cur {
            TokenV::Ident(name) => sp_parse_more_params(s1, seq![name], (fuel - 1) as nat),
            _ => (s1, None),
        }
    }
}

/// The model of the parameters after the first, then the closing `)`.
pub open spec fn sp_parse_more_params(s: PStateV, acc: Seq<Seq<char>>, fuel: nat) -> (PStateV,
Option<Seq<Seq<char>>>)
    decreases fuel,
{
    if fuel == 0 {
        (s, None)
    } else if s.nxt == TokenV::Comma {
        let s1 = sp_bump(sp_bump(s));
        match s1.cur {
            TokenV::Ident(name) => sp_parse_more_params(s1, acc.push(name), (fuel - 1) as nat),
            _ => (s1, None),
        }
    } else {
        let (s2, ok) = sp_expect_next(s, TokenV::Rparen);
        if ok {
            (s2, Some(acc))
        } else {
            (s2, None)
        }
    }
}

/// The model of the infix loop: while the next token binds tighter than
/// `prec`, extend `left` with one infix operator or call, left
/// associatively.
pub open spec fn sp_parse_infix_chain(s: PStateV, left: ExprV, prec: Precedence, fuel: nat) -> (
PStateV, Option<ExprV>)
    decreases fuel,
{
    if fuel == 0 {
        (s, Some(left))
    } else if prec_val(prec) < prec_val(spec_precedence(s.nxt)) {
        match s.nxt {
            TokenV::Lparen => {
                let s1 = sp_bump(s);
                let (s2, args) = sp_parse_call_args(s1, (fuel - 1) as nat);
                match args {
                    None => (s2, None),
                    Some(a) => sp_parse_infix_chain(
                        s2,
                        ExprV::Call(Box::new(left), a),
                        prec,
                        (fuel - 1) as nat,
                    ),
                }
            },
            _ => {
                let s1 = sp_bump(s);
                let op = infix_of(s1.cur);
                let p = spec_precedence(s1.cur);
                let s2 = sp_bump(s1);
                let (s3, r) = sp_parse_expr(s2, p, (fuel - 1) as nat);
                match r {
                    None => (s3, None),
                    Some(right) => sp_parse_infix_chain(
                        s3,
                        ExprV::Infix(op, Box::new(left), Box::new(right)),
                        prec,
                        (fuel - 1) as nat,
                    ),
                }
            },
        }
    } else {
        (s, Some(left))
    }
}

/// The model of a call argument list, the current token being the `(`.
pub open spec fn sp_parse_call_args(s: PStateV, fuel: nat) -> (PStateV, Option<Seq<ExprV>>)
    decreases fuel,
{
    if fuel == 0 {
        (s, None)
    } else if s.nxt == TokenV::Rparen {
        (sp_bump(s), Some(Seq::empty()))
    } else {
        let s1 = sp_bump(s);
        let (s2, e) = sp_parse_expr(s1, Precedence::Lowest, (fuel - 1) as nat);
        match e {
            None => (s2, None),
            Some(x) => sp_parse_more_args(s2, seq![x], (fuel - 1) as nat),
        }
    }
}

/// The model of the arguments after the first, then the closing `)`.
pub open spec fn sp_parse_more_args(s: PStateV, acc: Seq<ExprV>, fuel: nat) -> (PStateV, Option<
Seq<ExprV>>)
    decreases fuel,
{
    if fuel == 0 {
        (s, None)
    } else if s.nxt == TokenV::Comma {
        let s1 = sp_bump(sp_bump(s));
        let (s2, e) = sp_parse_expr(s1, Precedence::Lowest, (fuel - 1) as nat);
        match e {
            None => (s2, None),
            Some(x) => sp_parse_more_args(s2, acc.push(x), (fuel - 1) as nat),
        }
    } else {
        let (s2, ok) = sp_expect_next(s, TokenV::Rparen);
        if ok {
            (s2, Some(acc))
        } else {
            (s2, None)
        }
    }
}

/// The state a fresh parser starts from: two bumps prime the lookahead.
pub open spec fn sp_initial(src: Seq<char>, pos: int) -> PStateV {
    sp_bump(sp_bump(PStateV { src, pos, cur: TokenV::Eof, nxt: TokenV::Eof, errs: Seq::empty() }))
}

/// The model of `Parser::parse` on a parser in state `s`.
pub open spec fn sp_parse(s: PStateV) -> (PStateV, Seq<StmtV>) {
    sp_parse_program(s, Seq::empty(), parse_fuel(s.src))
}

/// A recursive-descent, precedence-climbing parser with a two-token
/// lookahead, owning its lexer.
pub struct Parser<'a> {
    lexer: Lexer<'a>,
    current_token: Token,
    next_token: Token,
    errors: Vec<ParseError>,
}

impl<'a> View for Parser<'a> {
    type V = PStateV;

    closed spec fn view(&self) -> PStateV {
        PStateV {
            src: self.lexer.src(),
            pos: self.lexer.cursor(),
            cur: self.current_token@,
            nxt: self.next_token@,
            errs: Seq::new(self.errors@.len(), |i: int| self.errors@[i]@),
        }
    }
}

impl<'a> Parser<'a> {
    /// The internal consistency of the parser: its lexer is consistent.
    pub closed spec fn wf(&self) -> bool {
        self.lexer.wf()
    }

    /// A parser over `lexer`, with the lookahead primed by two bumps.
    pub fn new(lexer: Lexer<'a>) -> (r: Self)
        requires
            lexer.wf(),
        ensures
            r.wf(),
            r@ == sp_initial(lexer.src(), lexer.cursor()),
    {
        let ghost src = lexer.src();
        let ghost pos = lexer.cursor();
        let mut parser = Parser {
            lexer,
            current_token: Token::Eof,
            next_token: Token::Eof,
            errors: Vec::new(),
        };
        proof {
            assert(parser@.errs =~= Seq::<ParseErrorV>::empty());
            assert(parser@ == (PStateV {
                src,
                pos,
                cur: TokenV::Eof,
                nxt: TokenV::Eof,
                errs: Seq::empty(),
            }));
        }
        parser.bump();
        parser.bump();
        parser
    }

    /// Advances the lookahead one token.
    fn bump(&mut self)
        requires
            old(self).wf(),
        ensures
            final(self).wf(),
            final(self)@ == sp_bump(old(self)@),
    {
        let mut t = self.lexer.next_token();
        core::mem::swap(&mut self.next_token, &mut t);
        self.current_token = t;
        proof {
            assert(self@.errs =~= old(self)@.errs);
        }
    }

    /// Whether the current token equals `tok`.
    fn current_token_is(&self, tok: &Token) -> (r: bool)
        ensures
            r == (self@.cur == tok@),
    {
        self.current_token.token_eq(tok)
    }

    /// Whether the next token equals `tok`.
    fn next_token_is(&self, tok: &Token) -> (r: bool)
        ensures
            r == (self@.nxt == tok@),
    {
        self.next_token.token_eq(tok)
    }

    /// Advances past the next token if it is `tok`; otherwise records an
    /// unexpected-token error and stays put.
    fn expect_next_token(&mut self, tok: Token) -> (r: bool)
        requires
            old(self).wf(),
        ensures
            final(self).wf(),
            final(self)@ == sp_expect_next(old(self)@, tok@).0,
            r == sp_expect_next(old(self)@, tok@).1,
    {
        if self.next_token_is(&tok) {
            self.bump();
            true
        } else {
            self.error_next_token(&tok);
            false
        }
    }

    /// Records that the next token was not the expected `tok`.
    fn error_next_token(&mut self, tok: &Token)
        requires
            old(self).wf(),
        ensures
            final(self).wf(),
            final(self)@ == sp_push_error(old(self)@, tok@),
    {
        let mut msg = "expected next token to be ".to_owned();
        msg.append(tok.describe());
        msg.append(", got ");
        msg.append(self.next_token.describe());
        msg.append(" instead");
        let err = ParseError::new(ParseErrorKind::UnexpectedToken, msg);
        self.errors.push(err);
        proof {
            assert(self@.errs =~= sp_push_error(old(self)@, tok@).errs);
        }
    }

    /// Records that no expression can start with the current token.
    fn error_no_prefix(&mut self)
        requires
            old(self).wf(),
        ensures
            final(self).wf(),
            final(self)@ == sp_push_no_prefix(old(self)@),
    {
        let mut msg = "no prefix parse function for ".to_owned();
        msg.append(self.current_token.describe());
        msg.append(" found");
        let err = ParseError::new(ParseErrorKind::UnexpectedToken, msg);
        self.errors.push(err);
        proof {
            assert(self@.errs =~= sp_push_no_prefix(old(self)@).errs);
        }
    }

    /// A copy of the errors collected so far, in order.
    pub fn get_errors(&mut self) -> (r: ParseErrors)
        ensures
            *final(self) == *old(self),
            Seq::new(r@.len(), |i: int| r@[i]@) =~= old(self)@.errs,
    {
        let mut r: Vec<ParseError> = Vec::new();
        let n = self.errors.len();
        let mut i: usize = 0;
        while i < n
            invariant
                0 <= i <= n,
                n == self.errors.len(),
                *self == *old(self),
                r@.len() == i,
                forall|j: int| 0 <= j < i ==> #[trigger] r@[j]@ == self.errors@[j]@,
            decreases n - i,
        {
            let e = &self.errors[i];
            let copy = ParseError::new(e.kind, e.msg.as_str().to_owned());
            r.push(copy);
            i = i + 1;
        }
        r
    }

    /// Parses statements until the end of input and returns the program;
    /// failed statements are skipped, their errors collected. This follows
    /// `sp_parse` exactly.
    pub fn parse(&mut self) -> (r: Program)
        requires
            old(self).wf(),
        ensures
            final(self).wf(),
            ({
                let (s, prog) = sp_parse(old(self)@);
                final(self)@ == s && view_block(r@) == prog
            }),
    {
        let fuel: u128 = 16 * (self.lexer.input_len() as u128) + 64;
        let mut program: Vec<Stmt> = Vec::new();
        proof {
            assert(view_block(program@) =~= Seq::<StmtV>::empty());
        }
        self.parse_program(&mut program, fuel);
        program
    }

    /// Parses statements onto `acc` until the end of input, following
    /// `sp_parse_program`.
    fn parse_program(&mut self, acc: &mut Vec<Stmt>, fuel: u128)
        requires
            old(self).wf(),
        ensures
            final(self).wf(),
            ({
                let (s, prog) = sp_parse_program(old(self)@, view_block(old(acc)@), fuel as nat);
                final(self)@ == s && view_block(final(acc)@) == prog
            }),
        decreases fuel,
    {
        if fuel == 0 {
            return ;
        }
        if self.current_token_is(&Token::Eof) {
            return ;
        }
        let st = self.parse_stmt(fuel - 1);
        self.bump();
        match st {
            Some(x) => {
                let ghost before = acc@;
                let ghost xv = x@;
                acc.push(x);
                proof {
                    assert(acc@.drop_last() =~= before);
                    assert(view_block(acc@) =~= view_block(before).push(xv));
                }
            },
            None => {},
        }
        self.parse_program(acc, fuel - 1);
    }

    /// Parses one statement, dispatching on the current token; follows
    /// `sp_parse_stmt`.
    #[verifier::rlimit(100)]
    #[verifier::spinoff_prover]
    fn parse_stmt(&mut self, fuel: u128) -> (r: Option<Stmt>)
        requires
            old(self).wf(),
        ensures
            final(self).wf(),
            ({
                let (s, st) = sp_parse_stmt(old(self)@, fuel as nat);
                final(self)@ == s && (match r {
                    Some(x) => st == Some(x@),
                    None => st is None,
                })
            }),
        decreases fuel,
    {
        if fuel == 0 {
            return None;
        }
        match &self.current_token {
            Token::Let => self.parse_let_stmt(fuel - 1),
            Token::Return => self.parse_return_stmt(fuel - 1),
            _ => self.parse_expr_stmt(fuel - 1),
        }
    }

    /// Parses `let IDENT = EXPR ;`, following `sp_parse_let_stmt`.
    fn parse_let_stmt(&mut self, fuel: u128) -> (r: Option<Stmt>)
        requires
            old(self).wf(),
        ensures
            final(self).wf(),
            ({
                let (s, st) = sp_parse_let_stmt(old(self)@, fuel as nat);
                final(self)@ == s && (match r {
                    Some(x) => st == Some(x@),
                    None => st is None,
                })
            }),
        decreases fuel,
    {
        if fuel == 0 {
            return None;
        }
        let ident: String = match &self.next_token {
            Token::Ident(s) => s.as_str().to_owned(),
            _ => {
                return None;
            },
        };
        self.bump();
        if !self.expect_next_token(Token::Assign) {
            return None;
        }
        self.bump();
        match self.parse_expr(Precedence::Lowest, fuel - 1) {
            None => None,
            Some(expr) => {
                if self.next_token_is(&Token::Semicolon) {
                    self.bump();
                }
                Some(Stmt::Let(Ident(ident), expr))
            },
        }
    }

    /// Parses `return EXPR ;`, following `sp_parse_return_stmt`.
    fn parse_return_stmt(&mut self, fuel: u128) -> (r: Option<Stmt>)
        requires
            old(self).wf(),
        ensures
            final(self).wf(),
            ({
                let (s, st) = sp_parse_return_stmt(old(self)@, fuel as nat);
                final(self)@ == s && (match r {
                    Some(x) => st == Some(x@),
                    None => st is None,
                })
            }),
        decreases fuel,
    {
        if fuel == 0 {
            return None;
        }
        self.bump();
        match self.parse_expr(Precedence::Lowest, fuel - 1) {
            None => None,
            Some(expr) => {
                if self.next_token_is(&Token::Semicolon) {
                    self.bump();
                }
                Some(Stmt::Return(expr))
            },
        }
    }

    /// Parses an expression statement, following `sp_parse_expr_stmt`.
    fn parse_expr_stmt(&mut self, fuel: u128) -> (r: Option<Stmt>)
        requires
            old(self).wf(),
        ensures
            final(self).wf(),
            ({
                let (s, st) = sp_parse_expr_stmt(old(self)@, fuel as nat);
                final(self)@ == s && (match r {
                    Some(x) => st == Some(x@),
                    None => st is None,
                })
            }),
        decreases fuel,
    {
        if fuel == 0 {
            return None;
        }
        match self.parse_expr(Precedence::Lowest, fuel - 1) {
            None => None,
            Some(expr) => {
                if self.next_token_is(&Token::Semicolon) {
                    self.bump();
                }
                Some(Stmt::Expr(expr))
            },
        }
    }

    /// Parses one expression at precedence `precedence`, following
    /// `sp_parse_expr`.
    fn parse_expr(&mut self, precedence: Precedence, fuel: u128) -> (r: Option<Expr>)
        requires
            old(self).wf(),
        ensures
            final(self).wf(),
            ({
                let (s, e) = sp_parse_expr(old(self)@, precedence, fuel as nat);
                final(self)@ == s && (match r {
                    Some(x) => e == Some(x@),
                    None => e is None,
                })
            }),
        decreases fuel,
    {
        if fuel == 0 {
            return None;
        }
        let left: Option<Expr> = match &self.current_token {
            Token::Ident(_) => self.parse_expr_ident(),
            Token::Int(_) => self.parse_expr_int(),
            Token::Bool(b) => Some(Expr::Literal(Literal::Bool(*b))),
            Token::Bang => self.parse_prefix_expr(Prefix::Not, fuel - 1),
            Token::Minus => self.parse_prefix_expr(Prefix::Neg, fuel - 1),
            Token::Lparen => self.parse_grouped_expr(fuel - 1),
            Token::If => self.parse_if_expr(fuel - 1),
            Token::Function => self.parse_fn_expr(fuel - 1),
            _ => {
                self.error_no_prefix();
                None
            },
        };
        match left {
            None => None,
            Some(l) => self.parse_infix_chain(l, precedence, fuel - 1),
        }
    }

    /// The identifier expression for the current token.
    fn parse_expr_ident(&mut self) -> (r: Option<Expr>)
        ensures
            *final(self) == *old(self),
            (match r {
                Some(x) => old(self)@.cur is Ident && x@ == ExprV::Ident(old(self)@.cur->Ident_0),
                None => !(old(self)@.cur is Ident),
            }),
    {
        match &self.current_token {
            Token::Ident(name) => Some(Expr::Ident(Ident(name.as_str().to_owned()))),
            _ => None,
        }
    }

    /// The integer literal expression for the current token.
    fn parse_expr_int(&mut self) -> (r: Option<Expr>)
        ensures
            *final(self) == *old(self),
            (match r {
                Some(x) => old(self)@.cur is Int && x@ == ExprV::Literal(LiteralV::Int(old(self)@.cur->Int_0)),
                None => !(old(self)@.cur is Int),
            }),
    {
        match &self.current_token {
            Token::Int(n) => Some(Expr::Literal(Literal::Int(*n))),
            _ => None,
        }
    }

    /// Parses a prefix operator expression, following `sp_parse_prefix_expr`.
    fn parse_prefix_expr(&mut self, op: Prefix, fuel: u128) -> (r: Option<Expr>)
        requires
            old(self).wf(),
        ensures
            final(self).wf(),
            ({
                let (s, e) = sp_parse_prefix_expr(old(self)@, op, fuel as nat);
                final(self)@ == s && (match r {
                    Some(x) => e == Some(x@),
                    None => e is None,
                })
            }),
        decreases fuel,
    {
        if fuel == 0 {
            return None;
        }
        self.bump();
        match self.parse_expr(Precedence::Prefix, fuel - 1) {
            None => None,
            Some(x) => Some(Expr::Prefix(op, Box::new(x))),
        }
    }

    /// Parses a parenthesized expression, following `sp_parse_grouped_expr`.
    fn parse_grouped_expr(&mut self, fuel: u128) -> (r: Option<Expr>)
        requires
            old(self).wf(),
        ensures
            final(self).wf(),
            ({
                let (s, e) = sp_parse_grouped_expr(old(self)@, fuel as nat);
                final(self)@ == s && (match r {
                    Some(x) => e == Some(x@),
                    None => e is None,
                })
            }),
        decreases fuel,
    {
        if fuel == 0 {
            return None;
        }
        self.bump();
        match self.parse_expr(Precedence::Lowest, fuel - 1) {
            None => None,
            Some(x) => {
                if self.expect_next_token(Token::Rparen) {
                    Some(x)
                } else {
                    None
                }
            },
        }
    }

    /// Parses a brace-delimited block, following `sp_parse_block`.
    fn parse_block_stmt(&mut self, fuel: u128) -> (r: Vec<Stmt>)
        requires
            old(self).wf(),
        ensures
            final(self).wf(),
            ({
                let (s, b) = sp_parse_block(old(self)@, fuel as nat);
                final(self)@ == s && view_block(r@) == b
            }),
        decreases fuel,
    {
        let mut block: Vec<Stmt> = Vec::new();
        proof {
            assert(view_block(block@) =~= Seq::<StmtV>::empty());
        }
        if fuel == 0 {
            return block;
        }
        self.bump();
        self.parse_block_stmts(&mut block, fuel - 1);
        block
    }

    /// Parses the statements of a block onto `acc`, following
    /// `sp_parse_block_stmts`.
    fn parse_block_stmts(&mut self, acc: &mut Vec<Stmt>, fuel: u128)
        requires
            old(self).wf(),
        ensures
            final(self).wf(),
            ({
                let (s, b) = sp_parse_block_stmts(old(self)@, view_block(old(acc)@), fuel as nat);
                final(self)@ == s && view_block(final(acc)@) == b
            }),
        decreases fuel,
    {
        if fuel == 0 {
            return ;
        }
        if self.current_token_is(&Token::Rbrace) || self.current_token_is(&Token::Eof) {
            return ;
        }
        let st = self.parse_stmt(fuel - 1);
        self.bump();
        match st {
            Some(x) => {
                let ghost before = acc@;
                let ghost xv = x@;
                acc.push(x);
                proof {
                    assert(acc@.drop_last() =~= before);
                    assert(view_block(acc@) =~= view_block(before).push(xv));
                }
            },
            None => {},
        }
        self.parse_block_stmts(acc, fuel - 1);
    }

    /// Parses an if-expression, following `sp_parse_if_expr`.
    fn parse_if_expr(&mut self, fuel: u128) -> (r: Option<Expr>)
        requires
            old(self).wf(),
        ensures
            final(self).wf(),
            ({
                let (s, e) = sp_parse_if_expr(old(self)@, fuel as nat);
                final(self)@ == s && (match r {
                    Some(x) => e == Some(x@),
                    None => e is None,
                })
            }),
        decreases fuel,
    {
        if fuel == 0 {
            return None;
        }
        if !self.expect_next_token(Token::Lparen) {
            return None;
        }
        self.bump();
        let cond = match self.parse_expr(Precedence::Lowest, fuel - 1) {
            None => {
                return None;
            },
            Some(c) => c,
        };
        if !self.expect_next_token(Token::Rparen) {
            return None;
        }
        if !self.expect_next_token(Token::Lbrace) {
            return None;
        }
        let consequence = self.parse_block_stmt(fuel - 1);
        if self.next_token_is(&Token::Else) {
            self.bump();
            if !self.expect_next_token(Token::Lbrace) {
                return None;
            }
            let alternative = self.parse_block_stmt(fuel - 1);
            Some(
                Expr::If {
                    cond: Box::new(cond),
                    consequence,
                    alternative: Some(alternative),
                },
            )
        } else {
            Some(Expr::If { cond: Box::new(cond), consequence, alternative: None })
        }
    }

    /// Parses a function literal, following `sp_parse_fn_expr`.
    fn parse_fn_expr(&mut self, fuel: u128) -> (r: Option<Expr>)
        requires
            old(self).wf(),
        ensures
            final(self).wf(),
            ({
                let (s, e) = sp_parse_fn_expr(old(self)@, fuel as nat);
                final(self)@ == s && (match r {
                    Some(x) => e == Some(x@),
                    None => e is None,
                })
            }),
        decreases fuel,
    {
        if fuel == 0 {
            return None;
        }
        if !self.expect_next_token(Token::Lparen) {
            return None;
        }
        let mut params: Vec<Ident> = Vec::new();
        proof {
            assert(view_params(params@) =~= Seq::<Seq<char>>::empty());
        }
        if !self.parse_fn_params(&mut params, fuel - 1) {
            return None;
        }
        if !self.expect_next_token(Token::Lbrace) {
            return None;
        }
        let body = self.parse_block_stmt(fuel - 1);
        Some(Expr::Func { params, body })
    }

    /// Parses a parameter list onto `acc`, following `sp_parse_params`.
    fn parse_fn_params(&mut self, acc: &mut Vec<Ident>, fuel: u128) -> (r: bool)
        requires
            old(self).wf(),
            old(acc)@.len() == 0,
        ensures
            final(self).wf(),
            ({
                let (s, ps) = sp_parse_params(old(self)@, fuel as nat);
                final(self)@ == s && (match ps {
                    Some(seqs) => r && view_params(final(acc)@) == seqs,
                    None => !r,
                })
            }),
        decreases fuel,
    {
        if fuel == 0 {
            return false;
        }
        if self.next_token_is(&Token::Rparen) {
            self.bump();
            proof {
                assert(view_params(acc@) =~= Seq::<Seq<char>>::empty());
            }
            return true;
        }
        self.bump();
        let first: String = match &self.current_token {
            Token::Ident(name) => name.as_str().to_owned(),
            _ => {
                return false;
            },
        };
        let ghost before = acc@;
        acc.push(Ident(first));
        proof {
            assert(view_params(acc@) =~= seq![self@.cur->Ident_0]);
        }
        self.parse_more_params(acc, fuel - 1)
    }

    /// Parses the parameters after the first, then the closing `)`,
    /// following `sp_parse_more_params`.
    fn parse_more_params(&mut self, acc: &mut Vec<Ident>, fuel: u128) -> (r: bool)
        requires
            old(self).wf(),
        ensures
            final(self).wf(),
            ({
                let (s, ps) = sp_parse_more_params(
                    old(self)@,
                    view_params(old(acc)@),
                    fuel as nat,
                );
                final(self)@ == s && (match ps {
                    Some(seqs) => r && view_params(final(acc)@) == seqs,
                    None => !r,
                })
            }),
        decreases fuel,
    {
        if fuel == 0 {
            return false;
        }
        if self.next_token_is(&Token::Comma) {
            self.bump();
            self.bump();
            let name: String = match &self.current_token {
                Token::Ident(n) => n.as_str().to_owned(),
                _ => {
                    return false;
                },
            };
            let ghost before = acc@;
            acc.push(Ident(name));
            proof {
                assert(view_params(acc@) =~= view_params(before).push(self@.cur->Ident_0));
            }
            self.parse_more_params(acc, fuel - 1)
        } else {
            self.expect_next_token(Token::Rparen)
        }
    }

    /// Extends `left` with infix operators and calls while the next token
    /// binds tighter than `precedence`, following `sp_parse_infix_chain`.
    fn parse_infix_chain(&mut self, left: Expr, precedence: Precedence, fuel: u128) -> (r: Option<
        Expr,
    >)
        requires
            old(self).wf(),
        ensures
            final(self).wf(),
            ({
                let (s, e) = sp_parse_infix_chain(old(self)@, left@, precedence, fuel as nat);
                final(self)@ == s && (match r {
                    Some(x) => e == Some(x@),
                    None => e is None,
                })
            }),
        decreases fuel,
    {
        if fuel == 0 {
            return Some(left);
        }
        let np = token_precedence(&self.next_token);
        if prec_lt(precedence, np) {
            match &self.next_token {
                Token::Lparen => {
                    self.bump();
                    let mut args: Vec<Expr> = Vec::new();
                    if self.parse_call_args(&mut args, fuel - 1) {
                        self.parse_infix_chain(
                            Expr::Call { func: Box::new(left), args },
                            precedence,
                            fuel - 1,
                        )
                    } else {
                        None
                    }
                },
                _ => {
                    self.bump();
                    let op = infix_token_op(&self.current_token);
                    let p = token_precedence(&self.current_token);
                    self.bump();
                    match self.parse_expr(p, fuel - 1) {
                        None => None,
                        Some(right) => self.parse_infix_chain(
                            Expr::Infix(op, Box::new(left), Box::new(right)),
                            precedence,
                            fuel - 1,
                        ),
                    }
                },
            }
        } else {
            Some(left)
        }
    }

    /// Parses a call argument list onto `acc`, following
    /// `sp_parse_call_args`.
    fn parse_call_args(&mut self, acc: &mut Vec<Expr>, fuel: u128) -> (r: bool)
        requires
            old(self).wf(),
            old(acc)@.len() == 0,
        ensures
            final(self).wf(),
            ({
                let (s, args) = sp_parse_call_args(old(self)@, fuel as nat);
                final(self)@ == s && (match args {
                    Some(seqs) => r && view_exprs(final(acc)@) == seqs,
                    None => !r,
                })
            }),
        decreases fuel,
    {
        if fuel == 0 {
            return false;
        }
        if self.next_token_is(&Token::Rparen) {
            self.bump();
            proof {
                assert(view_exprs(acc@) =~= Seq::<ExprV>::empty());
            }
            return true;
        }
        self.bump();
        match self.parse_expr(Precedence::Lowest, fuel - 1) {
            None => false,
            Some(x) => {
                let ghost xv = x@;
                acc.push(x);
                proof {
                    assert(acc@.drop_last() =~= Seq::<Expr>::empty());
                    assert(view_exprs(Seq::<Expr>::empty()) =~= Seq::<ExprV>::empty());
                    assert(view_exprs(acc@) =~= seq![xv]);
                }
                self.parse_more_args(acc, fuel - 1)
            },
        }
    }

    /// Parses the arguments after the first, then the closing `)`,
    /// following `sp_parse_more_args`.
    fn parse_more_args(&mut self, acc: &mut Vec<Expr>, fuel: u128) -> (r: bool)
        requires
            old(self).wf(),
        ensures
            final(self).wf(),
            ({
                let (s, args) = sp_parse_more_args(old(self)@, view_exprs(old(acc)@), fuel as nat);
                final(self)@ == s && (match args {
                    Some(seqs) => r && view_exprs(final(acc)@) == seqs,
                    None => !r,
                })
            }),
        decreases fuel,
    {
        if fuel == 0 {
            return false;
        }
        if self.next_token_is(&Token::Comma) {
            self.bump();
            self.bump();
            match self.parse_expr(Precedence::Lowest, fuel - 1) {
                None => false,
                Some(x) => {
                    let ghost before = acc@;
                    let ghost xv = x@;
                    acc.push(x);
                    proof {
                        assert(acc@.drop_last() =~= before);
                        assert(view_exprs(acc@) =~= view_exprs(before).push(xv));
                    }
                    self.parse_more_args(acc, fuel - 1)
                },
            }
        } else {
            self.expect_next_token(Token::Rparen)
        }
    }
}

/// The numeric binding power of a precedence level.
fn prec_value(p: Precedence) -> (v: u8)
    ensures
        v == prec_val(p),
{
    match p {
        Precedence::Lowest => 0,
        Precedence::Equals => 1,
        Precedence::LessGreater => 2,
        Precedence::Sum => 3,
        Precedence::Product => 4,
        Precedence::Prefix => 5,
        Precedence::Call => 6,
    }
}

/// Whether `a` binds less tightly than `b`.
fn prec_lt(a: Precedence, b: Precedence) -> (r: bool)
    ensures
        r == (prec_val(a) < prec_val(b)),
{
    prec_value(a) < prec_value(b)
}

/// The precedence a token has when it appears in infix position.
fn token_precedence(t: &Token) -> (p: Precedence)
    ensures
        p == spec_precedence(t@),
{
    match t {
        Token::Equal => Precedence::Equals,
        Token::NotEqual => Precedence::Equals,
        Token::LessThan => Precedence::LessGreater,
        Token::GreaterThan => Precedence::LessGreater,
        Token::Plus => Precedence::Sum,
        Token::Minus => Precedence::Sum,
        Token::Slash => Precedence::Product,
        Token::Asterisk => Precedence::Product,
        Token::Lparen => Precedence::Call,
        _ => Precedence::Lowest,
    }
}

/// The infix operator a token denotes.
fn infix_token_op(t: &Token) -> (op: Infix)
    ensures
        op == infix_of(t@),
{
    match t {
        Token::Plus => Infix::Plus,
        Token::Minus => Infix::Minus,
        Token::Slash => Infix::Divide,
        Token::Asterisk => Infix::Multiply,
        Token::Equal => Infix::Equal,
        Token::NotEqual => Infix::NotEqual,
        Token::LessThan => Infix::LessThan,
        Token::GreaterThan => Infix::GreaterThan,
        _ => Infix::Plus,
    }
}

} // verus!
