//! Laws of the pipeline, proved once and for all over the models: runtime
//! faults propagate unchanged through every enclosing evaluation step, and
//! re-parsing the textual rendering of an evaluated literal value reproduces
//! an equal value.

use vstd::prelude::*;

use crate::ast::ExprV;
use crate::ast::Infix;
use crate::ast::LiteralV;
use crate::ast::Prefix;
use crate::ast::StmtV;
use crate::evaluator::EnvV;
use crate::evaluator::eval_block_v;
use crate::evaluator::eval_expr_v;
use crate::evaluator::eval_prefix;
use crate::evaluator::eval_program_v;
use crate::evaluator::eval_stmt_v;
use crate::lexer::digits_end;
use crate::lexer::digits_value;
use crate::lexer::ident_end;
use crate::lexer::is_digit_char;
use crate::lexer::is_letter_char;
use crate::lexer::is_whitespace_char;
use crate::lexer::lookup_ident;
use crate::lexer::scan_token;
use crate::lexer::spec_next_token;
use crate::lexer::whitespace_end;
use crate::object::ObjectV;
use crate::object::digit_char;
use crate::object::int_dec;
use crate::object::is_sentinel;
use crate::object::nat_dec;
use crate::object::render_obj;
use crate::parser::Precedence;
use crate::parser::sp_initial;
use crate::parser::sp_parse;
use crate::parser::sp_parse_expr;
use crate::parser::sp_parse_infix_chain;
use crate::parser::sp_parse_program;
use crate::token::TokenV;

verus! {

/// Runtime faults propagate unchanged. Once a subexpression `e` evaluates to
/// a sentinel (an `Error`, or a `ReturnValue` unwinding a function body),
/// every enclosing expression and statement form evaluates to that same
/// sentinel, with the arena exactly as the failing subevaluation left it: a
/// prefix or infix operator around it, an `if` whose condition it is, a call
/// whose callee or whose left operand of indexing it is, and a `let` or
/// `return` statement of it. An infix expression likewise propagates a
/// sentinel of its right operand, and a block stops at the first statement
/// that produces a sentinel.
pub proof fn lemma_sentinel_propagation(
    arena: Seq<EnvV>,
    env: int,
    op: Prefix,
    iop: Infix,
    e: ExprV,
    r: ExprV,
    cons: Seq<StmtV>,
    alt: Option<Seq<StmtV>>,
    args: Seq<ExprV>,
    name: Seq<char>,
    s0: StmtV,
    rest: Seq<StmtV>,
    fuel: nat,
)
    ensures
        ({
            let (a1, v) = eval_expr_v(arena, env, e, fuel);
            is_sentinel(v) ==> {
                &&& eval_expr_v(arena, env, ExprV::Prefix(op, Box::new(e)), fuel) == (a1, v)
                &&& eval_expr_v(arena, env, ExprV::Infix(iop, Box::new(e), Box::new(r)), fuel)
                    == (a1, v)
                &&& eval_expr_v(arena, env, ExprV::If(Box::new(e), cons, alt), fuel) == (a1, v)
                &&& eval_expr_v(arena, env, ExprV::Call(Box::new(e), args), fuel) == (a1, v)
                &&& eval_expr_v(arena, env, ExprV::Index(Box::new(e), Box::new(r)), fuel) == (
                a1,
                v,
                )
                &&& eval_stmt_v(arena, env, StmtV::Let(name, e), fuel) == (a1, Some(v))
                &&& eval_stmt_v(arena, env, StmtV::Return(e), fuel) == (a1, Some(v))
            }
        }),
        ({
            let (a1, lv) = eval_expr_v(arena, env, e, fuel);
            let (a2, rv) = eval_expr_v(a1, env, r, fuel);
            (!is_sentinel(lv) && is_sentinel(rv)) ==> eval_expr_v(
                arena,
                env,
                ExprV::Infix(iop, Box::new(e), Box::new(r)),
                fuel,
            ) == (a2, rv)
        }),
        ({
            let (a1, r0) = eval_stmt_v(arena, env, s0, fuel);
            (r0 matches Some(v) && is_sentinel(v)) ==> eval_block_v(
                arena,
                env,
                seq![s0] + rest,
                fuel,
            ) == (a1, r0)
        }),
{
    let stmts = seq![s0] + rest;
    assert(stmts.len() == 1 + rest.len());
    assert(stmts.first() == s0);
}

/// Every character of the decimal rendering of a non-negative integer is a
/// digit, there is at least one of them, and reading them back as a number
/// gives the integer.
proof fn lemma_nat_dec_digits(n: int)
    requires
        n >= 0,
    ensures
        nat_dec(n).len() >= 1,
        forall|i: int| 0 <= i < nat_dec(n).len() ==> is_digit_char(#[trigger] nat_dec(n)[i]),
        digits_value(nat_dec(n)) == n,
    decreases n,
{
    if n < 10 {
        assert(is_digit_char(digit_char(n)));
        assert(digit_value_of(n));
        assert(nat_dec(n) =~= seq![digit_char(n)]);
        assert(nat_dec(n).drop_last() =~= Seq::<char>::empty());
        assert(digits_value(nat_dec(n)) == digits_value(Seq::<char>::empty()) * 10
            + crate::lexer::digit_value(digit_char(n)));
        assert(forall|i: int|
            0 <= i < nat_dec(n).len() ==> is_digit_char(#[trigger] nat_dec(n)[i]));
    } else {
        lemma_nat_dec_digits(n / 10);
        let prefix = nat_dec(n / 10);
        let c = digit_char(n % 10);
        assert(is_digit_char(c));
        assert(digit_value_of(n % 10));
        assert(nat_dec(n) == prefix.push(c));
        assert(prefix.push(c).drop_last() =~= prefix);
        assert(digits_value(nat_dec(n)) == digits_value(prefix) * 10 + crate::lexer::digit_value(
            c,
        ));
        assert(forall|i: int|
            0 <= i < nat_dec(n).len() ==> is_digit_char(#[trigger] nat_dec(n)[i]));
    }
}

/// The character of a digit value reads back as that value.
spec fn digit_value_of(n: int) -> bool {
    crate::lexer::digit_value(digit_char(n)) == n
}

/// A run of digits ends only at the end of the text.
proof fn lemma_digits_end_all(s: Seq<char>, p: int)
    requires
        0 <= p <= s.len(),
        forall|i: int| p <= i < s.len() ==> is_digit_char(#[trigger] s[i]),
    ensures
        digits_end(s, p) == s.len(),
    decreases s.len() - p,
{
    if p < s.len() {
        lemma_digits_end_all(s, p + 1);
    }
}

/// Lexing a text that is one run of digits yields the integer token with
/// their value, and then the end of input.
proof fn lemma_lex_digit_run(s: Seq<char>)
    requires
        s.len() >= 1,
        forall|i: int| 0 <= i < s.len() ==> is_digit_char(#[trigger] s[i]),
        digits_value(s) <= i64::MAX,
    ensures
        spec_next_token(s, 0) == (TokenV::Int(digits_value(s) as i64), s.len() as int),
        spec_next_token(s, s.len() as int) == (TokenV::Eof, s.len() as int),
{
    assert(is_digit_char(s[0]));
    assert(!is_whitespace_char(s[0]));
    assert(whitespace_end(s, 0) == 0);
    lemma_digits_end_all(s, 0);
    assert(s.subrange(0, s.len() as int) =~= s);
    assert(!is_letter_char(s[0]));
    assert(scan_token(s, 0) == (TokenV::Int(digits_value(s) as i64), s.len() as int));
    assert(whitespace_end(s, s.len() as int) == s.len() as int);
}

/// Parsing a program whose tokens are one literal expression and the end of
/// input yields exactly one expression statement holding that literal.
proof fn lemma_parse_single_literal(s: Seq<char>, e: ExprV)
    requires
        ({
            let (t0, p1) = spec_next_token(s, 0);
            &&& spec_next_token(s, p1) == (TokenV::Eof, p1)
            &&& match t0 {
                TokenV::Int(n) => e == ExprV::Literal(LiteralV::Int(n)),
                TokenV::Bool(b) => e == ExprV::Literal(LiteralV::Bool(b)),
                _ => false,
            }
        }),
    ensures
        sp_parse(sp_initial(s, 0)).1 =~= seq![StmtV::Expr(e)],
{
    reveal_with_fuel(sp_parse_program, 3);
    let s0 = sp_initial(s, 0);
    let fuel = crate::parser::parse_fuel(s);
    assert(s0.nxt is Eof);
    assert(sp_parse_program(s0, Seq::empty(), fuel).1 =~= seq![StmtV::Expr(e)]);
}

/// Parsing a program whose tokens are a minus sign, an integer literal and
/// the end of input yields one expression statement negating the literal.
proof fn lemma_parse_negated_literal(s: Seq<char>, n: i64)
    requires
        ({
            let (t0, p1) = spec_next_token(s, 0);
            let (t1, p2) = spec_next_token(s, p1);
            &&& t0 == TokenV::Minus
            &&& t1 == TokenV::Int(n)
            &&& spec_next_token(s, p2) == (TokenV::Eof, p2)
        }),
    ensures
        sp_parse(sp_initial(s, 0)).1 =~= seq![
            StmtV::Expr(ExprV::Prefix(Prefix::Neg, Box::new(ExprV::Literal(LiteralV::Int(n))))),
        ],
{
    reveal_with_fuel(sp_parse_program, 3);
    reveal_with_fuel(sp_parse_expr, 3);
    reveal_with_fuel(sp_parse_infix_chain, 3);
    let s0 = sp_initial(s, 0);
    let fuel = crate::parser::parse_fuel(s);
    assert(s0.cur == TokenV::Minus);
    assert(s0.nxt == TokenV::Int(n));
    assert(sp_parse_program(s0, Seq::empty(), fuel).1 =~= seq![
        StmtV::Expr(ExprV::Prefix(Prefix::Neg, Box::new(ExprV::Literal(LiteralV::Int(n))))),
    ]);
}

/// Evaluating a program that is one literal expression statement yields the
/// literal's value, whatever the environment and call depth.
proof fn lemma_eval_single_literal(arena: Seq<EnvV>, l: LiteralV, fuel: nat)
    ensures
        eval_program_v(arena, seq![StmtV::Expr(ExprV::Literal(l))], fuel).1 == (match l {
            LiteralV::Int(n) => ObjectV::Int(n),
            LiteralV::Bool(b) => ObjectV::Bool(b),
            LiteralV::Str(t) => ObjectV::Str(t),
        }),
{
    let prog = seq![StmtV::Expr(ExprV::Literal(l))];
    assert(prog.first() == StmtV::Expr(ExprV::Literal(l)));
    let lv = (match l {
        LiteralV::Int(n) => ObjectV::Int(n),
        LiteralV::Bool(b) => ObjectV::Bool(b),
        LiteralV::Str(t) => ObjectV::Str(t),
    });
    assert(eval_expr_v(arena, 0, ExprV::Literal(l), fuel) == (arena, lv));
    assert(eval_stmt_v(arena, 0, prog.first(), fuel) == (arena, Some(lv)));
    assert(!is_sentinel(lv));
    assert(eval_block_v(arena, 0, prog, fuel) == (arena, Some(lv)));
}

/// Idempotent rendering of literal values: lexing, parsing and evaluating
/// the textual rendering of an integer or boolean value yields an equal
/// value, whatever the environment and whatever the call depth. The one
/// integer left out is the smallest one: the digits of its rendering exceed
/// the largest 64-bit signed integer, so they lex as an `Illegal` token.
pub proof fn lemma_literal_render_round_trip(v: ObjectV, arena: Seq<EnvV>, fuel: nat)
    requires
        match v {
            ObjectV::Int(i) => i != i64::MIN,
            ObjectV::Bool(_) => true,
            _ => false,
        },
    ensures
        ({
            let text = render_obj(v);
            let (_, prog) = sp_parse(sp_initial(text, 0));
            eval_program_v(arena, prog, fuel).1 == v
        }),
{
    match v {
        ObjectV::Int(i) => {
            if i >= 0 {
                let s = nat_dec(i as int);
                lemma_nat_dec_digits(i as int);
                lemma_lex_digit_run(s);
                lemma_parse_single_literal(s, ExprV::Literal(LiteralV::Int(i)));
                lemma_eval_single_literal(arena, LiteralV::Int(i), fuel);
            } else {
                lemma_round_trip_negative_int(i, arena, fuel);
            }
        },
        ObjectV::Bool(b) => {
            if b {
                lemma_lex_keyword_true();
                lemma_parse_single_literal("true"@, ExprV::Literal(LiteralV::Bool(true)));
            } else {
                lemma_lex_keyword_false();
                lemma_parse_single_literal("false"@, ExprV::Literal(LiteralV::Bool(false)));
            }
            lemma_eval_single_literal(arena, LiteralV::Bool(b), fuel);
        },
        _ => {},
    }
}

/// The round trip for a negative integer: its rendering lexes as a minus
/// sign and a digit run, parses as a negated literal, and evaluates back to
/// the integer.
#[verifier::rlimit(100)]
#[verifier::spinoff_prover]
proof fn lemma_round_trip_negative_int(i: i64, arena: Seq<EnvV>, fuel: nat)
    requires
        i < 0,
        i != i64::MIN,
    ensures
        ({
            let text = render_obj(ObjectV::Int(i));
            let (_, prog) = sp_parse(sp_initial(text, 0));
            eval_program_v(arena, prog, fuel).1 == ObjectV::Int(i)
        }),
{
    let m = -(i as int);
    let s = int_dec(i as int);
    lemma_nat_dec_digits(m);
    let digits = nat_dec(m);
    assert(s == seq!['-'] + digits);
    assert(s.len() == 1 + digits.len());
    assert(s[0] == '-');
    // The minus sign lexes alone.
    assert(!is_whitespace_char(s[0]));
    assert(whitespace_end(s, 0) == 0);
    assert(spec_next_token(s, 0) == (TokenV::Minus, 1int));
    // The digits after it lex as one integer token.
    assert(forall|j: int| 1 <= j < s.len() ==> is_digit_char(#[trigger] s[j]));
    assert(is_digit_char(s[1]));
    assert(!is_whitespace_char(s[1]));
    assert(whitespace_end(s, 1) == 1);
    lemma_digits_end_all(s, 1);
    assert(s.subrange(1, s.len() as int) =~= digits);
    assert(digits_value(s.subrange(1, s.len() as int)) == m);
    assert(m <= i64::MAX);
    assert(!is_letter_char(s[1]));
    assert(spec_next_token(s, 1) == (TokenV::Int(m as i64), s.len() as int));
    assert(whitespace_end(s, s.len() as int) == s.len() as int);
    assert(spec_next_token(s, s.len() as int) == (TokenV::Eof, s.len() as int));
    lemma_parse_negated_literal(s, m as i64);
    // Evaluating the negation gives the value back.
    let ev = ExprV::Prefix(Prefix::Neg, Box::new(ExprV::Literal(LiteralV::Int(m as i64))));
    let prog = seq![StmtV::Expr(ev)];
    assert(prog.first() == StmtV::Expr(ev));
    assert(eval_expr_v(arena, 0, ExprV::Literal(LiteralV::Int(m as i64)), fuel) == (
        arena,
        ObjectV::Int(m as i64),
    ));
    assert(eval_prefix(Prefix::Neg, ObjectV::Int(m as i64)) == ObjectV::Int(i));
    assert(eval_expr_v(arena, 0, ev, fuel) == (arena, ObjectV::Int(i)));
    assert(eval_stmt_v(arena, 0, prog.first(), fuel) == (arena, Some(ObjectV::Int(i))));
    assert(eval_block_v(arena, 0, prog, fuel) == (arena, Some(ObjectV::Int(i))));
    assert(eval_program_v(arena, prog, fuel).1 == ObjectV::Int(i));
}

/// The text `true` lexes as the boolean token, then the end of input.
proof fn lemma_lex_keyword_true()
    ensures
        spec_next_token("true"@, 0) == (TokenV::Bool(true), 4int),
        spec_next_token("true"@, 4) == (TokenV::Eof, 4int),
{
    reveal_strlit("true");
    reveal_strlit("fn");
    reveal_strlit("let");
    reveal_strlit("false");
    reveal_strlit("if");
    reveal_strlit("else");
    reveal_strlit("return");
    let s = "true"@;
    assert(s.len() == 4);
    reveal_with_fuel(ident_end, 6);
    assert(ident_end(s, 0) == 4);
    assert(s.subrange(0, 4) =~= s);
    assert(s != "else"@);
    assert(lookup_ident(s) == TokenV::Bool(true));
    assert(whitespace_end(s, 0) == 0);
    assert(whitespace_end(s, 4) == 4);
}

/// The text `false` lexes as the boolean token, then the end of input.
proof fn lemma_lex_keyword_false()
    ensures
        spec_next_token("false"@, 0) == (TokenV::Bool(false), 5int),
        spec_next_token("false"@, 5) == (TokenV::Eof, 5int),
{
    reveal_strlit("true");
    reveal_strlit("fn");
    reveal_strlit("let");
    reveal_strlit("false");
    reveal_strlit("if");
    reveal_strlit("else");
    reveal_strlit("return");
    let s = "false"@;
    assert(s.len() == 5);
    reveal_with_fuel(ident_end, 7);
    assert(ident_end(s, 0) == 5);
    assert(s.subrange(0, 5) =~= s);
    assert(s != "else"@);
    assert(lookup_ident(s) == TokenV::Bool(false));
    assert(whitespace_end(s, 0) == 0);
    assert(whitespace_end(s, 5) == 5);
}

} // verus!
