//! The evaluator: walks the abstract syntax tree and produces runtime
//! values, threading a chain of environments for lexical scoping.
//!
//! Environments live in an arena owned by the evaluator: each frame maps
//! names to values and points to an optional parent frame created earlier.
//! A closure captures the index of the frame that was active at its
//! definition site, so it keeps access to that scope after the call that
//! created the scope returns.
//!
//! The spec functions `eval_expr_v`, `eval_stmt_v` and `eval_block_v` are the
//! mathematical model of evaluation, over the model types `ExprV`, `StmtV`,
//! `ObjectV` and `EnvV`; the executable methods are proved to follow them
//! exactly. Evaluation carries a fuel that bounds the depth of function
//! calls (`CALL_LIMIT` at the top level), so that a divergent program ends
//! in an `Error` value instead of exhausting the native stack; everything
//! else is structural recursion and needs no fuel.

use vstd::prelude::*;

use crate::ast::Expr;
use crate::ast::ExprV;
use crate::ast::Ident;
use crate::ast::Infix;
use crate::ast::Literal;
use crate::ast::LiteralV;
use crate::ast::Prefix;
use crate::ast::Program;
use crate::ast::Stmt;
use crate::ast::StmtV;
use crate::ast::duplicate_block;
use crate::ast::duplicate_params;
use crate::ast::view_block;
use crate::ast::view_expr;
use crate::ast::view_exprs;
use crate::ast::view_stmt;
use crate::ast::view_params;
use crate::object::Builtin;
use crate::object::Object;
use crate::object::ObjectV;
use crate::object::is_sentinel;
use crate::object::view_obj;
use crate::object::view_objs;

verus! {

broadcast use vstd::std_specs::vec::group_vec_axioms;

/// The depth of nested function calls the evaluator allows before it gives
/// up with a runtime error, so that a divergent program cannot exhaust the
/// native stack.
pub const CALL_LIMIT: u64 = 1000;

/// One scope: bindings from names to values, and the index of the parent
/// scope, if any. Later bindings shadow earlier ones of the same name.
pub struct Env {
    parent: Option<usize>,
    bindings: Vec<(String, Object)>,
}

/// The model of a scope.
pub struct EnvV {
    pub parent: Option<int>,
    pub bindings: Seq<(Seq<char>, ObjectV)>,
}

impl View for Env {
    type V = EnvV;

    closed spec fn view(&self) -> EnvV {
        EnvV {
            parent: match self.parent {
                Some(p) => Some(p as int),
                None => None,
            },
            bindings: Seq::new(
                self.bindings@.len(),
                |i: int| (self.bindings@[i].0@, view_obj(self.bindings@[i].1)),
            ),
        }
    }
}

/// The value bound to `name` in one scope: the latest binding wins.
pub open spec fn lookup_frame(bs: Seq<(Seq<char>, ObjectV)>, name: Seq<char>) -> Option<ObjectV>
    decreases bs.len(),
{
    if bs.len() == 0 {
        None
    } else if bs.last().0 == name {
        Some(bs.last().1)
    } else {
        lookup_frame(bs.drop_last(), name)
    }
}

/// The value bound to `name` in the scope `env` or, walking outward, in one
/// of its parents; `None` when no scope of the chain binds it. A parent
/// index that does not point to an earlier frame ends the walk.
pub open spec fn lookup_env(arena: Seq<EnvV>, env: int, name: Seq<char>) -> Option<ObjectV>
    decreases env,
{
    if 0 <= env < arena.len() {
        match lookup_frame(arena[env].bindings, name) {
            Some(v) => Some(v),
            None => match arena[env].parent {
                Some(p) => if 0 <= p < env {
                    lookup_env(arena, p, name)
                } else {
                    None
                },
                None => None,
            },
        }
    } else {
        None
    }
}

/// The arena with `name` bound to `v` in the frame `env`; unchanged when
/// `env` is not a frame.
pub open spec fn set_binding_v(arena: Seq<EnvV>, env: int, name: Seq<char>, v: ObjectV) -> Seq<
    EnvV,
> {
    if 0 <= env < arena.len() {
        arena.update(
            env,
            EnvV { parent: arena[env].parent, bindings: arena[env].bindings.push((name, v)) },
        )
    } else {
        arena
    }
}

/// What a prefix operator returns on an already-evaluated operand: `!`
/// negates a boolean and `-` negates an integer; anything else is a runtime
/// error, as is negating the one integer whose negation does not fit.
pub open spec fn eval_prefix(op: Prefix, v: ObjectV) -> ObjectV {
    match op {
        Prefix::Not => match v {
            ObjectV::Bool(b) => ObjectV::Bool(!b),
            _ => ObjectV::Error("unknown operator: !"@),
        },
        Prefix::Neg => match v {
            ObjectV::Int(n) => if n == i64::MIN {
                ObjectV::Error("integer overflow"@)
            } else {
                ObjectV::Int((-n) as i64)
            },
            _ => ObjectV::Error("unknown operator: -"@),
        },
    }
}

/// Truncating integer division, as the `/` operator of the language
/// computes it: the quotient of the magnitudes, with the sign of the inputs.
pub open spec fn div_trunc(a: int, b: int) -> int
    recommends
        b != 0,
{
    let q = (if a >= 0 {
        a
    } else {
        -a
    }) / (if b >= 0 {
        b
    } else {
        -b
    });
    if (a < 0) == (b < 0) {
        q
    } else {
        -q
    }
}

/// What an infix operator returns on two already-evaluated operands.
/// Arithmetic and ordering require two integers; equality also accepts two
/// booleans; arithmetic whose result does not fit in a 64-bit signed
/// integer, and division by zero, are runtime errors, as is any other
/// combination of operands.
pub open spec fn eval_infix(op: Infix, l: ObjectV, r: ObjectV) -> ObjectV {
    match (l, r) {
        (ObjectV::Int(a), ObjectV::Int(b)) => eval_int_infix(op, a, b),
        (ObjectV::Bool(a), ObjectV::Bool(b)) => match op {
            Infix::Equal => ObjectV::Bool(a == b),
            Infix::NotEqual => ObjectV::Bool(a != b),
            _ => ObjectV::Error("unknown operator"@),
        },
        _ => ObjectV::Error("type mismatch"@),
    }
}

/// What an infix operator returns on two integers.
pub open spec fn eval_int_infix(op: Infix, a: i64, b: i64) -> ObjectV {
    match op {
        Infix::Plus => if i64::MIN <= a + b <= i64::MAX {
            ObjectV::Int((a + b) as i64)
        } else {
            ObjectV::Error("integer overflow"@)
        },
        Infix::Minus => if i64::MIN <= a - b <= i64::MAX {
            ObjectV::Int((a - b) as i64)
        } else {
            ObjectV::Error("integer overflow"@)
        },
        Infix::Multiply => if i64::MIN <= a * b <= i64::MAX {
            ObjectV::Int((a * b) as i64)
        } else {
            ObjectV::Error("integer overflow"@)
        },
        Infix::Divide => if b == 0 {
            ObjectV::Error("division by zero"@)
        } else if a == i64::MIN && b == -1 {
            ObjectV::Error("integer overflow"@)
        } else {
            ObjectV::Int(div_trunc(a as int, b as int) as i64)
        },
        Infix::LessThan => ObjectV::Bool(a < b),
        Infix::GreaterThan => ObjectV::Bool(a > b),
        Infix::Equal => ObjectV::Bool(a == b),
        Infix::NotEqual => ObjectV::Bool(a != b),
    }
}

/// What a built-in function returns on already-evaluated arguments.
pub open spec fn apply_builtin(b: Builtin, args: Seq<ObjectV>) -> ObjectV {
    match b {
        Builtin::Len => if args.len() != 1 {
            ObjectV::Error("wrong number of arguments"@)
        } else {
            match args[0] {
                ObjectV::Str(s) => if s.len() <= i64::MAX {
                    ObjectV::Int(s.len() as i64)
                } else {
                    ObjectV::Error("integer overflow"@)
                },
                ObjectV::Array(es) => if es.len() <= i64::MAX {
                    ObjectV::Int(es.len() as i64)
                } else {
                    ObjectV::Error("integer overflow"@)
                },
                _ => ObjectV::Error("type mismatch"@),
            }
        },
    }
}

/// The bindings of a fresh call scope: each parameter name bound to the
/// argument at the same position.
pub open spec fn bind_params(ps: Seq<Seq<char>>, vs: Seq<ObjectV>) -> Seq<(Seq<char>, ObjectV)>
    recommends
        ps.len() == vs.len(),
{
    Seq::new(ps.len(), |i: int| (ps[i], vs[i]))
}

/// The model of expression evaluation: the arena after evaluation, and the
/// value produced. The two sentinels (`ReturnValue`, `Error`) produced by a
/// subexpression propagate unchanged.
pub open spec fn eval_expr_v(arena: Seq<EnvV>, env: int, e: ExprV, fuel: nat) -> (Seq<
    EnvV,
>, ObjectV)
    decreases fuel, e,
{
    match e {
        ExprV::Ident(name) => (
            arena,
            match lookup_env(arena, env, name) {
                Some(v) => v,
                None => ObjectV::Error("identifier not found: "@ + name),
            },
        ),
        ExprV::Literal(l) => (
            arena,
            match l {
                LiteralV::Int(n) => ObjectV::Int(n),
                LiteralV::Bool(b) => ObjectV::Bool(b),
                LiteralV::Str(s) => ObjectV::Str(s),
            },
        ),
        ExprV::Prefix(op, a) => {
            let (a1, v) = eval_expr_v(arena, env, *a, fuel);
            if is_sentinel(v) {
                (a1, v)
            } else {
                (a1, eval_prefix(op, v))
            }
        },
        ExprV::Infix(op, l, r) => {
            let (a1, lv) = eval_expr_v(arena, env, *l, fuel);
            if is_sentinel(lv) {
                (a1, lv)
            } else {
                let (a2, rv) = eval_expr_v(a1, env, *r, fuel);
                if is_sentinel(rv) {
                    (a2, rv)
                } else {
                    (a2, eval_infix(op, lv, rv))
                }
            }
        },
        ExprV::If(c, cons, alt) => {
            let (a1, cv) = eval_expr_v(arena, env, *c, fuel);
            if is_sentinel(cv) {
                (a1, cv)
            } else {
                match cv {
                    ObjectV::Bool(cond) => if cond {
                        let (a2, r) = eval_block_v(a1, env, cons, fuel);
                        (
                            a2,
                            match r {
                                Some(v) => v,
                                None => ObjectV::Null,
                            },
                        )
                    } else {
                        match alt {
                            Some(b) => {
                                let (a2, r) = eval_block_v(a1, env, b, fuel);
                                (
                                    a2,
                                    match r {
                                        Some(v) => v,
                                        None => ObjectV::Null,
                                    },
                                )
                            },
                            None => (a1, ObjectV::Null),
                        }
                    },
                    _ => (a1, ObjectV::Error("type mismatch: condition is not a boolean"@)),
                }
            }
        },
        ExprV::Func(params, body) => (arena, ObjectV::Func(params, body, env)),
        ExprV::Call(f, args) => {
            let (a1, fv) = eval_expr_v(arena, env, *f, fuel);
            if is_sentinel(fv) {
                (a1, fv)
            } else {
                let (a2, argr) = eval_exprs_v(a1, env, args, Seq::empty(), fuel);
                match argr {
                    Err(s) => (a2, s),
                    Ok(vs) => match fv {
                        ObjectV::Func(ps, body, fenv) => {
                            if ps.len() != vs.len() {
                                (a2, ObjectV::Error("wrong number of arguments"@))
                            } else if fuel == 0 {
                                (a2, ObjectV::Error("recursion limit reached"@))
                            } else {
                                let frame = EnvV {
                                    parent: Some(fenv),
                                    bindings: bind_params(ps, vs),
                                };
                                let (a3, r) = eval_block_v(
                                    a2.push(frame),
                                    a2.len() as int,
                                    body,
                                    (fuel - 1) as nat,
                                );
                                (
                                    a3,
                                    match r {
                                        Some(ObjectV::ReturnValue(b)) => *b,
                                        Some(v) => v,
                                        None => ObjectV::Null,
                                    },
                                )
                            }
                        },
                        ObjectV::Builtin(b) => (a2, apply_builtin(b, vs)),
                        _ => (a2, ObjectV::Error("not a function"@)),
                    },
                }
            }
        },
        ExprV::Array(es) => {
            let (a1, r) = eval_exprs_v(arena, env, es, Seq::empty(), fuel);
            match r {
                Err(s) => (a1, s),
                Ok(vs) => (a1, ObjectV::Array(vs)),
            }
        },
        ExprV::Index(aexp, iexp) => {
            let (a1, av) = eval_expr_v(arena, env, *aexp, fuel);
            if is_sentinel(av) {
                (a1, av)
            } else {
                let (a2, iv) = eval_expr_v(a1, env, *iexp, fuel);
                if is_sentinel(iv) {
                    (a2, iv)
                } else {
                    match (av, iv) {
                        (ObjectV::Array(elems), ObjectV::Int(i)) => (
                            a2,
                            if 0 <= i < elems.len() {
                                elems[i as int]
                            } else {
                                ObjectV::Null
                            },
                        ),
                        _ => (a2, ObjectV::Error("type mismatch"@)),
                    }
                }
            }
        },
    }
}

/// The model of evaluating expressions left to right, accumulating their
/// values; the first sentinel short-circuits and is returned instead.
pub open spec fn eval_exprs_v(
    arena: Seq<EnvV>,
    env: int,
    es: Seq<ExprV>,
    acc: Seq<ObjectV>,
    fuel: nat,
) -> (Seq<EnvV>, Result<Seq<ObjectV>, ObjectV>)
    decreases fuel, es,
{
    if es.len() == 0 {
        (arena, Ok(acc))
    } else {
        let (a1, v) = eval_expr_v(arena, env, es.first(), fuel);
        if is_sentinel(v) {
            (a1, Err(v))
        } else {
            eval_exprs_v(a1, env, es.drop_first(), acc.push(v), fuel)
        }
    }
}

/// The model of statement evaluation: `None` means the statement produced
/// no value (a completed `let`).
pub open spec fn eval_stmt_v(arena: Seq<EnvV>, env: int, s: StmtV, fuel: nat) -> (Seq<
    EnvV,
>, Option<ObjectV>)
    decreases fuel, s,
{
    match s {
        StmtV::Let(name, e) => {
            let (a1, v) = eval_expr_v(arena, env, e, fuel);
            if is_sentinel(v) {
                (a1, Some(v))
            } else {
                (set_binding_v(a1, env, name, v), None)
            }
        },
        StmtV::Return(e) => {
            let (a1, v) = eval_expr_v(arena, env, e, fuel);
            if is_sentinel(v) {
                (a1, Some(v))
            } else {
                (a1, Some(ObjectV::ReturnValue(Box::new(v))))
            }
        },
        StmtV::Expr(e) => {
            let (a1, v) = eval_expr_v(arena, env, e, fuel);
            (a1, Some(v))
        },
        StmtV::Block(b) => eval_block_v(arena, env, b, fuel),
    }
}

/// The model of block evaluation: the statements run in order, intermediate
/// results are discarded and the last one is kept; a sentinel stops the
/// block at once and propagates.
pub open spec fn eval_block_v(arena: Seq<EnvV>, env: int, stmts: Seq<StmtV>, fuel: nat) -> (Seq<
    EnvV,
>, Option<ObjectV>)
    decreases fuel, stmts,
{
    if stmts.len() == 0 {
        (arena, None)
    } else {
        let (a1, r) = eval_stmt_v(arena, env, stmts.first(), fuel);
        let stop = match r {
            Some(v) => is_sentinel(v),
            None => false,
        };
        if stop || stmts.len() == 1 {
            (a1, r)
        } else {
            eval_block_v(a1, env, stmts.drop_first(), fuel)
        }
    }
}

/// The model of evaluating a whole program against the root scope: the
/// value of the last statement, or `Null` when the program is empty or its
/// last statement produced no value.
pub open spec fn eval_program_v(arena: Seq<EnvV>, prog: Seq<StmtV>, fuel: nat) -> (Seq<
    EnvV,
>, ObjectV) {
    let (a, r) = eval_block_v(arena, 0, prog, fuel);
    (
        a,
        match r {
            Some(v) => v,
            None => ObjectV::Null,
        },
    )
}

/// The arena a fresh evaluator starts from: one root scope holding the
/// built-in functions.
pub open spec fn initial_arena() -> Seq<EnvV> {
    seq![EnvV { parent: None, bindings: seq![("len"@, ObjectV::Builtin(Builtin::Len))] }]
}

/// A tree-walking evaluator. It owns the arena of scopes, which persists
/// across calls of `eval` so that bindings made by one program are visible
/// to the next.
pub struct Evaluator {
    envs: Vec<Env>,
}

impl View for Evaluator {
    type V = Seq<EnvV>;

    closed spec fn view(&self) -> Seq<EnvV> {
        Seq::new(self.envs@.len(), |i: int| self.envs@[i]@)
    }
}

/// Whether a value is one of the two sentinels.
fn is_sentinel_obj(o: &Object) -> (r: bool)
    ensures
        r == is_sentinel(o@),
{
    match o {
        Object::ReturnValue(_) => true,
        Object::Error(_) => true,
        _ => false,
    }
}

/// What a prefix operator returns on an already-evaluated operand.
fn apply_prefix(op: Prefix, v: Object) -> (r: Object)
    ensures
        r@ == eval_prefix(op, v@),
{
    match op {
        Prefix::Not => match v {
            Object::Bool(b) => Object::Bool(!b),
            _ => Object::Error("unknown operator: !".to_owned()),
        },
        Prefix::Neg => match v {
            Object::Int(n) => {
                if n == i64::MIN {
                    Object::Error("integer overflow".to_owned())
                } else {
                    Object::Int(-n)
                }
            },
            _ => Object::Error("unknown operator: -".to_owned()),
        },
    }
}

/// For a divisor that is not zero and a dividend that is not the one
/// overflowing case, truncating division stays in the 64-bit signed range
/// and agrees with `div_trunc`.
proof fn lemma_div_trunc_fits(a: int, b: int)
    requires
        i64::MIN <= a <= i64::MAX,
        i64::MIN <= b <= i64::MAX,
        b != 0,
        !(a == i64::MIN && b == -1),
    ensures
        i64::MIN <= div_trunc(a, b) <= i64::MAX,
        div_trunc(a, b) == (if a == 0 {
            0
        } else if a > 0 && b > 0 {
            a / b
        } else if a < 0 && b < 0 {
            (a * -1) / (b * -1)
        } else if a < 0 {
            ((a * -1) / b) * -1
        } else {
            (a / (b * -1)) * -1
        }),
{
    let am = if a >= 0 { a } else { -a };
    let bm = if b >= 0 { b } else { -b };
    vstd::arithmetic::div_mod::lemma_div_pos_is_pos(am, bm);
    vstd::arithmetic::div_mod::lemma_div_basics_5(am, bm);
    if a == 0 {
        vstd::arithmetic::div_mod::lemma_div_of0(bm);
    }
    if a == i64::MIN && b < 0 {
        vstd::arithmetic::div_mod::lemma_div_is_ordered_by_denominator(am, 2, bm);
        assert(am / 2 == 0x4000000000000000);
    }
}

/// What an infix operator returns on two already-evaluated operands.
fn apply_infix(op: Infix, l: Object, r: Object) -> (res: Object)
    ensures
        res@ == eval_infix(op, l@, r@),
{
    match (l, r) {
        (Object::Int(a), Object::Int(b)) => match op {
            Infix::Plus => match a.checked_add(b) {
                Some(n) => Object::Int(n),
                None => Object::Error("integer overflow".to_owned()),
            },
            Infix::Minus => match a.checked_sub(b) {
                Some(n) => Object::Int(n),
                None => Object::Error("integer overflow".to_owned()),
            },
            Infix::Multiply => match a.checked_mul(b) {
                Some(n) => Object::Int(n),
                None => Object::Error("integer overflow".to_owned()),
            },
            Infix::Divide => {
                if b == 0 {
                    Object::Error("division by zero".to_owned())
                } else if a == i64::MIN && b == -1 {
                    Object::Error("integer overflow".to_owned())
                } else {
                    proof {
                        lemma_div_trunc_fits(a as int, b as int);
                    }
                    match a.checked_div(b) {
                        Some(n) => Object::Int(n),
                        None => Object::Error("integer overflow".to_owned()),
                    }
                }
            },
            Infix::LessThan => Object::Bool(a < b),
            Infix::GreaterThan => Object::Bool(a > b),
            Infix::Equal => Object::Bool(a == b),
            Infix::NotEqual => Object::Bool(a != b),
        },
        (Object::Bool(a), Object::Bool(b)) => match op {
            Infix::Equal => Object::Bool(a == b),
            Infix::NotEqual => Object::Bool(a != b),
            _ => Object::Error("unknown operator".to_owned()),
        },
        _ => Object::Error("type mismatch".to_owned()),
    }
}

/// What a built-in function returns on already-evaluated arguments.
fn run_builtin(b: Builtin, args: &Vec<Object>) -> (r: Object)
    ensures
        r@ == apply_builtin(b, view_objs(args@)),
{
    proof {
        crate::object::lemma_view_objs_len(args@);
    }
    match b {
        Builtin::Len => {
            if args.len() != 1 {
                Object::Error("wrong number of arguments".to_owned())
            } else {
                match &args[0] {
                    Object::Str(s) => {
                        let n = s.as_str().unicode_len();
                        if n as u64 <= i64::MAX as u64 {
                            Object::Int(n as i64)
                        } else {
                            Object::Error("integer overflow".to_owned())
                        }
                    },
                    Object::Array(es) => {
                        proof {
                            crate::object::lemma_view_objs_len(es@);
                        }
                        let n = es.len();
                        if n as u64 <= i64::MAX as u64 {
                            Object::Int(n as i64)
                        } else {
                            Object::Error("integer overflow".to_owned())
                        }
                    },
                    _ => Object::Error("type mismatch".to_owned()),
                }
            }
        },
    }
}

/// The viewed tail of a statement sequence is the tail of its view.
proof fn lemma_block_tail(stmts: Seq<Stmt>)
    requires
        stmts.len() >= 1,
    ensures
        view_block(stmts.subrange(1, stmts.len() as int)) == view_block(stmts).drop_first(),
        view_block(stmts).first() == view_stmt(stmts[0]),
{
    crate::ast::lemma_view_block_len(stmts);
    crate::ast::lemma_view_block_len(stmts.subrange(1, stmts.len() as int));
    assert(view_block(stmts.subrange(1, stmts.len() as int)) =~= view_block(stmts).drop_first());
}

/// A fresh call scope: the parameters bound to the arguments, with the
/// captured scope as parent.
#[verifier::loop_isolation(false)]
fn make_frame(ps: Vec<Ident>, vals: Vec<Object>, fenv: usize) -> (r: Env)
    requires
        ps@.len() == vals@.len(),
    ensures
        r@ == (EnvV {
            parent: Some(fenv as int),
            bindings: bind_params(view_params(ps@), view_objs(vals@)),
        }),
{
    proof {
        crate::object::lemma_view_objs_len(vals@);
    }
    let mut bindings: Vec<(String, Object)> = Vec::new();
    let n = ps.len();
    let mut vals = vals;
    let mut i: usize = 0;
    let ghost vvs = view_objs(vals@);
    while i < n
        invariant
            0 <= i <= n,
            n == ps@.len(),
            vals@.len() == n,
            bindings@.len() == i,
            forall|j: int| 0 <= j < i ==> (#[trigger] bindings@[j]).0@ == ps@[j]@ && view_obj(
                bindings@[j].1,
            ) == vvs[j],
            forall|j: int| i <= j < n ==> view_obj(#[trigger] vals@[j]) == vvs[j],
        decreases n - i,
    {
        let mut tmp = Object::Null;
        let elem = &mut vals[i];
        core::mem::swap(elem, &mut tmp);
        bindings.push((ps[i].0.as_str().to_owned(), tmp));
        i = i + 1;
    }
    let r = Env { parent: Some(fenv), bindings };
    proof {
        assert(r@.bindings =~= bind_params(view_params(ps@), vvs));
    }
    r
}

impl Evaluator {
    /// A fresh evaluator: one root scope holding the built-in functions.
    pub fn new() -> (r: Self)
        ensures
            r@ == initial_arena(),
    {
        let mut bindings: Vec<(String, Object)> = Vec::new();
        bindings.push(("len".to_owned(), Object::Builtin(Builtin::Len)));
        let mut envs: Vec<Env> = Vec::new();
        envs.push(Env { parent: None, bindings });
        let r = Evaluator { envs };
        proof {
            assert(r@[0].bindings =~= initial_arena()[0].bindings);
            assert(r@ =~= initial_arena());
        }
        r
    }

    /// The value bound to `name` in the scope `env` or one of its parents,
    /// following `lookup_env`.
    #[verifier::loop_isolation(false)]
    fn lookup(&self, env: usize, name: &String) -> (r: Option<Object>)
        ensures
            (match r {
                Some(o) => Some(o@),
                None => None::<ObjectV>,
            }) == lookup_env(self@, env as int, name@),
        decreases env,
    {
        if env < self.envs.len() {
            let frame = &self.envs[env];
            let ghost bs = self@[env as int].bindings;
            let mut j: usize = frame.bindings.len();
            proof {
                assert(bs.take(bs.len() as int) =~= bs);
            }
            while j > 0
                invariant
                    j <= frame.bindings.len(),
                    lookup_frame(bs.take(j as int), name@) == lookup_frame(bs, name@),
                decreases j,
            {
                let pair = &frame.bindings[j - 1];
                proof {
                    assert(bs.take(j as int).last() == (pair.0@, view_obj(pair.1)));
                    assert(bs.take(j as int).drop_last() =~= bs.take(j as int - 1));
                }
                if pair.0 == *name {
                    return Some(pair.1.duplicate());
                }
                j = j - 1;
            }
            proof {
                assert(bs.take(0) =~= Seq::<(Seq<char>, ObjectV)>::empty());
            }
            match frame.parent {
                Some(p) => {
                    if p < env {
                        self.lookup(p, name)
                    } else {
                        None
                    }
                },
                None => None,
            }
        } else {
            None
        }
    }

    /// Binds `name` to `v` in the scope `env`, following `set_binding_v`.
    fn set_binding(&mut self, env: usize, name: String, v: Object)
        ensures
            final(self)@ == set_binding_v(old(self)@, env as int, name@, v@),
    {
        let ghost before = self@;
        let ghost namev = name@;
        let ghost vv = v@;
        if env < self.envs.len() {
            let frame = &mut self.envs[env];
            frame.bindings.push((name, v));
            proof {
                assert(self@[env as int].bindings =~= before[env as int].bindings.push(
                    (namev, vv),
                ));
                assert(self@ =~= set_binding_v(before, env as int, namev, vv));
            }
        }
    }

    /// Evaluates one expression in the scope `env`, following `eval_expr_v`.
    #[verifier::loop_isolation(false)]
    #[verifier::rlimit(100)]
    fn eval_expr(&mut self, env: usize, e: &Expr, fuel: u64) -> (r: Object)
        ensures
            ({
                let (a, v) = eval_expr_v(old(self)@, env as int, view_expr(*e), fuel as nat);
                final(self)@ == a && r@ == v
            }),
        decreases fuel, *e,
    {
        let ghost target = eval_expr_v(old(self)@, env as int, view_expr(*e), fuel as nat);
        match e {
            Expr::Ident(id) => match self.lookup(env, &id.0) {
                Some(v) => v,
                None => {
                    let mut msg = "identifier not found: ".to_owned();
                    msg.append(id.0.as_str());
                    Object::Error(msg)
                },
            },
            Expr::Literal(l) => self.eval_literal(l),
            Expr::Prefix(op, a) => {
                let v = self.eval_expr(env, a, fuel);
                if is_sentinel_obj(&v) {
                    v
                } else {
                    apply_prefix(*op, v)
                }
            },
            Expr::Infix(op, a, b) => {
                let lv = self.eval_expr(env, a, fuel);
                if is_sentinel_obj(&lv) {
                    lv
                } else {
                    let rv = self.eval_expr(env, b, fuel);
                    if is_sentinel_obj(&rv) {
                        rv
                    } else {
                        apply_infix(*op, lv, rv)
                    }
                }
            },
            Expr::If { cond, consequence, alternative } => {
                let cv = self.eval_expr(env, cond, fuel);
                if is_sentinel_obj(&cv) {
                    cv
                } else {
                    let res = match cv {
                        Object::Bool(c) => {
                            if c {
                                match self.eval_block_stmt(env, consequence.as_slice(), fuel) {
                                    Some(v) => v,
                                    None => Object::Null,
                                }
                            } else {
                                match alternative {
                                    Some(alt) => {
                                        match self.eval_block_stmt(env, alt.as_slice(), fuel) {
                                            Some(v) => v,
                                            None => Object::Null,
                                        }
                                    },
                                    None => Object::Null,
                                }
                            }
                        },
                        _ => Object::Error("type mismatch: condition is not a boolean".to_owned()),
                    };
                    proof {
                        assert(self@ == target.0);
                        assert(res@ == target.1);
                    }
                    res
                }
            },
            Expr::Func { params, body } => Object::Func(
                duplicate_params(params),
                duplicate_block(body),
                env,
            ),
            Expr::Call { func, args } => {
                let fv = self.eval_expr(env, func, fuel);
                if is_sentinel_obj(&fv) {
                    fv
                } else {
                    let mut vals: Vec<Object> = Vec::new();
                    let argres = self.eval_exprs(env, args.as_slice(), &mut vals, fuel);
                    proof {
                        crate::object::lemma_view_objs_len(vals@);
                    }
                    let res = match argres {
                        Some(s) => s,
                        None => match fv {
                            Object::Func(ps, body, fenv) => {
                                if ps.len() != vals.len() {
                                    Object::Error("wrong number of arguments".to_owned())
                                } else if fuel == 0 {
                                    Object::Error("recursion limit reached".to_owned())
                                } else {
                                    let frame = make_frame(ps, vals, fenv);
                                    let newenv = self.envs.len();
                                    let ghost mid = self@;
                                    let ghost framev = frame@;
                                    self.envs.push(frame);
                                    proof {
                                        assert(self@ =~= mid.push(framev));
                                    }
                                    let rr = self.eval_block_stmt(
                                        newenv,
                                        body.as_slice(),
                                        fuel - 1,
                                    );
                                    match rr {
                                        Some(o) => match o {
                                            Object::ReturnValue(b) => *b,
                                            _ => o,
                                        },
                                        None => Object::Null,
                                    }
                                }
                            },
                            Object::Builtin(b) => run_builtin(b, &vals),
                            _ => Object::Error("not a function".to_owned()),
                        },
                    };
                    proof {
                        assert(self@ == target.0);
                        assert(res@ == target.1);
                    }
                    res
                }
            },
            Expr::Array(es) => {
                let mut vals: Vec<Object> = Vec::new();
                let argres = self.eval_exprs(env, es.as_slice(), &mut vals, fuel);
                let res = match argres {
                    Some(s) => s,
                    None => Object::Array(vals),
                };
                proof {
                    assert(self@ == target.0);
                    assert(res@ == target.1);
                }
                res
            },
            Expr::Index(aexp, iexp) => {
                let av = self.eval_expr(env, aexp, fuel);
                if is_sentinel_obj(&av) {
                    av
                } else {
                    let iv = self.eval_expr(env, iexp, fuel);
                    if is_sentinel_obj(&iv) {
                        iv
                    } else {
                        let res = match (av, iv) {
                            (Object::Array(mut elems), Object::Int(i)) => {
                                proof {
                                    crate::object::lemma_view_objs_len(elems@);
                                }
                                if 0 <= i && (i as u64) < (elems.len() as u64) {
                                    elems.remove(i as usize)
                                } else {
                                    Object::Null
                                }
                            },
                            _ => Object::Error("type mismatch".to_owned()),
                        };
                        proof {
                            assert(self@ == target.0);
                            assert(res@ == target.1);
                        }
                        res
                    }
                }
            },
        }
    }

    /// Evaluates a literal, a pure mapping into the value model.
    fn eval_literal(&mut self, l: &Literal) -> (r: Object)
        ensures
            *final(self) == *old(self),
            r@ == (match l@ {
                LiteralV::Int(n) => ObjectV::Int(n),
                LiteralV::Bool(b) => ObjectV::Bool(b),
                LiteralV::Str(s) => ObjectV::Str(s),
            }),
    {
        match l {
            Literal::Int(n) => Object::Int(*n),
            Literal::Bool(b) => Object::Bool(*b),
            Literal::Str(s) => Object::Str(s.as_str().to_owned()),
        }
    }

    /// Evaluates expressions left to right into `vals`, following
    /// `eval_exprs_v`; the first sentinel is returned instead.
    #[verifier::loop_isolation(false)]
    fn eval_exprs(&mut self, env: usize, es: &[Expr], vals: &mut Vec<Object>, fuel: u64) -> (r:
        Option<Object>)
        ensures
            ({
                let (a, res) = eval_exprs_v(
                    old(self)@,
                    env as int,
                    view_exprs(es@),
                    view_objs(old(vals)@),
                    fuel as nat,
                );
                final(self)@ == a && (match r {
                    None => res == Ok::<Seq<ObjectV>, ObjectV>(view_objs(final(vals)@)),
                    Some(o) => res == Err::<Seq<ObjectV>, ObjectV>(o@),
                })
            }),
        decreases fuel, es@,
    {
        proof {
            crate::ast::lemma_view_exprs_len(es@);
        }
        if es.len() == 0 {
            None
        } else {
            let v = self.eval_expr(env, &es[0], fuel);
            if is_sentinel_obj(&v) {
                Some(v)
            } else {
                let ghost vals_before = vals@;
                let ghost vv = v@;
                vals.push(v);
                proof {
                    assert(vals@.drop_last() =~= vals_before);
                    assert(view_objs(vals@) =~= view_objs(vals_before).push(vv));
                    assert(es@.subrange(1, es@.len() as int) =~= es@.drop_first());
                    crate::ast::lemma_view_exprs_len(es@.drop_first());
                    assert(view_exprs(es@.drop_first()) =~= view_exprs(es@).drop_first());
                    assert(view_exprs(es@).first() == view_expr(es@[0]));
                }
                self.eval_exprs(env, &es[1..es.len()], vals, fuel)
            }
        }
    }

    /// Evaluates one statement in the scope `env`, following `eval_stmt_v`.
    fn eval_stmt(&mut self, env: usize, s: &Stmt, fuel: u64) -> (r: Option<Object>)
        ensures
            ({
                let (a, res) = eval_stmt_v(old(self)@, env as int, view_stmt(*s), fuel as nat);
                final(self)@ == a && (match r {
                    Some(o) => res == Some(o@),
                    None => res is None,
                })
            }),
        decreases fuel, *s,
    {
        match s {
            Stmt::Let(id, e) => {
                let v = self.eval_expr(env, e, fuel);
                if is_sentinel_obj(&v) {
                    Some(v)
                } else {
                    self.set_binding(env, id.0.as_str().to_owned(), v);
                    None
                }
            },
            Stmt::Return(e) => {
                let v = self.eval_expr(env, e, fuel);
                if is_sentinel_obj(&v) {
                    Some(v)
                } else {
                    Some(Object::ReturnValue(Box::new(v)))
                }
            },
            Stmt::Expr(e) => Some(self.eval_expr(env, e, fuel)),
            Stmt::Block(b) => self.eval_block_stmt(env, b.as_slice(), fuel),
        }
    }

    /// Evaluates the statements of a block in order, following
    /// `eval_block_v`: intermediate results are discarded, the last is kept,
    /// and a sentinel stops the block at once.
    #[verifier::loop_isolation(false)]
    fn eval_block_stmt(&mut self, env: usize, stmts: &[Stmt], fuel: u64) -> (r: Option<Object>)
        ensures
            ({
                let (a, res) = eval_block_v(
                    old(self)@,
                    env as int,
                    view_block(stmts@),
                    fuel as nat,
                );
                final(self)@ == a && (match r {
                    Some(o) => res == Some(o@),
                    None => res is None,
                })
            }),
        decreases fuel, stmts@,
    {
        proof {
            crate::ast::lemma_view_block_len(stmts@);
        }
        if stmts.len() == 0 {
            None
        } else {
            let r = self.eval_stmt(env, &stmts[0], fuel);
            let stop = match &r {
                Some(v) => is_sentinel_obj(v),
                None => false,
            };
            proof {
                lemma_block_tail(stmts@);
            }
            if stop || stmts.len() == 1 {
                r
            } else {
                self.eval_block_stmt(env, &stmts[1..stmts.len()], fuel)
            }
        }
    }

    /// Evaluates a whole program against the root scope and returns the
    /// value of its last statement, or `Null` when there is none; this
    /// follows `eval_program_v` at the `CALL_LIMIT` call depth.
    pub fn eval(&mut self, program: Program) -> (r: Object)
        ensures
            ({
                let (a, v) = eval_program_v(old(self)@, view_block(program@), CALL_LIMIT as nat);
                final(self)@ == a && r@ == v
            }),
    {
        let r = self.eval_block_stmt(0, program.as_slice(), CALL_LIMIT);
        match r {
            Some(v) => v,
            None => Object::Null,
        }
    }
}

} // verus!
