//! The runtime value model: the closed set of value shapes evaluation
//! produces, and their textual rendering.
//!
//! `ReturnValue` and `Error` are sentinels: they signal control flow
//! (early return, runtime fault) through ordinary value propagation and only
//! ever appear as the outermost result of evaluating a statement or
//! expression while unwinding.

use vstd::prelude::*;

use crate::ast::BlockStmt;
use crate::ast::Ident;
use crate::ast::StmtV;
use crate::ast::duplicate_block;
use crate::ast::duplicate_params;
use crate::ast::view_block;
use crate::ast::view_params;

verus! {

/// The fixed set of built-in functions, stored as data in a `Builtin` value.
#[derive(Debug, PartialEq, Eq, Clone, Copy)]
pub enum Builtin {
    /// The number of elements of an array, or characters of a string.
    Len,
}

/// A runtime value. A `Func` value carries its parameter names, its body,
/// and the index of the environment captured at its definition site.
#[derive(Debug, PartialEq, Eq)]
pub enum Object {
    Int(i64),
    Str(String),
    Bool(bool),
    Array(Vec<Object>),
    Func(Vec<Ident>, BlockStmt, usize),
    Builtin(Builtin),
    Null,
    ReturnValue(Box<Object>),
    Error(String),
}

/// The model of a runtime value.
pub enum ObjectV {
    Int(i64),
    Str(Seq<char>),
    Bool(bool),
    Array(Seq<ObjectV>),
    Func(Seq<Seq<char>>, Seq<StmtV>, int),
    Builtin(Builtin),
    Null,
    ReturnValue(Box<ObjectV>),
    Error(Seq<char>),
}

/// The model of a runtime value.
pub open spec fn view_obj(o: Object) -> ObjectV
    decreases o,
{
    match o {
        Object::Int(n) => ObjectV::Int(n),
        Object::Str(s) => ObjectV::Str(s@),
        Object::Bool(b) => ObjectV::Bool(b),
        Object::Array(elems) => ObjectV::Array(view_objs(elems@)),
        Object::Func(params, body, env) => ObjectV::Func(
            view_params(params@),
            view_block(body@),
            env as int,
        ),
        Object::Builtin(b) => ObjectV::Builtin(b),
        Object::Null => ObjectV::Null,
        Object::ReturnValue(b) => ObjectV::ReturnValue(Box::new(view_obj(*b))),
        Object::Error(msg) => ObjectV::Error(msg@),
    }
}

/// The model of a sequence of runtime values.
pub open spec fn view_objs(os: Seq<Object>) -> Seq<ObjectV>
    decreases os,
{
    if os.len() == 0 {
        Seq::empty()
    } else {
        view_objs(os.drop_last()).push(view_obj(os.last()))
    }
}

impl View for Object {
    type V = ObjectV;

    open spec fn view(&self) -> ObjectV {
        view_obj(*self)
    }
}

/// Whether a value is one of the two control-flow sentinels, which every
/// enclosing evaluation step must propagate unchanged.
pub open spec fn is_sentinel(o: ObjectV) -> bool {
    o is ReturnValue || o is Error
}

/// The length of a viewed value sequence is the length of the sequence.
pub proof fn lemma_view_objs_len(os: Seq<Object>)
    ensures
        view_objs(os).len() == os.len(),
        forall|i: int| 0 <= i < os.len() ==> #[trigger] view_objs(os)[i] == view_obj(os[i]),
    decreases os,
{
    if os.len() > 0 {
        lemma_view_objs_len(os.drop_last());
    }
}

/// The character of a decimal digit value.
pub open spec fn digit_char(d: int) -> char {
    if d == 0 {
        '0'
    } else if d == 1 {
        '1'
    } else if d == 2 {
        '2'
    } else if d == 3 {
        '3'
    } else if d == 4 {
        '4'
    } else if d == 5 {
        '5'
    } else if d == 6 {
        '6'
    } else if d == 7 {
        '7'
    } else if d == 8 {
        '8'
    } else {
        '9'
    }
}

/// The decimal rendering of a non-negative integer.
pub open spec fn nat_dec(n: int) -> Seq<char>
    recommends
        n >= 0,
    decreases n,
{
    if n < 10 {
        seq![digit_char(n)]
    } else {
        nat_dec(n / 10).push(digit_char(n % 10))
    }
}

/// The decimal rendering of an integer: its literal text, with a leading
/// minus sign when negative.
pub open spec fn int_dec(i: int) -> Seq<char> {
    if i < 0 {
        seq!['-'] + nat_dec(-i)
    } else {
        nat_dec(i)
    }
}

/// The textual rendering of a value: integers and booleans render as their
/// literal text, strings render unquoted, arrays render their elements
/// comma-space separated inside brackets, functions render their parameter
/// names concatenated (no separator) inside `fn(...)`, and the two sentinels
/// render as their payload.
pub open spec fn render_obj(o: ObjectV) -> Seq<char>
    decreases o,
{
    match o {
        ObjectV::Int(n) => int_dec(n as int),
        ObjectV::Str(s) => s,
        ObjectV::Bool(b) => if b {
            "true"@
        } else {
            "false"@
        },
        ObjectV::Array(elems) => "["@ + render_elems(elems) + "]"@,
        ObjectV::Func(params, _, _) => "fn("@ + concat_params(params) + ") { ... }"@,
        ObjectV::Builtin(_) => "[builtin function]"@,
        ObjectV::Null => "null"@,
        ObjectV::ReturnValue(b) => render_obj(*b),
        ObjectV::Error(msg) => msg,
    }
}

/// The renderings of array elements, joined by a comma and a space.
pub open spec fn render_elems(es: Seq<ObjectV>) -> Seq<char>
    decreases es,
{
    if es.len() == 0 {
        Seq::empty()
    } else if es.len() == 1 {
        render_obj(es.first())
    } else {
        render_obj(es.first()) + ", "@ + render_elems(es.drop_first())
    }
}

/// Parameter names concatenated with no separator between them.
pub open spec fn concat_params(ps: Seq<Seq<char>>) -> Seq<char>
    decreases ps,
{
    if ps.len() == 0 {
        Seq::empty()
    } else {
        concat_params(ps.drop_last()) + ps.last()
    }
}

/// The text of one decimal digit.
fn digit_str(d: u64) -> (r: &'static str)
    requires
        d < 10,
    ensures
        r@ == seq![digit_char(d as int)],
{
    proof {
        reveal_strlit("0");
        reveal_strlit("1");
        reveal_strlit("2");
        reveal_strlit("3");
        reveal_strlit("4");
        reveal_strlit("5");
        reveal_strlit("6");
        reveal_strlit("7");
        reveal_strlit("8");
        reveal_strlit("9");
    }
    if d == 0 {
        "0"
    } else if d == 1 {
        "1"
    } else if d == 2 {
        "2"
    } else if d == 3 {
        "3"
    } else if d == 4 {
        "4"
    } else if d == 5 {
        "5"
    } else if d == 6 {
        "6"
    } else if d == 7 {
        "7"
    } else if d == 8 {
        "8"
    } else {
        "9"
    }
}

/// The decimal text of a non-negative 64-bit value.
fn nat_to_string(n: u64) -> (r: String)
    ensures
        r@ == nat_dec(n as int),
    decreases n,
{
    if n < 10 {
        digit_str(n).to_owned()
    } else {
        let mut s = nat_to_string(n / 10);
        s.append(digit_str(n % 10));
        proof {
            assert(s@ =~= nat_dec(n as int));
        }
        s
    }
}

/// The decimal text of a 64-bit signed value.
fn int_to_string(v: i64) -> (r: String)
    ensures
        r@ == int_dec(v as int),
{
    if v >= 0 {
        nat_to_string(v as u64)
    } else {
        let mag: u64 = if v == i64::MIN {
            9223372036854775808u64
        } else {
            (-v) as u64
        };
        let mut s = "-".to_owned();
        let m = nat_to_string(mag);
        s.append(m.as_str());
        proof {
            reveal_strlit("-");
            assert(s@ =~= int_dec(v as int));
        }
        s
    }
}

impl Object {
    /// The textual rendering of this value, following `render_obj`.
    #[verifier::loop_isolation(false)]
    pub fn render(&self) -> (r: String)
        ensures
            r@ == render_obj(self@),
        decreases *self,
    {
        match self {
            Object::Int(n) => int_to_string(*n),
            Object::Str(s) => (*s).as_str().to_owned(),
            Object::Bool(b) => {
                if *b {
                    "true".to_owned()
                } else {
                    "false".to_owned()
                }
            },
            Object::Array(elems) => {
                let mut s = "[".to_owned();
                let ghost evs = view_objs(elems@);
                proof {
                    lemma_view_objs_len(elems@);
                    reveal_strlit("[");
                    reveal_strlit("]");
                    reveal_strlit(", ");
                }
                let n = elems.len();
                let mut i: usize = 0;
                while i < n
                    invariant
                        n == elems.len(),
                        0 <= i <= n,
                        evs == view_objs(elems@),
                        evs.len() == n,
                        forall|j: int| 0 <= j < n ==> #[trigger] evs[j] == view_obj(elems@[j]),
                        "["@ + render_elems(evs) + "]"@ == s@ + (if i == 0 {
                            render_elems(evs)
                        } else if i < n {
                            ", "@ + render_elems(evs.skip(i as int))
                        } else {
                            Seq::<char>::empty()
                        }) + "]"@,
                    decreases n - i,
                {
                    if i > 0 {
                        s.append(", ");
                    }
                    proof {
                        broadcast use vstd::std_specs::vec::group_vec_axioms;

                        assert(decreases_to!(*self => elems@[i as int]));
                    }
                    let piece = elems[i].render();
                    s.append(piece.as_str());
                    proof {
                        let rest = evs.skip(i as int);
                        assert(rest.len() == n - i);
                        assert(rest.first() == evs[i as int]);
                        assert(rest.drop_first() =~= evs.skip(i as int + 1));
                        if i == 0 {
                            assert(rest =~= evs);
                        }
                        if i + 1 < n {
                            assert(render_elems(rest) == render_obj(rest.first()) + ", "@
                                + render_elems(rest.drop_first()));
                        } else {
                            assert(render_elems(rest) == render_obj(rest.first()));
                        }
                        assert("["@ + render_elems(evs) + "]"@ == s@ + (if i + 1 < n {
                            ", "@ + render_elems(evs.skip(i as int + 1))
                        } else {
                            Seq::<char>::empty()
                        }) + "]"@);
                    }
                    i = i + 1;
                }
                s.append("]");
                proof {
                    assert(s@ =~= "["@ + render_elems(evs) + "]"@);
                }
                s
            },
            Object::Func(params, _, _) => {
                let mut s = "fn(".to_owned();
                let ghost pvs = view_params(params@);
                proof {
                    reveal_strlit("fn(");
                    reveal_strlit(") { ... }");
                }
                let n = params.len();
                proof {
                    assert(pvs.take(0) =~= Seq::<Seq<char>>::empty());
                    assert(s@ =~= "fn("@ + concat_params(pvs.take(0)));
                }
                let mut i: usize = 0;
                while i < n
                    invariant
                        n == params.len(),
                        0 <= i <= n,
                        pvs == view_params(params@),
                        s@ == "fn("@ + concat_params(pvs.take(i as int)),
                    decreases n - i,
                {
                    let Ident(name) = &params[i];
                    s.append(name.as_str());
                    proof {
                        let taken = pvs.take(i as int + 1);
                        assert(taken.drop_last() =~= pvs.take(i as int));
                        assert(taken.last() == pvs[i as int]);
                        assert(s@ =~= "fn("@ + concat_params(pvs.take(i as int + 1)));
                    }
                    i = i + 1;
                }
                s.append(") { ... }");
                proof {
                    assert(pvs.take(n as int) =~= pvs);
                    assert(s@ =~= "fn("@ + concat_params(pvs) + ") { ... }"@);
                }
                s
            },
            Object::Builtin(_) => "[builtin function]".to_owned(),
            Object::Null => "null".to_owned(),
            Object::ReturnValue(b) => (**b).render(),
            Object::Error(msg) => (*msg).as_str().to_owned(),
        }
    }
}

impl Object {
    /// A copy of this value.
    #[verifier::loop_isolation(false)]
    pub fn duplicate(&self) -> (r: Object)
        ensures
            r@ == self@,
        decreases *self,
    {
        match self {
            Object::Int(n) => Object::Int(*n),
            Object::Str(s) => Object::Str(s.as_str().to_owned()),
            Object::Bool(b) => Object::Bool(*b),
            Object::Array(elems) => {
                let mut v: Vec<Object> = Vec::new();
                let n = elems.len();
                let mut i: usize = 0;
                while i < n
                    invariant
                        0 <= i <= n,
                        v@.len() == i,
                        forall|j: int| 0 <= j < i ==> view_obj(#[trigger] v@[j]) == view_obj(
                            elems@[j],
                        ),
                    decreases n - i,
                {
                    proof {
                        broadcast use vstd::std_specs::vec::group_vec_axioms;

                        assert(decreases_to!(*self => elems@[i as int]));
                    }
                    v.push(elems[i].duplicate());
                    i = i + 1;
                }
                proof {
                    lemma_view_objs_len(v@);
                    lemma_view_objs_len(elems@);
                    assert(view_objs(v@) =~= view_objs(elems@));
                }
                Object::Array(v)
            },
            Object::Func(ps, body, env) => Object::Func(
                duplicate_params(ps),
                duplicate_block(body),
                *env,
            ),
            Object::Builtin(b) => Object::Builtin(*b),
            Object::Null => Object::Null,
            Object::ReturnValue(b) => Object::ReturnValue(Box::new((**b).duplicate())),
            Object::Error(msg) => Object::Error(msg.as_str().to_owned()),
        }
    }
}

} // verus!
