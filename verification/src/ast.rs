//! The abstract syntax tree produced by the parser: an owned tree of
//! statement and expression nodes, together with its mathematical model
//! (`StmtV`, `ExprV`), in which identifier text is a sequence of characters.

use vstd::prelude::*;

verus! {

broadcast use vstd::std_specs::vec::group_vec_axioms;

/// An identifier: the name bound by a `let`, a parameter, or a variable
/// reference.
#[derive(Debug, PartialEq, Eq)]
pub struct Ident(pub String);

impl View for Ident {
    type V = Seq<char>;

    open spec fn view(&self) -> Seq<char> {
        self.0@
    }
}

/// A literal value appearing in the source.
#[derive(Debug, PartialEq, Eq)]
pub enum Literal {
    Int(i64),
    Bool(bool),
    Str(String),
}

/// The model of a literal.
pub enum LiteralV {
    Int(i64),
    Bool(bool),
    Str(Seq<char>),
}

impl View for Literal {
    type V = LiteralV;

    open spec fn view(&self) -> LiteralV {
        match self {
            Literal::Int(n) => LiteralV::Int(*n),
            Literal::Bool(b) => LiteralV::Bool(*b),
            Literal::Str(s) => LiteralV::Str(s@),
        }
    }
}

/// A prefix operator.
#[derive(Debug, PartialEq, Eq, Clone, Copy)]
pub enum Prefix {
    /// Boolean negation, written `!`.
    Not,
    /// Arithmetic negation, written `-`.
    Neg,
}

/// An infix operator.
#[derive(Debug, PartialEq, Eq, Clone, Copy)]
pub enum Infix {
    Plus,
    Minus,
    Multiply,
    Divide,
    Equal,
    NotEqual,
    LessThan,
    GreaterThan,
}

/// An expression node.
#[derive(Debug, PartialEq, Eq)]
pub enum Expr {
    Ident(Ident),
    Literal(Literal),
    Prefix(Prefix, Box<Expr>),
    Infix(Infix, Box<Expr>, Box<Expr>),
    If { cond: Box<Expr>, consequence: BlockStmt, alternative: Option<BlockStmt> },
    Func { params: Vec<Ident>, body: BlockStmt },
    Call { func: Box<Expr>, args: Vec<Expr> },
    Array(Vec<Expr>),
    Index(Box<Expr>, Box<Expr>),
}

/// A statement node.
#[derive(Debug, PartialEq, Eq)]
pub enum Stmt {
    Let(Ident, Expr),
    Return(Expr),
    Expr(Expr),
    Block(BlockStmt),
}

/// The ordered statements of a block (a function or `if` body).
pub type BlockStmt = Vec<Stmt>;

/// A whole parsed program: its statements in order.
pub type Program = Vec<Stmt>;

/// The model of an expression node.
pub enum ExprV {
    Ident(Seq<char>),
    Literal(LiteralV),
    Prefix(Prefix, Box<ExprV>),
    Infix(Infix, Box<ExprV>, Box<ExprV>),
    If(Box<ExprV>, Seq<StmtV>, Option<Seq<StmtV>>),
    Func(Seq<Seq<char>>, Seq<StmtV>),
    Call(Box<ExprV>, Seq<ExprV>),
    Array(Seq<ExprV>),
    Index(Box<ExprV>, Box<ExprV>),
}

/// The model of a statement node.
pub enum StmtV {
    Let(Seq<char>, ExprV),
    Return(ExprV),
    Expr(ExprV),
    Block(Seq<StmtV>),
}

/// The model of a parameter list.
pub open spec fn view_params(ps: Seq<Ident>) -> Seq<Seq<char>> {
    Seq::new(ps.len(), |i: int| ps[i]@)
}

/// The model of an expression.
pub open spec fn view_expr(e: Expr) -> ExprV
    decreases e,
{
    match e {
        Expr::Ident(id) => ExprV::Ident(id@),
        Expr::Literal(l) => ExprV::Literal(l@),
        Expr::Prefix(op, a) => ExprV::Prefix(op, Box::new(view_expr(*a))),
        Expr::Infix(op, a, b) => ExprV::Infix(op, Box::new(view_expr(*a)), Box::new(view_expr(*b))),
        Expr::If { cond, consequence, alternative } => ExprV::If(
            Box::new(view_expr(*cond)),
            view_block(consequence@),
            match alternative {
                Some(alt) => Some(view_block(alt@)),
                None => None,
            },
        ),
        Expr::Func { params, body } => ExprV::Func(view_params(params@), view_block(body@)),
        Expr::Call { func, args } => ExprV::Call(Box::new(view_expr(*func)), view_exprs(args@)),
        Expr::Array(es) => ExprV::Array(view_exprs(es@)),
        Expr::Index(a, i) => ExprV::Index(Box::new(view_expr(*a)), Box::new(view_expr(*i))),
    }
}

/// The model of a sequence of expressions.
pub open spec fn view_exprs(es: Seq<Expr>) -> Seq<ExprV>
    decreases es,
{
    if es.len() == 0 {
        Seq::empty()
    } else {
        view_exprs(es.drop_last()).push(view_expr(es.last()))
    }
}

/// The model of a statement.
pub open spec fn view_stmt(s: Stmt) -> StmtV
    decreases s,
{
    match s {
        Stmt::Let(id, e) => StmtV::Let(id@, view_expr(e)),
        Stmt::Return(e) => StmtV::Return(view_expr(e)),
        Stmt::Expr(e) => StmtV::Expr(view_expr(e)),
        Stmt::Block(b) => StmtV::Block(view_block(b@)),
    }
}

/// The model of a sequence of statements.
pub open spec fn view_block(b: Seq<Stmt>) -> Seq<StmtV>
    decreases b,
{
    if b.len() == 0 {
        Seq::empty()
    } else {
        view_block(b.drop_last()).push(view_stmt(b.last()))
    }
}

impl View for Expr {
    type V = ExprV;

    open spec fn view(&self) -> ExprV {
        view_expr(*self)
    }
}

impl View for Stmt {
    type V = StmtV;

    open spec fn view(&self) -> StmtV {
        view_stmt(*self)
    }
}

/// The length of a viewed statement sequence is the length of the sequence.
pub proof fn lemma_view_block_len(b: Seq<Stmt>)
    ensures
        view_block(b).len() == b.len(),
        forall|i: int| 0 <= i < b.len() ==> #[trigger] view_block(b)[i] == view_stmt(b[i]),
    decreases b,
{
    if b.len() > 0 {
        lemma_view_block_len(b.drop_last());
    }
}

/// The length of a viewed expression sequence is the length of the sequence.
pub proof fn lemma_view_exprs_len(es: Seq<Expr>)
    ensures
        view_exprs(es).len() == es.len(),
        forall|i: int| 0 <= i < es.len() ==> #[trigger] view_exprs(es)[i] == view_expr(es[i]),
    decreases es,
{
    if es.len() > 0 {
        lemma_view_exprs_len(es.drop_last());
    }
}

impl Ident {
    /// A copy of this identifier.
    pub fn duplicate(&self) -> (r: Ident)
        ensures
            r@ == self@,
    {
        Ident(self.0.as_str().to_owned())
    }
}

impl Literal {
    /// A copy of this literal.
    pub fn duplicate(&self) -> (r: Literal)
        ensures
            r@ == self@,
    {
        match self {
            Literal::Int(n) => Literal::Int(*n),
            Literal::Bool(b) => Literal::Bool(*b),
            Literal::Str(s) => Literal::Str(s.as_str().to_owned()),
        }
    }
}

impl Expr {
    /// A copy of this expression tree.
    #[verifier::loop_isolation(false)]
    pub fn duplicate(&self) -> (r: Expr)
        ensures
            r@ == self@,
        decreases *self,
    {
        match self {
            Expr::Ident(id) => Expr::Ident(id.duplicate()),
            Expr::Literal(l) => Expr::Literal(l.duplicate()),
            Expr::Prefix(op, a) => Expr::Prefix(*op, Box::new((**a).duplicate())),
            Expr::Infix(op, a, b) => Expr::Infix(
                *op,
                Box::new((**a).duplicate()),
                Box::new((**b).duplicate()),
            ),
            Expr::If { cond, consequence, alternative } => Expr::If {
                cond: Box::new((**cond).duplicate()),
                consequence: duplicate_block(consequence),
                alternative: match alternative {
                    Some(b) => Some(duplicate_block(b)),
                    None => None,
                },
            },
            Expr::Func { params, body } => Expr::Func {
                params: duplicate_params(params),
                body: duplicate_block(body),
            },
            Expr::Call { func, args } => Expr::Call {
                func: Box::new((**func).duplicate()),
                args: duplicate_exprs(args),
            },
            Expr::Array(es) => Expr::Array(duplicate_exprs(es)),
            Expr::Index(a, i) => Expr::Index(
                Box::new((**a).duplicate()),
                Box::new((**i).duplicate()),
            ),
        }
    }
}

impl Stmt {
    /// A copy of this statement tree.
    pub fn duplicate(&self) -> (r: Stmt)
        ensures
            r@ == self@,
        decreases *self,
    {
        match self {
            Stmt::Let(id, e) => Stmt::Let(id.duplicate(), e.duplicate()),
            Stmt::Return(e) => Stmt::Return(e.duplicate()),
            Stmt::Expr(e) => Stmt::Expr(e.duplicate()),
            Stmt::Block(b) => Stmt::Block(duplicate_block(b)),
        }
    }
}

/// A copy of a statement sequence.
#[verifier::loop_isolation(false)]
pub fn duplicate_block(b: &Vec<Stmt>) -> (r: Vec<Stmt>)
    ensures
        view_block(r@) == view_block(b@),
    decreases b@,
{
    let mut r: Vec<Stmt> = Vec::new();
    let n = b.len();
    let mut i: usize = 0;
    while i < n
        invariant
            0 <= i <= n,
            r@.len() == i,
            forall|j: int| 0 <= j < i ==> view_stmt(#[trigger] r@[j]) == view_stmt(b@[j]),
        decreases n - i,
    {
        proof {
            assert(decreases_to!(b@ => b@[i as int]));
        }
        r.push(b[i].duplicate());
        i = i + 1;
    }
    proof {
        lemma_view_block_len(r@);
        lemma_view_block_len(b@);
        assert(view_block(r@) =~= view_block(b@));
    }
    r
}

/// A copy of an expression sequence.
#[verifier::loop_isolation(false)]
pub fn duplicate_exprs(es: &Vec<Expr>) -> (r: Vec<Expr>)
    ensures
        view_exprs(r@) == view_exprs(es@),
    decreases es@,
{
    let mut r: Vec<Expr> = Vec::new();
    let n = es.len();
    let mut i: usize = 0;
    while i < n
        invariant
            0 <= i <= n,
            r@.len() == i,
            forall|j: int| 0 <= j < i ==> view_expr(#[trigger] r@[j]) == view_expr(es@[j]),
        decreases n - i,
    {
        proof {
            assert(decreases_to!(es@ => es@[i as int]));
        }
        r.push(es[i].duplicate());
        i = i + 1;
    }
    proof {
        lemma_view_exprs_len(r@);
        lemma_view_exprs_len(es@);
        assert(view_exprs(r@) =~= view_exprs(es@));
    }
    r
}

/// A copy of a parameter list.
#[verifier::loop_isolation(false)]
pub fn duplicate_params(ps: &Vec<Ident>) -> (r: Vec<Ident>)
    ensures
        view_params(r@) == view_params(ps@),
{
    let mut r: Vec<Ident> = Vec::new();
    let n = ps.len();
    let mut i: usize = 0;
    while i < n
        invariant
            0 <= i <= n,
            r@.len() == i,
            forall|j: int| 0 <= j < i ==> #[trigger] r@[j]@ == ps@[j]@,
        decreases n - i,
    {
        r.push(ps[i].duplicate());
        i = i + 1;
    }
    proof {
        assert(view_params(r@) =~= view_params(ps@));
    }
    r
}

} // verus!
