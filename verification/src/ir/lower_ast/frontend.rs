//! The typed frontend AST that lowering consumes.
use vstd::prelude::*;
use crate::ir::types::FloatBits;

verus! {

broadcast use vstd::std_specs::vec::axiom_vec_index_decreases;

/// A whole program: constant globals and functions, each in its own namespace.
#[derive(Clone, Debug)]
pub struct Program {
    pub globals: Vec<GlobalConst>,
    pub functions: Vec<Function>,
}

/// A named compile-time constant at module level.
#[derive(Clone, Debug)]
pub struct GlobalConst {
    pub name: String,
    pub ty: TypeRef,
    pub init: Expr,
}

#[derive(Clone, Debug)]
pub struct Function {
    pub name: String,
    pub parameters: Vec<Parameter>,
    pub return_type: TypeRef,
    pub body: Vec<Stmt>,
}

#[derive(Clone, Debug)]
pub struct Parameter {
    pub name: String,
    pub ty: TypeRef,
}

/// A source type.
#[derive(Debug)]
pub enum TypeRef {
    Void,
    Bool,
    Int { bits: u16, signed: bool },
    Float { bits: u16 },
    Array { elem: Box<TypeRef>, len: u64 },
}

#[derive(Debug)]
pub enum Stmt {
    Return(Option<Expr>),
    ConstDecl { name: String, ty: TypeRef, init: Expr },
    VarDecl { name: String, ty: TypeRef, init: Option<Expr> },
    Assign { name: String, value: Expr },
    ExprStmt(Expr),
    If { cond: Expr, then_body: Vec<Stmt>, else_body: Vec<Stmt> },
    While { cond: Expr, body: Vec<Stmt> },
    Break,
    Continue,
}

#[derive(Debug)]
pub enum Expr {
    Var(String),
    Lit(Lit),
    Binary { left: Box<Expr>, op: BinOpRef, right: Box<Expr> },
    Cmp { left: Box<Expr>, op: CmpOpRef, right: Box<Expr> },
}

/// A literal with its exact type. Integers are checked against their width;
/// floats keep their storage bits.
#[derive(Clone, Copy, Debug)]
pub enum Lit {
    Bool(bool),
    Int { bits: u16, signed: bool, value: i128 },
    Float { bits: u16, value: FloatBits },
}

#[derive(Clone, Copy, Debug, PartialEq, Eq, Structural)]
pub enum BinOpRef {
    Add,
    Sub,
    Mul,
}

#[derive(Clone, Copy, Debug, PartialEq, Eq, Structural)]
pub enum CmpOpRef {
    Eq,
    Ne,
    Lt,
    Le,
    Gt,
    Ge,
}

impl TypeRef {
    /// A copy of this type.
    pub fn duplicate(&self) -> (r: TypeRef)
        ensures
            r == *self,
        decreases self,
    {
        match self {
            TypeRef::Void => TypeRef::Void,
            TypeRef::Bool => TypeRef::Bool,
            TypeRef::Int { bits, signed } => TypeRef::Int { bits: *bits, signed: *signed },
            TypeRef::Float { bits } => TypeRef::Float { bits: *bits },
            TypeRef::Array { elem, len } => TypeRef::Array { elem: Box::new(elem.duplicate()), len: *len },
        }
    }
}

impl Clone for TypeRef {
    fn clone(&self) -> (r: Self)
        ensures
            r == *self,
    {
        self.duplicate()
    }
}

impl Expr {
    /// A copy of this expression.
    pub fn duplicate(&self) -> (r: Expr)
        ensures
            r == *self,
        decreases self,
    {
        match self {
            Expr::Var(name) => Expr::Var(name.clone()),
            Expr::Lit(l) => Expr::Lit(*l),
            Expr::Binary { left, op, right } => Expr::Binary {
                left: Box::new(left.duplicate()),
                op: *op,
                right: Box::new(right.duplicate()),
            },
            Expr::Cmp { left, op, right } => Expr::Cmp {
                left: Box::new(left.duplicate()),
                op: *op,
                right: Box::new(right.duplicate()),
            },
        }
    }
}

impl Clone for Expr {
    fn clone(&self) -> (r: Self)
        ensures
            r == *self,
    {
        self.duplicate()
    }
}

/// `a` is a copy of `b`: the same statement, with nested bodies copied
/// statement by statement.
pub open spec fn stmt_copy(a: Stmt, b: Stmt) -> bool
    decreases b, 0nat,
{
    match (a, b) {
        (Stmt::If { cond: c1, then_body: t1, else_body: e1 }, Stmt::If { cond: c2, then_body: t2, else_body: e2 }) => {
            c1 == c2 && t1@.len() == t2@.len() && e1@.len() == e2@.len() && stmts_copy(t1@, t2, t2@.len() as nat)
                && stmts_copy(e1@, e2, e2@.len() as nat)
        },
        (Stmt::While { cond: c1, body: b1 }, Stmt::While { cond: c2, body: b2 }) => {
            c1 == c2 && b1@.len() == b2@.len() && stmts_copy(b1@, b2, b2@.len() as nat)
        },
        (Stmt::If { .. }, _) | (Stmt::While { .. }, _) | (_, Stmt::If { .. }) | (_, Stmt::While { .. }) => false,
        _ => a == b,
    }
}

/// The first `n` statements of `a` are copies of those of `b`.
pub open spec fn stmts_copy(a: Seq<Stmt>, b: Vec<Stmt>, n: nat) -> bool
    decreases b, n,
{
    if n == 0 || n > b@.len() || n > a.len() {
        n == 0
    } else {
        stmts_copy(a, b, (n - 1) as nat) && stmt_copy(a[n - 1], b@[n - 1])
    }
}

proof fn lemma_stmts_copy_push(a: Seq<Stmt>, x: Stmt, b: Vec<Stmt>, n: nat)
    requires
        n <= a.len(),
        stmts_copy(a, b, n),
    ensures
        stmts_copy(a.push(x), b, n),
    decreases n,
{
    if n > 0 {
        lemma_stmts_copy_push(a, x, b, (n - 1) as nat);
        assert(a.push(x)[n - 1] == a[n - 1]);
    }
}

impl Stmt {
    /// A copy of this statement.
    pub fn duplicate(&self) -> (r: Stmt)
        ensures
            stmt_copy(r, *self),
        decreases self, 1nat,
    {
        match self {
            Stmt::Return(e) => Stmt::Return(
                match e {
                    Some(e) => Some(e.duplicate()),
                    None => None,
                },
            ),
            Stmt::ConstDecl { name, ty, init } => Stmt::ConstDecl {
                name: name.clone(),
                ty: ty.duplicate(),
                init: init.duplicate(),
            },
            Stmt::VarDecl { name, ty, init } => Stmt::VarDecl {
                name: name.clone(),
                ty: ty.duplicate(),
                init: match init {
                    Some(e) => Some(e.duplicate()),
                    None => None,
                },
            },
            Stmt::Assign { name, value } => Stmt::Assign { name: name.clone(), value: value.duplicate() },
            Stmt::ExprStmt(e) => Stmt::ExprStmt(e.duplicate()),
            Stmt::If { cond, then_body, else_body } => Stmt::If {
                cond: cond.duplicate(),
                then_body: duplicate_stmts(self, then_body),
                else_body: duplicate_stmts(self, else_body),
            },
            Stmt::While { cond, body } => Stmt::While {
                cond: cond.duplicate(),
                body: duplicate_stmts(self, body),
            },
            Stmt::Break => Stmt::Break,
            Stmt::Continue => Stmt::Continue,
        }
    }
}

/// Copies of the statements of `body`, a part of `parent`.
fn duplicate_stmts(parent: &Stmt, body: &Vec<Stmt>) -> (r: Vec<Stmt>)
    requires
        match *parent {
            Stmt::If { then_body, else_body, .. } => *body == then_body || *body == else_body,
            Stmt::While { body: b, .. } => *body == b,
            _ => false,
        },
    ensures
        r@.len() == body@.len(),
        stmts_copy(r@, *body, body@.len() as nat),
    decreases parent, 0nat,
{
    let mut out: Vec<Stmt> = Vec::new();
    let mut i: usize = 0;
    while i < body.len()
        invariant
            0 <= i <= body.len(),
            out@.len() == i,
            stmts_copy(out@, *body, i as nat),
            match *parent {
                Stmt::If { then_body, else_body, .. } => *body == then_body || *body == else_body,
                Stmt::While { body: b, .. } => *body == b,
                _ => false,
            },
        decreases body.len() - i,
    {
        proof {
            match parent {
                Stmt::If { then_body, else_body, .. } => {
                    if *body == *then_body {
                        assert(decreases_to!(*parent => *then_body));
                    } else {
                        assert(decreases_to!(*parent => *else_body));
                    }
                },
                Stmt::While { body: b, .. } => {
                    assert(decreases_to!(*parent => *b));
                },
                _ => {},
            }
            assert(decreases_to!(*body => body[i as int]));
        }
        let copy = body[i].duplicate();
        let ghost before = out@;
        out.push(copy);
        proof {
            lemma_stmts_copy_push(before, copy, *body, i as nat);
            assert(out@ == before.push(copy));
            assert(out@[i as int] == copy);
        }
        i += 1;
    }
    out
}

impl Clone for Stmt {
    fn clone(&self) -> (r: Self)
        ensures
            stmt_copy(r, *self),
    {
        self.duplicate()
    }
}

} // verus!
