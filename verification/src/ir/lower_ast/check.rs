//! The static rules of the source language: which programs lower, and the
//! error that the first broken rule reports. Lowering checks in source order,
//! so the first statement, operand or declaration that breaks a rule decides.
use vstd::prelude::*;
use crate::ir::const_expr::{ConstBinaryOp, ConstBinding, ConstCompareOp, ExprKindModel, ExprModel, eval_spec};
use crate::ir::constant::valid_constant_spec;
use crate::ir::layout::{LayoutError, allocation_align_spec};
use crate::ir::lower_ast::error::LowerError;
use crate::ir::lower_ast::frontend::{BinOpRef, CmpOpRef, Expr, Function, GlobalConst, Lit, Parameter, Stmt, TypeRef};
use crate::ir::lower_ast::support::{float_type_spec, int_type_spec, map_binop_spec, map_compare_spec};
use crate::ir::types::{ConstValue, Type, TypeModel};
use crate::text::dec_text;

verus! {

broadcast use vstd::std_specs::vec::axiom_vec_index_decreases;

/// A lowering error by kind, with the names and types that it reports.
pub enum Fault {
    UnsupportedType(Seq<char>),
    Layout(LayoutError),
    UnknownVariable(Seq<char>),
    TypeMismatch { expected: TypeModel, got: TypeModel },
    UnsupportedStmt,
    UnsupportedExpr,
    BreakOutsideLoop,
    ContinueOutsideLoop,
    ValueReturnedFromVoid,
    InvalidLiteral { ty: TypeModel, value: ConstValue },
    AssignToConst(Seq<char>),
    NonConstExpr,
    DuplicateGlobal(Seq<char>),
    /// A target, function-name, parameter-name or input-format error.
    Other,
}

impl View for LowerError {
    type V = Fault;

    open spec fn view(&self) -> Fault {
        match self {
            LowerError::UnsupportedType(m) => Fault::UnsupportedType(m@),
            LowerError::Layout(e) => Fault::Layout(*e),
            LowerError::UnknownVariable(n) => Fault::UnknownVariable(n@),
            LowerError::TypeMismatch { expected, got } => Fault::TypeMismatch {
                expected: expected@,
                got: got@,
            },
            LowerError::UnsupportedStmt => Fault::UnsupportedStmt,
            LowerError::UnsupportedExpr => Fault::UnsupportedExpr,
            LowerError::BreakOutsideLoop => Fault::BreakOutsideLoop,
            LowerError::ContinueOutsideLoop => Fault::ContinueOutsideLoop,
            LowerError::ValueReturnedFromVoid => Fault::ValueReturnedFromVoid,
            LowerError::InvalidLiteral { ty, value } => Fault::InvalidLiteral { ty: ty@, value: *value },
            LowerError::AssignToConst(n) => Fault::AssignToConst(n@),
            LowerError::NonConstExpr => Fault::NonConstExpr,
            LowerError::DuplicateGlobal(n) => Fault::DuplicateGlobal(n@),
            _ => Fault::Other,
        }
    }
}

/// A typing result agrees with its check: the same type, or the same error.
pub open spec fn type_agrees(r: Result<Type, LowerError>, c: Result<TypeModel, Fault>) -> bool {
    match c {
        Ok(t) => r matches Ok(x) && x@ == t,
        Err(f) => r matches Err(e) && e@ == f,
    }
}

/// What a name in a function scope stands for: a stack slot holding a value of
/// a type, or a named constant with its type and value.
pub enum Name {
    Slot(TypeModel),
    Constant(TypeModel, ConstValue),
}

/// The binding of `n` in a scope; a later binding hides an earlier one.
pub open spec fn lookup_name(s: Seq<(Seq<char>, Name)>, n: Seq<char>) -> Option<Name>
    decreases s.len(),
{
    if s.len() == 0 {
        None
    } else if s.last().0 == n {
        Some(s.last().1)
    } else {
        lookup_name(s.drop_last(), n)
    }
}

/// The type and value of the module constant named `n`.
pub open spec fn lookup_global(g: Seq<(Seq<char>, TypeModel, ConstValue)>, n: Seq<char>) -> Option<
    (TypeModel, ConstValue),
>
    decreases g.len(),
{
    if g.len() == 0 {
        None
    } else if g[0].0 == n {
        Some((g[0].1, g[0].2))
    } else {
        lookup_global(g.drop_first(), n)
    }
}

pub open spec fn int_type_check(bits: u16, signed: bool) -> Result<TypeModel, Fault> {
    match int_type_spec(bits, signed) {
        Some(t) => Ok(t),
        None => Err(Fault::UnsupportedType("integer width "@ + dec_text(bits as nat))),
    }
}

pub open spec fn float_type_check(bits: u16) -> Result<TypeModel, Fault> {
    match float_type_spec(bits) {
        Some(t) => Ok(t),
        None => Err(Fault::UnsupportedType("float width "@ + dec_text(bits as nat))),
    }
}

/// The IR type of a source type, or the unsupported width it names.
pub open spec fn type_check(t: TypeRef) -> Result<TypeModel, Fault>
    decreases t,
{
    match t {
        TypeRef::Void => Ok(TypeModel::Void),
        TypeRef::Bool => Ok(TypeModel::Bool),
        TypeRef::Int { bits, signed } => int_type_check(bits, signed),
        TypeRef::Float { bits } => float_type_check(bits),
        TypeRef::Array { elem, len } => match type_check(*elem) {
            Err(f) => Err(f),
            Ok(e) => Ok(TypeModel::Array(Box::new(e), len)),
        },
    }
}

/// The type and value of a literal. An integer must fit its declared width and
/// signedness; a float keeps its storage bits.
pub open spec fn lit_check(l: Lit) -> Result<(TypeModel, ConstValue), Fault> {
    match l {
        Lit::Bool(b) => Ok((TypeModel::Bool, ConstValue::Bool(b))),
        Lit::Int { bits, signed, value } => match int_type_check(bits, signed) {
            Err(f) => Err(f),
            Ok(t) => if signed {
                if valid_constant_spec(t, ConstValue::I(value)) {
                    Ok((t, ConstValue::I(value)))
                } else {
                    Err(Fault::InvalidLiteral { ty: t, value: ConstValue::I(value) })
                }
            } else if value < 0 {
                Err(Fault::InvalidLiteral { ty: t, value: ConstValue::I(value) })
            } else if valid_constant_spec(t, ConstValue::U(value as u128)) {
                Ok((t, ConstValue::U(value as u128)))
            } else {
                Err(Fault::InvalidLiteral { ty: t, value: ConstValue::U(value as u128) })
            },
        },
        Lit::Float { bits, value } => match float_type_check(bits) {
            Err(f) => Err(f),
            Ok(t) => Ok((t, ConstValue::F(value))),
        },
    }
}

/// The type of a runtime expression in scope `s`, with the module constants `g`.
/// Operands are checked left to right; both must have one type, which the
/// operator must support.
pub open spec fn expr_check(
    s: Seq<(Seq<char>, Name)>,
    g: Seq<(Seq<char>, TypeModel, ConstValue)>,
    e: Expr,
) -> Result<TypeModel, Fault>
    decreases e,
{
    match e {
        Expr::Var(n) => match lookup_name(s, n@) {
            Some(Name::Slot(t)) => match allocation_align_spec(t) {
                Err(le) => Err(Fault::Layout(le)),
                Ok(_) => Ok(t),
            },
            Some(Name::Constant(t, _)) => Ok(t),
            None => match lookup_global(g, n@) {
                Some((t, _)) => Ok(t),
                None => Err(Fault::UnknownVariable(n@)),
            },
        },
        Expr::Lit(l) => match lit_check(l) {
            Err(f) => Err(f),
            Ok((t, _)) => Ok(t),
        },
        Expr::Binary { left, op, right } => match expr_check(s, g, *left) {
            Err(f) => Err(f),
            Ok(lt) => match expr_check(s, g, *right) {
                Err(f) => Err(f),
                Ok(rt) => if lt != rt {
                    Err(Fault::TypeMismatch { expected: lt, got: rt })
                } else if map_binop_spec(op, lt) is None {
                    Err(Fault::UnsupportedExpr)
                } else {
                    Ok(lt)
                },
            },
        },
        Expr::Cmp { left, op, right } => match expr_check(s, g, *left) {
            Err(f) => Err(f),
            Ok(lt) => match expr_check(s, g, *right) {
                Err(f) => Err(f),
                Ok(rt) => if lt != rt {
                    Err(Fault::TypeMismatch { expected: lt, got: rt })
                } else if map_compare_spec(op, lt) is None {
                    Err(Fault::UnsupportedExpr)
                } else {
                    Ok(TypeModel::Bool)
                },
            },
        },
    }
}

pub open spec fn const_binary_op(op: BinOpRef) -> ConstBinaryOp {
    match op {
        BinOpRef::Add => ConstBinaryOp::Add,
        BinOpRef::Sub => ConstBinaryOp::Sub,
        BinOpRef::Mul => ConstBinaryOp::Mul,
    }
}

pub open spec fn const_compare_op(op: CmpOpRef) -> ConstCompareOp {
    match op {
        CmpOpRef::Eq => ConstCompareOp::Eq,
        CmpOpRef::Ne => ConstCompareOp::Ne,
        CmpOpRef::Lt => ConstCompareOp::Lt,
        CmpOpRef::Le => ConstCompareOp::Le,
        CmpOpRef::Gt => ConstCompareOp::Gt,
        CmpOpRef::Ge => ConstCompareOp::Ge,
    }
}

pub open spec fn literal_node(t: TypeModel, v: ConstValue) -> ExprModel {
    ExprModel { ty: t, kind: ExprKindModel::Literal(v) }
}

/// The compile-time tree of `e`, with every name replaced by the typed value
/// that it stands for: a named constant of `locals`, if given, else a module
/// constant. A stack slot is no compile-time value.
pub open spec fn const_tree(
    locals: Option<Seq<(Seq<char>, Name)>>,
    g: Seq<(Seq<char>, TypeModel, ConstValue)>,
    e: Expr,
) -> Result<ExprModel, Fault>
    decreases e,
{
    match e {
        Expr::Lit(l) => match lit_check(l) {
            Err(f) => Err(f),
            Ok((t, v)) => Ok(literal_node(t, v)),
        },
        Expr::Var(n) => match (match locals {
            Some(s) => lookup_name(s, n@),
            None => None,
        }) {
            Some(Name::Constant(t, v)) => Ok(literal_node(t, v)),
            Some(Name::Slot(_)) => Err(Fault::NonConstExpr),
            None => match lookup_global(g, n@) {
                Some((t, v)) => Ok(literal_node(t, v)),
                None => Err(Fault::UnknownVariable(n@)),
            },
        },
        Expr::Binary { left, op, right } => match const_tree(locals, g, *left) {
            Err(f) => Err(f),
            Ok(l) => match const_tree(locals, g, *right) {
                Err(f) => Err(f),
                Ok(r) => if l.ty != r.ty {
                    Err(Fault::TypeMismatch { expected: l.ty, got: r.ty })
                } else {
                    Ok(
                        ExprModel {
                            ty: l.ty,
                            kind: ExprKindModel::Binary {
                                op: const_binary_op(op),
                                left: Box::new(l),
                                right: Box::new(r),
                            },
                        },
                    )
                },
            },
        },
        Expr::Cmp { left, op, right } => match const_tree(locals, g, *left) {
            Err(f) => Err(f),
            Ok(l) => match const_tree(locals, g, *right) {
                Err(f) => Err(f),
                Ok(r) => if l.ty != r.ty {
                    Err(Fault::TypeMismatch { expected: l.ty, got: r.ty })
                } else {
                    Ok(
                        ExprModel {
                            ty: TypeModel::Bool,
                            kind: ExprKindModel::Compare {
                                op: const_compare_op(op),
                                left: Box::new(l),
                                right: Box::new(r),
                            },
                        },
                    )
                },
            },
        },
    }
}

/// The type and value of a compile-time expression. A tree that does not
/// evaluate (floating-point arithmetic, an out-of-range result) is unsupported.
pub open spec fn const_check(
    locals: Option<Seq<(Seq<char>, Name)>>,
    g: Seq<(Seq<char>, TypeModel, ConstValue)>,
    e: Expr,
) -> Result<(TypeModel, ConstValue), Fault> {
    match const_tree(locals, g, e) {
        Err(f) => Err(f),
        Ok(t) => match eval_spec(t, Seq::<ConstBinding>::empty()) {
            Err(_) => Err(Fault::UnsupportedExpr),
            Ok(v) => Ok((t.ty, v)),
        },
    }
}

/// The scope after statement `st`, inside `depth` loops of a function
/// returning `ret`; or the error it reports.
pub open spec fn stmt_check(
    s: Seq<(Seq<char>, Name)>,
    g: Seq<(Seq<char>, TypeModel, ConstValue)>,
    depth: nat,
    st: Stmt,
    ret: TypeModel,
) -> Result<Seq<(Seq<char>, Name)>, Fault>
    decreases st, 0nat,
{
    match st {
        Stmt::Return(opt) => if ret is Void {
            if opt is Some {
                Err(Fault::ValueReturnedFromVoid)
            } else {
                Ok(s)
            }
        } else {
            match opt {
                None => Err(Fault::UnsupportedStmt),
                Some(e) => match expr_check(s, g, e) {
                    Err(f) => Err(f),
                    Ok(t) => if t != ret {
                        Err(Fault::TypeMismatch { expected: ret, got: t })
                    } else {
                        Ok(s)
                    },
                },
            }
        },
        Stmt::ConstDecl { name, ty, init } => match type_check(ty) {
            Err(f) => Err(f),
            Ok(dt) => match const_check(Some(s), g, init) {
                Err(f) => Err(f),
                Ok((t, v)) => if t != dt {
                    Err(Fault::TypeMismatch { expected: dt, got: t })
                } else {
                    Ok(s.push((name@, Name::Constant(t, v))))
                },
            },
        },
        Stmt::VarDecl { name, ty, init } => match type_check(ty) {
            Err(f) => Err(f),
            Ok(dt) => match allocation_align_spec(dt) {
                Err(le) => Err(Fault::Layout(le)),
                Ok(_) => match init {
                    None => Ok(s.push((name@, Name::Slot(dt)))),
                    Some(e) => match expr_check(s, g, e) {
                        Err(f) => Err(f),
                        Ok(t) => if t != dt {
                            Err(Fault::TypeMismatch { expected: dt, got: t })
                        } else {
                            Ok(s.push((name@, Name::Slot(dt))))
                        },
                    },
                },
            },
        },
        Stmt::Assign { name, value } => match expr_check(s, g, value) {
            Err(f) => Err(f),
            Ok(t) => match lookup_name(s, name@) {
                None => Err(Fault::UnknownVariable(name@)),
                Some(Name::Constant(_, _)) => Err(Fault::AssignToConst(name@)),
                Some(Name::Slot(st)) => if t != st {
                    Err(Fault::TypeMismatch { expected: st, got: t })
                } else {
                    match allocation_align_spec(st) {
                        Err(le) => Err(Fault::Layout(le)),
                        Ok(_) => Ok(s),
                    }
                },
            },
        },
        Stmt::ExprStmt(e) => match expr_check(s, g, e) {
            Err(f) => Err(f),
            Ok(_) => Ok(s),
        },
        Stmt::If { cond, then_body, else_body } => match expr_check(s, g, cond) {
            Err(f) => Err(f),
            Ok(t) => if !(t is Bool) {
                Err(Fault::TypeMismatch { expected: TypeModel::Bool, got: t })
            } else {
                match block_check(s, g, depth, then_body, then_body.len() as nat, ret) {
                    Err(f) => Err(f),
                    Ok(_) => match block_check(s, g, depth, else_body, else_body.len() as nat, ret) {
                        Err(f) => Err(f),
                        Ok(_) => Ok(s),
                    },
                }
            },
        },
        Stmt::While { cond, body } => match expr_check(s, g, cond) {
            Err(f) => Err(f),
            Ok(t) => if !(t is Bool) {
                Err(Fault::TypeMismatch { expected: TypeModel::Bool, got: t })
            } else {
                match block_check(s, g, depth + 1, body, body.len() as nat, ret) {
                    Err(f) => Err(f),
                    Ok(_) => Ok(s),
                }
            },
        },
        Stmt::Break => if depth == 0 {
            Err(Fault::BreakOutsideLoop)
        } else {
            Ok(s)
        },
        Stmt::Continue => if depth == 0 {
            Err(Fault::ContinueOutsideLoop)
        } else {
            Ok(s)
        },
    }
}

/// The scope after the first `n` statements of `body`, in order.
pub open spec fn block_check(
    s: Seq<(Seq<char>, Name)>,
    g: Seq<(Seq<char>, TypeModel, ConstValue)>,
    depth: nat,
    body: Vec<Stmt>,
    n: nat,
    ret: TypeModel,
) -> Result<Seq<(Seq<char>, Name)>, Fault>
    decreases body, n,
{
    if n == 0 || n > body.len() {
        Ok(s)
    } else {
        match block_check(s, g, depth, body, (n - 1) as nat, ret) {
            Err(f) => Err(f),
            Ok(s1) => stmt_check(s1, g, depth, body@[n - 1], ret),
        }
    }
}

/// The types of the first `k` parameters.
pub open spec fn params_check(ps: Seq<Parameter>, k: nat) -> Result<Seq<TypeModel>, Fault>
    decreases k,
{
    if k == 0 || k > ps.len() {
        Ok(seq![])
    } else {
        match params_check(ps, (k - 1) as nat) {
            Err(f) => Err(f),
            Ok(ts) => match type_check(ps[k - 1].ty) {
                Err(f) => Err(f),
                Ok(t) => Ok(ts.push(t)),
            },
        }
    }
}

/// The scope holding the first `k` parameters, each in a stack slot.
pub open spec fn param_slots(ps: Seq<Parameter>, ts: Seq<TypeModel>, k: nat) -> Result<
    Seq<(Seq<char>, Name)>,
    Fault,
>
    decreases k,
{
    if k == 0 || k > ps.len() || k > ts.len() {
        Ok(seq![])
    } else {
        match param_slots(ps, ts, (k - 1) as nat) {
            Err(f) => Err(f),
            Ok(s) => match allocation_align_spec(ts[k - 1]) {
                Err(le) => Err(Fault::Layout(le)),
                Ok(_) => Ok(s.push((ps[k - 1].name@, Name::Slot(ts[k - 1])))),
            },
        }
    }
}

/// A function lowers: its result and parameter types exist, its parameters
/// have storage, and its body checks in the scope of its parameters.
pub open spec fn function_check(g: Seq<(Seq<char>, TypeModel, ConstValue)>, f: Function) -> Result<
    (),
    Fault,
> {
    match type_check(f.return_type) {
        Err(e) => Err(e),
        Ok(ret) => match params_check(f.parameters@, f.parameters@.len()) {
            Err(e) => Err(e),
            Ok(ts) => match param_slots(f.parameters@, ts, f.parameters@.len()) {
                Err(e) => Err(e),
                Ok(s) => match block_check(s, g, 0, f.body, f.body.len() as nat, ret) {
                    Err(e) => Err(e),
                    Ok(_) => Ok(()),
                },
            },
        },
    }
}

/// The first `k` module constants, each with its type and value, in order;
/// each initializer sees only the constants before it.
pub open spec fn globals_check(gs: Seq<GlobalConst>, k: nat) -> Result<
    Seq<(Seq<char>, TypeModel, ConstValue)>,
    Fault,
>
    decreases k,
{
    if k == 0 || k > gs.len() {
        Ok(seq![])
    } else {
        match globals_check(gs, (k - 1) as nat) {
            Err(f) => Err(f),
            Ok(acc) => {
                let gl = gs[k - 1];
                if lookup_global(acc, gl.name@) is Some {
                    Err(Fault::DuplicateGlobal(gl.name@))
                } else {
                    match type_check(gl.ty) {
                        Err(f) => Err(f),
                        Ok(dt) => match const_check(None, acc, gl.init) {
                            Err(f) => Err(f),
                            Ok((t, v)) => if t != dt {
                                Err(Fault::TypeMismatch { expected: dt, got: t })
                            } else {
                                match allocation_align_spec(t) {
                                    Err(le) => Err(Fault::Layout(le)),
                                    Ok(_) => Ok(acc.push((gl.name@, t, v))),
                                }
                            },
                        },
                    }
                }
            },
        }
    }
}

/// The first `k` functions lower, in order.
pub open spec fn functions_check(g: Seq<(Seq<char>, TypeModel, ConstValue)>, fs: Seq<Function>, k: nat) -> Result<
    (),
    Fault,
>
    decreases k,
{
    if k == 0 || k > fs.len() {
        Ok(())
    } else {
        match functions_check(g, fs, (k - 1) as nat) {
            Err(f) => Err(f),
            Ok(_) => function_check(g, fs[k - 1]),
        }
    }
}

/// Literal law: an integer or boolean literal is accepted in a module
/// constant exactly when it is accepted in a function body, with the same
/// type, and is refused with the same error otherwise.
pub proof fn lemma_literal_ranges_agree(
    l: Lit,
    s: Seq<(Seq<char>, Name)>,
    g: Seq<(Seq<char>, TypeModel, ConstValue)>,
)
    requires
        !(l is Float),
    ensures
        match (expr_check(s, g, Expr::Lit(l)), const_check(None, g, Expr::Lit(l))) {
            (Ok(t1), Ok((t2, v))) => t1 == t2 && lit_check(l) == Ok::<(TypeModel, ConstValue), Fault>((t2, v)),
            (Err(f1), Err(f2)) => f1 == f2,
            _ => false,
        },
{
    if let Ok((t, v)) = lit_check(l) {
        assert(valid_constant_spec(t, v)) by {
            if l is Bool {
                assert(t == TypeModel::Bool);
            }
        }
        assert(eval_spec(literal_node(t, v), Seq::<ConstBinding>::empty()) == Ok::<ConstValue, crate::ir::const_expr::ConstEvalError>(v));
    }
}

/// At most how many values lowering an expression creates.
pub open spec fn expr_cost(e: Expr) -> nat
    decreases e,
{
    match e {
        Expr::Var(_) | Expr::Lit(_) => 1,
        Expr::Binary { left, right, .. } | Expr::Cmp { left, right, .. } => expr_cost(*left) + expr_cost(
            *right,
        ) + 1,
    }
}

/// At most how many values lowering a statement creates.
pub open spec fn stmt_cost(st: Stmt) -> nat
    decreases st, 0nat,
{
    match st {
        Stmt::Return(opt) => match opt {
            Some(e) => expr_cost(e),
            None => 0,
        },
        Stmt::ConstDecl { .. } => 1,
        Stmt::VarDecl { init, .. } => match init {
            Some(e) => expr_cost(e) + 1,
            None => 2,
        },
        Stmt::Assign { value, .. } => expr_cost(value),
        Stmt::ExprStmt(e) => expr_cost(e),
        Stmt::If { cond, then_body, else_body } => expr_cost(cond) + block_cost(
            then_body,
            then_body.len() as nat,
        ) + block_cost(else_body, else_body.len() as nat),
        Stmt::While { cond, body } => expr_cost(cond) + block_cost(body, body.len() as nat),
        Stmt::Break | Stmt::Continue => 0,
    }
}

/// At most how many values lowering the first `n` statements creates.
pub open spec fn block_cost(body: Vec<Stmt>, n: nat) -> nat
    decreases body, n,
{
    if n == 0 || n > body.len() {
        0
    } else {
        block_cost(body, (n - 1) as nat) + stmt_cost(body@[n - 1])
    }
}

/// Value identities are 32-bit: a function's parameters, their stack slots
/// and the values of its body must all have distinct identities.
pub open spec fn function_fits(f: Function) -> bool {
    2 * f.parameters@.len() + block_cost(f.body, f.body.len() as nat) <= u32::MAX
}

/// A program lowers: its module constants check in order, then its
/// functions; the result is the constants with their types and values.
pub open spec fn program_check(gs: Seq<GlobalConst>, fs: Seq<Function>) -> Result<
    Seq<(Seq<char>, TypeModel, ConstValue)>,
    Fault,
> {
    match globals_check(gs, gs.len()) {
        Err(f) => Err(f),
        Ok(g) => match functions_check(g, fs, fs.len()) {
            Err(f) => Err(f),
            Ok(_) => Ok(g),
        },
    }
}

pub proof fn lemma_params_error_persists(ps: Seq<Parameter>, k: nat, n: nat)
    requires
        k <= n <= ps.len(),
        params_check(ps, k) is Err,
    ensures
        params_check(ps, n) == params_check(ps, k),
    decreases n,
{
    if k < n {
        lemma_params_error_persists(ps, k, (n - 1) as nat);
    }
}

/// Parameter types that check one by one: each is the type of its parameter.
pub proof fn lemma_params_ok(ps: Seq<Parameter>, n: nat, i: int)
    requires
        n <= ps.len(),
        0 <= i < n,
        params_check(ps, n) is Ok,
    ensures
        params_check(ps, n)->Ok_0.len() == n,
        type_check(ps[i].ty) == Ok::<TypeModel, Fault>(params_check(ps, n)->Ok_0[i]),
    decreases n,
{
    lemma_params_len(ps, n);
    if i < n - 1 {
        lemma_params_ok(ps, (n - 1) as nat, i);
    }
}

pub proof fn lemma_params_len(ps: Seq<Parameter>, n: nat)
    requires
        n <= ps.len(),
        params_check(ps, n) is Ok,
    ensures
        params_check(ps, n)->Ok_0.len() == n,
    decreases n,
{
    if n > 0 {
        lemma_params_len(ps, (n - 1) as nat);
    }
}

pub proof fn lemma_slots_error_persists(ps: Seq<Parameter>, ts: Seq<TypeModel>, k: nat, n: nat)
    requires
        k <= n <= ps.len(),
        n <= ts.len(),
        param_slots(ps, ts, k) is Err,
    ensures
        param_slots(ps, ts, n) == param_slots(ps, ts, k),
    decreases n,
{
    if k < n {
        lemma_slots_error_persists(ps, ts, k, (n - 1) as nat);
    }
}

pub proof fn lemma_globals_error_persists(gs: Seq<GlobalConst>, k: nat, n: nat)
    requires
        k <= n <= gs.len(),
        globals_check(gs, k) is Err,
    ensures
        globals_check(gs, n) == globals_check(gs, k),
    decreases n,
{
    if k < n {
        lemma_globals_error_persists(gs, k, (n - 1) as nat);
    }
}

pub proof fn lemma_functions_error_persists(
    g: Seq<(Seq<char>, TypeModel, ConstValue)>,
    fs: Seq<Function>,
    k: nat,
    n: nat,
)
    requires
        k <= n <= fs.len(),
        functions_check(g, fs, k) is Err,
    ensures
        functions_check(g, fs, n) == functions_check(g, fs, k),
    decreases n,
{
    if k < n {
        lemma_functions_error_persists(g, fs, k, (n - 1) as nat);
    }
}

} // verus!
