//! Typed compile-time expressions and their evaluation.
use vstd::prelude::*;
use vstd::std_specs::cmp::PartialEqSpecImpl;
use crate::ir::constant::{valid_constant, valid_constant_spec};
use crate::ir::types::{
    ConstValue, FloatBits, GlobalId, Type, TypeModel, ValueId, is_float, is_float_model, is_signed,
    is_signed_model, is_unsigned, is_unsigned_model,
};

verus! {

/// Resolved constant identity. Local identities belong to the containing function.
#[derive(Clone, Copy, Debug, PartialEq, Eq, Hash, Structural)]
pub enum ConstRef {
    Global(GlobalId),
    Local(ValueId),
}

#[derive(Clone, Copy, Debug, PartialEq, Eq, Structural)]
pub enum ConstBinaryOp {
    Add,
    Sub,
    Mul,
}

#[derive(Clone, Copy, Debug, PartialEq, Eq, Structural)]
pub enum ConstCompareOp {
    Eq,
    Ne,
    Lt,
    Le,
    Gt,
    Ge,
}

/// A typed compile-time expression, preserved independently of its evaluated
/// result. This tree is not a sequence of runtime instructions.
#[derive(Debug)]
pub struct ConstExpr {
    pub ty: Type,
    pub kind: ConstExprKind,
}

#[derive(Debug)]
pub enum ConstExprKind {
    Literal(ConstValue),
    Reference(ConstRef),
    Binary { op: ConstBinaryOp, left: Box<ConstExpr>, right: Box<ConstExpr> },
    Compare { op: ConstCompareOp, left: Box<ConstExpr>, right: Box<ConstExpr> },
}

/// The value of a [`ConstExpr`]: the same tree over type models.
pub struct ExprModel {
    pub ty: TypeModel,
    pub kind: ExprKindModel,
}

pub enum ExprKindModel {
    Literal(ConstValue),
    Reference(ConstRef),
    Binary { op: ConstBinaryOp, left: Box<ExprModel>, right: Box<ExprModel> },
    Compare { op: ConstCompareOp, left: Box<ExprModel>, right: Box<ExprModel> },
}

pub open spec fn expr_model(e: ConstExpr) -> ExprModel
    decreases e,
{
    ExprModel {
        ty: e.ty@,
        kind: match e.kind {
            ConstExprKind::Literal(v) => ExprKindModel::Literal(v),
            ConstExprKind::Reference(r) => ExprKindModel::Reference(r),
            ConstExprKind::Binary { op, left, right } => ExprKindModel::Binary {
                op,
                left: Box::new(expr_model(*left)),
                right: Box::new(expr_model(*right)),
            },
            ConstExprKind::Compare { op, left, right } => ExprKindModel::Compare {
                op,
                left: Box::new(expr_model(*left)),
                right: Box::new(expr_model(*right)),
            },
        },
    }
}

impl View for ConstExpr {
    type V = ExprModel;

    open spec fn view(&self) -> ExprModel {
        expr_model(*self)
    }
}

#[derive(Clone, Copy, Debug, PartialEq, Eq, Structural)]
pub enum ConstEvalError {
    InvalidLiteral,
    TypeMismatch,
    UnsupportedOperation,
    UnknownReference(ConstRef),
    DuplicateDefinition(ConstRef),
    CyclicReference,
    ResultMismatch,
}

/// A resolved constant that expressions may reference: its identity, declared
/// type and value.
#[derive(Clone, Copy, Debug)]
pub struct ConstBinding<'a> {
    pub id: ConstRef,
    pub ty: &'a Type,
    pub value: ConstValue,
}

/// The first binding of `id` in `env`.
pub open spec fn lookup_spec<'a>(env: Seq<ConstBinding<'a>>, id: ConstRef) -> Option<ConstBinding<'a>>
    decreases env.len(),
{
    if env.len() == 0 {
        None
    } else if env[0].id == id {
        Some(env[0])
    } else {
        lookup_spec(env.drop_first(), id)
    }
}

/// The identities an expression references, left to right.
pub open spec fn references_spec(e: ExprModel) -> Seq<ConstRef>
    decreases e,
{
    match e.kind {
        ExprKindModel::Literal(_) => seq![],
        ExprKindModel::Reference(r) => seq![r],
        ExprKindModel::Binary { left, right, .. } => references_spec(*left) + references_spec(
            *right,
        ),
        ExprKindModel::Compare { left, right, .. } => references_spec(*left) + references_spec(
            *right,
        ),
    }
}

/// 2 to the bit width of an integer type.
pub open spec fn modulus(ty: TypeModel) -> int {
    match ty {
        TypeModel::I1 | TypeModel::U1 => 2,
        TypeModel::I8 | TypeModel::U8 => 0x100,
        TypeModel::I16 | TypeModel::U16 => 0x1_0000,
        TypeModel::I32 | TypeModel::U32 => 0x1_0000_0000,
        TypeModel::I64 | TypeModel::U64 => 0x1_0000_0000_0000_0000,
        _ => 0x1_0000_0000_0000_0000_0000_0000_0000_0000int,
    }
}

/// Two's complement wrapping of `x` into a width with modulus `m`.
pub open spec fn wrap_signed(x: int, m: int) -> int {
    if x % m >= m / 2 {
        x % m - m
    } else {
        x % m
    }
}

pub open spec fn exact_binary(op: ConstBinaryOp, a: int, b: int) -> int {
    match op {
        ConstBinaryOp::Add => a + b,
        ConstBinaryOp::Sub => a - b,
        ConstBinaryOp::Mul => a * b,
    }
}

/// Integer constant arithmetic wraps to the operand width. Floating-point
/// constant arithmetic is not folded here, and bool has no arithmetic.
pub open spec fn const_bin_spec(op: ConstBinaryOp, ty: TypeModel, l: ConstValue, r: ConstValue) -> Result<
    ConstValue,
    ConstEvalError,
> {
    if is_float_model(ty) {
        Err(ConstEvalError::UnsupportedOperation)
    } else if is_signed_model(ty) {
        match (l, r) {
            (ConstValue::I(a), ConstValue::I(b)) => Ok(
                ConstValue::I(wrap_signed(exact_binary(op, a as int, b as int), modulus(ty)) as i128),
            ),
            _ => Err(ConstEvalError::UnsupportedOperation),
        }
    } else if is_unsigned_model(ty) {
        match (l, r) {
            (ConstValue::U(a), ConstValue::U(b)) => Ok(
                ConstValue::U((exact_binary(op, a as int, b as int) % modulus(ty)) as u128),
            ),
            _ => Err(ConstEvalError::UnsupportedOperation),
        }
    } else {
        Err(ConstEvalError::UnsupportedOperation)
    }
}

/// Not a number: all exponent bits set and a nonzero fraction.
pub open spec fn float_is_nan(f: FloatBits) -> bool {
    match f {
        FloatBits::F16(x) => (x & 0x7fff) > 0x7c00,
        FloatBits::F32(x) => (x & 0x7fff_ffff) > 0x7f80_0000,
        FloatBits::F64(x) => (x & 0x7fff_ffff_ffff_ffff) > 0x7ff0_0000_0000_0000,
    }
}

/// A number whose order among values of one width is that of the IEEE value:
/// the magnitude bits, negated when the sign bit is set (so both zeros are 0).
pub open spec fn float_key(f: FloatBits) -> int {
    match f {
        FloatBits::F16(x) => if x & 0x8000 != 0 {
            -((x & 0x7fff) as int)
        } else {
            x as int
        },
        FloatBits::F32(x) => if x & 0x8000_0000 != 0 {
            -((x & 0x7fff_ffff) as int)
        } else {
            x as int
        },
        FloatBits::F64(x) => if x & 0x8000_0000_0000_0000 != 0 {
            -((x & 0x7fff_ffff_ffff_ffff) as int)
        } else {
            x as int
        },
    }
}

pub open spec fn compare_ints(op: ConstCompareOp, a: int, b: int) -> bool {
    match op {
        ConstCompareOp::Eq => a == b,
        ConstCompareOp::Ne => a != b,
        ConstCompareOp::Lt => a < b,
        ConstCompareOp::Le => a <= b,
        ConstCompareOp::Gt => a > b,
        ConstCompareOp::Ge => a >= b,
    }
}

/// IEEE comparison: every comparison with NaN is false except `Ne`.
pub open spec fn compare_floats(op: ConstCompareOp, a: FloatBits, b: FloatBits) -> bool {
    if float_is_nan(a) || float_is_nan(b) {
        op is Ne
    } else {
        compare_ints(op, float_key(a), float_key(b))
    }
}

/// Comparison of two constants of one type; bool supports only equality.
/// Floating-point payloads compare only at one width: payloads of two
/// different widths are refused.
pub open spec fn const_compare_spec(op: ConstCompareOp, ty: TypeModel, l: ConstValue, r: ConstValue) -> Result<
    bool,
    ConstEvalError,
> {
    if is_float_model(ty) {
        match (l, r) {
            (ConstValue::F(a), ConstValue::F(b)) => if crate::ir::float::float_width(a)
                == crate::ir::float::float_width(b) {
                Ok(compare_floats(op, a, b))
            } else {
                Err(ConstEvalError::UnsupportedOperation)
            },
            _ => Err(ConstEvalError::UnsupportedOperation),
        }
    } else if ty is Bool {
        match (l, r) {
            (ConstValue::Bool(a), ConstValue::Bool(b)) => match op {
                ConstCompareOp::Eq => Ok(a == b),
                ConstCompareOp::Ne => Ok(a != b),
                _ => Err(ConstEvalError::UnsupportedOperation),
            },
            _ => Err(ConstEvalError::UnsupportedOperation),
        }
    } else if is_signed_model(ty) {
        match (l, r) {
            (ConstValue::I(a), ConstValue::I(b)) => Ok(compare_ints(op, a as int, b as int)),
            _ => Err(ConstEvalError::UnsupportedOperation),
        }
    } else if is_unsigned_model(ty) {
        match (l, r) {
            (ConstValue::U(a), ConstValue::U(b)) => Ok(compare_ints(op, a as int, b as int)),
            _ => Err(ConstEvalError::UnsupportedOperation),
        }
    } else {
        Err(ConstEvalError::UnsupportedOperation)
    }
}

/// The value of an expression whose references resolve in `env`. Operands are
/// evaluated left to right; the result must be a valid constant of the
/// expression's type.
pub open spec fn eval_spec<'a>(e: ExprModel, env: Seq<ConstBinding<'a>>) -> Result<ConstValue, ConstEvalError>
    decreases e,
{
    let value = match e.kind {
        ExprKindModel::Literal(v) => Ok(v),
        ExprKindModel::Reference(id) => match lookup_spec(env, id) {
            None => Err(ConstEvalError::UnknownReference(id)),
            Some(b) => if b.ty@ != e.ty {
                Err(ConstEvalError::TypeMismatch)
            } else {
                Ok(b.value)
            },
        },
        ExprKindModel::Binary { op, left, right } => if left.ty != right.ty || e.ty != left.ty {
            Err(ConstEvalError::TypeMismatch)
        } else {
            match eval_spec(*left, env) {
                Err(x) => Err(x),
                Ok(a) => match eval_spec(*right, env) {
                    Err(x) => Err(x),
                    Ok(b) => const_bin_spec(op, left.ty, a, b),
                },
            }
        },
        ExprKindModel::Compare { op, left, right } => if left.ty != right.ty || !(e.ty is Bool) {
            Err(ConstEvalError::TypeMismatch)
        } else {
            match eval_spec(*left, env) {
                Err(x) => Err(x),
                Ok(a) => match eval_spec(*right, env) {
                    Err(x) => Err(x),
                    Ok(b) => match const_compare_spec(op, left.ty, a, b) {
                        Err(x) => Err(x),
                        Ok(c) => Ok(ConstValue::Bool(c)),
                    },
                },
            }
        },
    };
    match value {
        Err(x) => Err(x),
        Ok(v) => if valid_constant_spec(e.ty, v) {
            Ok(v)
        } else {
            Err(ConstEvalError::InvalidLiteral)
        },
    }
}

/// The first binding of `id`.
pub fn lookup<'a, 'b>(env: &'b Vec<ConstBinding<'a>>, id: ConstRef) -> (r: Option<&'b ConstBinding<'a>>)
    ensures
        match lookup_spec(env@, id) {
            None => r is None,
            Some(b) => r matches Some(x) && *x == b,
        },
{
    let mut i: usize = 0;
    assert(env@.skip(0) =~= env@);
    while i < env.len()
        invariant
            0 <= i <= env.len(),
            lookup_spec(env@, id) == lookup_spec(env@.skip(i as int), id),
        decreases env.len() - i,
    {
        proof {
            assert(env@.skip(i as int).drop_first() =~= env@.skip(i + 1));
        }
        if env[i].id == id {
            return Some(&env[i]);
        }
        i += 1;
    }
    None
}

impl ConstExpr {
    pub fn literal(ty: Type, value: ConstValue) -> (r: Self)
        ensures
            r == (ConstExpr { ty, kind: ConstExprKind::Literal(value) }),
            r@ == (ExprModel { ty: ty@, kind: ExprKindModel::Literal(value) }),
    {
        Self { ty, kind: ConstExprKind::Literal(value) }
    }

    /// A copy with the same model.
    pub fn duplicate(&self) -> (r: Self)
        ensures
            r@ == self@,
        decreases self,
    {
        let kind = match &self.kind {
            ConstExprKind::Literal(v) => ConstExprKind::Literal(*v),
            ConstExprKind::Reference(id) => ConstExprKind::Reference(*id),
            ConstExprKind::Binary { op, left, right } => ConstExprKind::Binary {
                op: *op,
                left: Box::new(left.duplicate()),
                right: Box::new(right.duplicate()),
            },
            ConstExprKind::Compare { op, left, right } => ConstExprKind::Compare {
                op: *op,
                left: Box::new(left.duplicate()),
                right: Box::new(right.duplicate()),
            },
        };
        ConstExpr { ty: self.ty.duplicate(), kind }
    }

    /// Equality of the expression trees.
    pub fn same_as(&self, other: &Self) -> (r: bool)
        ensures
            r == (self@ == other@),
        decreases self,
    {
        if self.ty != other.ty {
            return false;
        }
        match (&self.kind, &other.kind) {
            (ConstExprKind::Literal(a), ConstExprKind::Literal(b)) => *a == *b,
            (ConstExprKind::Reference(a), ConstExprKind::Reference(b)) => *a == *b,
            (
                ConstExprKind::Binary { op: p, left: l1, right: r1 },
                ConstExprKind::Binary { op: q, left: l2, right: r2 },
            ) => *p == *q && l1.same_as(l2) && r1.same_as(r2),
            (
                ConstExprKind::Compare { op: p, left: l1, right: r1 },
                ConstExprKind::Compare { op: q, left: l2, right: r2 },
            ) => *p == *q && l1.same_as(l2) && r1.same_as(r2),
            _ => false,
        }
    }

    /// The identities this expression references, left to right, with repetitions.
    pub fn references(&self) -> (r: Vec<ConstRef>)
        ensures
            r@ == references_spec(self@),
    {
        let mut out = Vec::new();
        self.collect_references(&mut out);
        assert(out@ =~= references_spec(self@));
        out
    }

    fn collect_references(&self, out: &mut Vec<ConstRef>)
        ensures
            final(out)@ == old(out)@ + references_spec(self@),
        decreases self,
    {
        match &self.kind {
            ConstExprKind::Literal(_) => {
                assert(old(out)@ + references_spec(self@) =~= old(out)@);
            },
            ConstExprKind::Reference(reference) => {
                out.push(*reference);
            },
            ConstExprKind::Binary { left, right, .. } | ConstExprKind::Compare {
                left,
                right,
                ..
            } => {
                left.collect_references(out);
                right.collect_references(out);
                assert(final(out)@ =~= old(out)@ + references_spec(self@));
            },
        }
    }

    /// Evaluate with every reference resolved in `env`.
    pub fn evaluate(&self, env: &Vec<ConstBinding<'_>>) -> (r: Result<ConstValue, ConstEvalError>)
        ensures
            r == eval_spec(self@, env@),
            r matches Ok(v) ==> valid_constant_spec(self.ty@, v),
        decreases self,
    {
        let value = match &self.kind {
            ConstExprKind::Literal(value) => *value,
            ConstExprKind::Reference(reference) => {
                let binding = match lookup(env, *reference) {
                    Some(b) => b,
                    None => return Err(ConstEvalError::UnknownReference(*reference)),
                };
                if *binding.ty != self.ty {
                    return Err(ConstEvalError::TypeMismatch);
                }
                binding.value
            },
            ConstExprKind::Binary { op, left, right } => {
                proof {
                    assert(left@.ty == left.ty@);
                    assert(right@.ty == right.ty@);
                }
                if left.ty != right.ty || self.ty != left.ty {
                    return Err(ConstEvalError::TypeMismatch);
                }
                let a = left.evaluate(env)?;
                let b = right.evaluate(env)?;
                const_bin(*op, &left.ty, &a, &b)?
            },
            ConstExprKind::Compare { op, left, right } => {
                proof {
                    assert(left@.ty == left.ty@);
                    assert(right@.ty == right.ty@);
                }
                if left.ty != right.ty || !matches!(self.ty, Type::Bool) {
                    return Err(ConstEvalError::TypeMismatch);
                }
                let a = left.evaluate(env)?;
                let b = right.evaluate(env)?;
                ConstValue::Bool(const_compare(*op, &left.ty, &a, &b)?)
            },
        };
        if !valid_constant(&self.ty, &value) {
            return Err(ConstEvalError::InvalidLiteral);
        }
        Ok(value)
    }
}

impl Clone for ConstExpr {
    fn clone(&self) -> (r: Self)
        ensures
            r@ == self@,
    {
        self.duplicate()
    }
}

impl PartialEq for ConstExpr {
    fn eq(&self, other: &Self) -> (r: bool) {
        self.same_as(other)
    }
}

impl PartialEqSpecImpl for ConstExpr {
    open spec fn obeys_eq_spec() -> bool {
        true
    }

    open spec fn eq_spec(&self, other: &Self) -> bool {
        self@ == other@
    }
}

/// Constants are the same when their payloads are: storage bits for floats,
/// so signed zeros and NaN payloads are told apart.
pub fn same_value(left: &ConstValue, right: &ConstValue) -> (r: bool)
    ensures
        r == (*left == *right),
{
    *left == *right
}

fn signed_modulus(ty: &Type) -> (r: u128)
    requires
        is_signed_model(ty@),
        !(ty@ is I128),
    ensures
        r == modulus(ty@),
{
    match ty {
        Type::I1 => 2,
        Type::I8 => 0x100,
        Type::I16 => 0x1_0000,
        Type::I32 => 0x1_0000_0000,
        _ => 0x1_0000_0000_0000_0000,
    }
}

fn unsigned_modulus(ty: &Type) -> (r: u128)
    requires
        is_unsigned_model(ty@),
        !(ty@ is U128),
    ensures
        r == modulus(ty@),
{
    match ty {
        Type::U1 => 2,
        Type::U8 => 0x100,
        Type::U16 => 0x1_0000,
        Type::U32 => 0x1_0000_0000,
        _ => 0x1_0000_0000_0000_0000,
    }
}

/// Wrap an exact signed result of a width below 128 bits.
fn wrap_i(x: i128, m: u128) -> (r: i128)
    requires
        m == 2 || m == 0x100 || m == 0x1_0000 || m == 0x1_0000_0000 || m
            == 0x1_0000_0000_0000_0000,
        -0x4000_0000_0000_0000_0000_0000_0000_0000 <= x <= 0x4000_0000_0000_0000_0000_0000_0000_0000,
    ensures
        r == wrap_signed(x as int, m as int),
{
    let shifted: u128 = if x >= 0 {
        (x as u128) + 0x4000_0000_0000_0000_0000_0000_0000_0000u128
    } else {
        (x + 0x4000_0000_0000_0000_0000_0000_0000_0000i128) as u128
    };
    let rem = shifted % m;
    proof {
        let k: int = 0x4000_0000_0000_0000_0000_0000_0000_0000int / (m as int);
        assert((m as int) * k == 0x4000_0000_0000_0000_0000_0000_0000_0000int);
        vstd::arithmetic::div_mod::lemma_mod_multiples_vanish(k, x as int, m as int);
    }
    if rem >= m / 2 {
        (rem as i128) - (m as i128)
    } else {
        rem as i128
    }
}

fn const_bin(op: ConstBinaryOp, ty: &Type, l: &ConstValue, r: &ConstValue) -> (res: Result<
    ConstValue,
    ConstEvalError,
>)
    requires
        (is_signed_model(ty@) && l is I && r is I) || (is_unsigned_model(ty@) && l is U && r is U) ==> valid_constant_spec(
            ty@,
            *l,
        ) && valid_constant_spec(ty@, *r),
    ensures
        res == const_bin_spec(op, ty@, *l, *r),
{
    proof {
        crate::ir::types::lemma_model_shape(*ty);
    }
    if is_float(ty) {
        return Err(ConstEvalError::UnsupportedOperation);
    }
    if is_signed(ty) {
        let (a, b) = match (l, r) {
            (ConstValue::I(a), ConstValue::I(b)) => (*a, *b),
            _ => return Err(ConstEvalError::UnsupportedOperation),
        };
        if matches!(ty, Type::I128) {
            let v = match op {
                ConstBinaryOp::Add => a.wrapping_add(b),
                ConstBinaryOp::Sub => a.wrapping_sub(b),
                ConstBinaryOp::Mul => a.wrapping_mul(b),
            };
            return Ok(ConstValue::I(v));
        }
        let m = signed_modulus(ty);
        proof {
            assert(-0x8000_0000_0000_0000 <= a < 0x8000_0000_0000_0000);
            assert(-0x8000_0000_0000_0000 <= b < 0x8000_0000_0000_0000);
            assert(-0x4000_0000_0000_0000_0000_0000_0000_0000 <= a * b
                <= 0x4000_0000_0000_0000_0000_0000_0000_0000) by (nonlinear_arith)
                requires
                    -0x8000_0000_0000_0000 <= a < 0x8000_0000_0000_0000,
                    -0x8000_0000_0000_0000 <= b < 0x8000_0000_0000_0000,
            ;
        }
        let exact = match op {
            ConstBinaryOp::Add => a + b,
            ConstBinaryOp::Sub => a - b,
            ConstBinaryOp::Mul => a * b,
        };
        return Ok(ConstValue::I(wrap_i(exact, m)));
    }
    if is_unsigned(ty) {
        let (a, b) = match (l, r) {
            (ConstValue::U(a), ConstValue::U(b)) => (*a, *b),
            _ => return Err(ConstEvalError::UnsupportedOperation),
        };
        if matches!(ty, Type::U128) {
            let v = match op {
                ConstBinaryOp::Add => a.wrapping_add(b),
                ConstBinaryOp::Sub => a.wrapping_sub(b),
                ConstBinaryOp::Mul => a.wrapping_mul(b),
            };
            return Ok(ConstValue::U(v));
        }
        let m = unsigned_modulus(ty);
        proof {
            assert(a * b < 0x1_0000_0000_0000_0000_0000_0000_0000_0000int) by (nonlinear_arith)
                requires
                    a < 0x1_0000_0000_0000_0000,
                    b < 0x1_0000_0000_0000_0000,
            ;
        }
        let v = match op {
            ConstBinaryOp::Add => (a + b) % m,
            ConstBinaryOp::Sub => {
                proof {
                    vstd::arithmetic::div_mod::lemma_mod_multiples_vanish(1, a - b, m as int);
                }
                (a + m - b) % m
            },
            ConstBinaryOp::Mul => (a * b) % m,
        };
        return Ok(ConstValue::U(v));
    }
    Err(ConstEvalError::UnsupportedOperation)
}

fn float_nan(f: FloatBits) -> (r: bool)
    ensures
        r == float_is_nan(f),
{
    match f {
        FloatBits::F16(x) => (x & 0x7fff) > 0x7c00,
        FloatBits::F32(x) => (x & 0x7fff_ffff) > 0x7f80_0000,
        FloatBits::F64(x) => (x & 0x7fff_ffff_ffff_ffff) > 0x7ff0_0000_0000_0000,
    }
}

fn float_order_key(f: FloatBits) -> (r: i128)
    ensures
        r == float_key(f),
{
    match f {
        FloatBits::F16(x) => if x & 0x8000 != 0 {
            -((x & 0x7fff) as i128)
        } else {
            x as i128
        },
        FloatBits::F32(x) => if x & 0x8000_0000 != 0 {
            -((x & 0x7fff_ffff) as i128)
        } else {
            x as i128
        },
        FloatBits::F64(x) => if x & 0x8000_0000_0000_0000 != 0 {
            -((x & 0x7fff_ffff_ffff_ffff) as i128)
        } else {
            x as i128
        },
    }
}

fn compare_i128(op: ConstCompareOp, a: i128, b: i128) -> (r: bool)
    ensures
        r == compare_ints(op, a as int, b as int),
{
    match op {
        ConstCompareOp::Eq => a == b,
        ConstCompareOp::Ne => a != b,
        ConstCompareOp::Lt => a < b,
        ConstCompareOp::Le => a <= b,
        ConstCompareOp::Gt => a > b,
        ConstCompareOp::Ge => a >= b,
    }
}

fn compare_u128(op: ConstCompareOp, a: u128, b: u128) -> (r: bool)
    ensures
        r == compare_ints(op, a as int, b as int),
{
    match op {
        ConstCompareOp::Eq => a == b,
        ConstCompareOp::Ne => a != b,
        ConstCompareOp::Lt => a < b,
        ConstCompareOp::Le => a <= b,
        ConstCompareOp::Gt => a > b,
        ConstCompareOp::Ge => a >= b,
    }
}

fn const_compare(op: ConstCompareOp, ty: &Type, l: &ConstValue, r: &ConstValue) -> (res: Result<
    bool,
    ConstEvalError,
>)
    ensures
        res == const_compare_spec(op, ty@, *l, *r),
{
    proof {
        crate::ir::types::lemma_model_shape(*ty);
    }
    if is_float(ty) {
        return match (l, r) {
            (ConstValue::F(a), ConstValue::F(b)) => {
                if a.width() != b.width() {
                    Err(ConstEvalError::UnsupportedOperation)
                } else if float_nan(*a) || float_nan(*b) {
                    Ok(matches!(op, ConstCompareOp::Ne))
                } else {
                    Ok(compare_i128(op, float_order_key(*a), float_order_key(*b)))
                }
            },
            _ => Err(ConstEvalError::UnsupportedOperation),
        };
    }
    if matches!(ty, Type::Bool) {
        return match (l, r) {
            (ConstValue::Bool(a), ConstValue::Bool(b)) => match op {
                ConstCompareOp::Eq => Ok(*a == *b),
                ConstCompareOp::Ne => Ok(*a != *b),
                _ => Err(ConstEvalError::UnsupportedOperation),
            },
            _ => Err(ConstEvalError::UnsupportedOperation),
        };
    }
    if is_signed(ty) {
        return match (l, r) {
            (ConstValue::I(a), ConstValue::I(b)) => Ok(compare_i128(op, *a, *b)),
            _ => Err(ConstEvalError::UnsupportedOperation),
        };
    }
    if is_unsigned(ty) {
        return match (l, r) {
            (ConstValue::U(a), ConstValue::U(b)) => Ok(compare_u128(op, *a, *b)),
            _ => Err(ConstEvalError::UnsupportedOperation),
        };
    }
    Err(ConstEvalError::UnsupportedOperation)
}

} // verus!
