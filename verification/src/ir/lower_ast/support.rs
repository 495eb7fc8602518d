//! Frontend types and operators as IR types and operations.
use vstd::prelude::*;
use crate::ir::lower_ast::error::LowerError;
use crate::ir::lower_ast::frontend::{BinOpRef, CmpOpRef, TypeRef};
use crate::ir::module::{BinOp, CmpOp};
use crate::ir::types::{
    Type, TypeModel, is_float, is_float_model, is_integer, is_integer_model, is_signed,
    is_signed_model, is_unsigned, is_unsigned_model,
};
use crate::ir::lower_ast::check::{float_type_check, int_type_check, type_agrees, type_check};
use crate::text::{dec_text, push_decimal};

verus! {

broadcast use vstd::std_specs::vec::axiom_vec_index_decreases;

/// The integer type of a width and signedness, if the IR has one.
pub open spec fn int_type_spec(bits: u16, signed: bool) -> Option<TypeModel> {
    if bits == 1 {
        Some(if signed { TypeModel::I1 } else { TypeModel::U1 })
    } else if bits == 8 {
        Some(if signed { TypeModel::I8 } else { TypeModel::U8 })
    } else if bits == 16 {
        Some(if signed { TypeModel::I16 } else { TypeModel::U16 })
    } else if bits == 32 {
        Some(if signed { TypeModel::I32 } else { TypeModel::U32 })
    } else if bits == 64 {
        Some(if signed { TypeModel::I64 } else { TypeModel::U64 })
    } else if bits == 128 {
        Some(if signed { TypeModel::I128 } else { TypeModel::U128 })
    } else {
        None
    }
}

/// The floating type of a width, if the IR has one.
pub open spec fn float_type_spec(bits: u16) -> Option<TypeModel> {
    if bits == 16 {
        Some(TypeModel::F16)
    } else if bits == 32 {
        Some(TypeModel::F32)
    } else if bits == 64 {
        Some(TypeModel::F64)
    } else {
        None
    }
}

fn width_message(prefix: &str, bits: u16) -> (r: String)
    ensures
        r@ == prefix@ + dec_text(bits as nat),
{
    let mut s = String::from_str(prefix);
    push_decimal(&mut s, bits as u128);
    s
}

pub fn int_type(bits: u16, signed: bool) -> (r: Result<Type, LowerError>)
    ensures
        r matches Err(e) ==> e is UnsupportedType,
        type_agrees(r, int_type_check(bits, signed)),
{
    let t = match bits {
        1 => if signed { Type::I1 } else { Type::U1 },
        8 => if signed { Type::I8 } else { Type::U8 },
        16 => if signed { Type::I16 } else { Type::U16 },
        32 => if signed { Type::I32 } else { Type::U32 },
        64 => if signed { Type::I64 } else { Type::U64 },
        128 => if signed { Type::I128 } else { Type::U128 },
        _ => return Err(LowerError::UnsupportedType(width_message("integer width ", bits))),
    };
    Ok(t)
}

pub fn float_type(bits: u16) -> (r: Result<Type, LowerError>)
    ensures
        r matches Err(e) ==> e is UnsupportedType,
        type_agrees(r, float_type_check(bits)),
{
    match bits {
        16 => Ok(Type::F16),
        32 => Ok(Type::F32),
        64 => Ok(Type::F64),
        _ => Err(LowerError::UnsupportedType(width_message("float width ", bits))),
    }
}

/// The IR type of a frontend type.
pub fn type_ref_to_type(t: &TypeRef) -> (r: Result<Type, LowerError>)
    ensures
        r matches Err(e) ==> e is UnsupportedType,
        type_agrees(r, type_check(*t)),
    decreases t,
{
    match t {
        TypeRef::Void => Ok(Type::Void),
        TypeRef::Bool => Ok(Type::Bool),
        TypeRef::Int { bits, signed } => int_type(*bits, *signed),
        TypeRef::Float { bits } => float_type(*bits),
        TypeRef::Array { elem, len } => {
            let e = type_ref_to_type(elem)?;
            Ok(Type::Array(Box::new(e), *len))
        },
    }
}

/// The runtime operation for a source arithmetic operator on a type.
pub open spec fn map_binop_spec(op: BinOpRef, ty: TypeModel) -> Option<BinOp> {
    if is_integer_model(ty) {
        Some(
            match op {
                BinOpRef::Add => BinOp::Add,
                BinOpRef::Sub => BinOp::Sub,
                BinOpRef::Mul => BinOp::Mul,
            },
        )
    } else if is_float_model(ty) {
        Some(
            match op {
                BinOpRef::Add => BinOp::FAdd,
                BinOpRef::Sub => BinOp::FSub,
                BinOpRef::Mul => BinOp::FMul,
            },
        )
    } else {
        None
    }
}

pub fn map_binop(op: BinOpRef, ty: &Type) -> (r: Result<BinOp, LowerError>)
    ensures
        match map_binop_spec(op, ty@) {
            Some(b) => r == Ok::<BinOp, LowerError>(b),
            None => r matches Err(LowerError::UnsupportedExpr),
        },
{
    if is_integer(ty) {
        Ok(
            match op {
                BinOpRef::Add => BinOp::Add,
                BinOpRef::Sub => BinOp::Sub,
                BinOpRef::Mul => BinOp::Mul,
            },
        )
    } else if is_float(ty) {
        Ok(
            match op {
                BinOpRef::Add => BinOp::FAdd,
                BinOpRef::Sub => BinOp::FSub,
                BinOpRef::Mul => BinOp::FMul,
            },
        )
    } else {
        Err(LowerError::UnsupportedExpr)
    }
}

/// The runtime comparison for a source comparison on a type: equality on
/// integers and booleans, ordering on integers by signedness, all on floats.
pub open spec fn map_compare_spec(op: CmpOpRef, ty: TypeModel) -> Option<CmpOp> {
    match op {
        CmpOpRef::Eq => if is_integer_model(ty) || ty is Bool {
            Some(CmpOp::Eq)
        } else if is_float_model(ty) {
            Some(CmpOp::FEq)
        } else {
            None
        },
        CmpOpRef::Ne => if is_integer_model(ty) || ty is Bool {
            Some(CmpOp::Ne)
        } else if is_float_model(ty) {
            Some(CmpOp::FNe)
        } else {
            None
        },
        CmpOpRef::Lt => if is_signed_model(ty) {
            Some(CmpOp::SLt)
        } else if is_unsigned_model(ty) {
            Some(CmpOp::ULt)
        } else if is_float_model(ty) {
            Some(CmpOp::FLt)
        } else {
            None
        },
        CmpOpRef::Le => if is_signed_model(ty) {
            Some(CmpOp::SLe)
        } else if is_unsigned_model(ty) {
            Some(CmpOp::ULe)
        } else if is_float_model(ty) {
            Some(CmpOp::FLe)
        } else {
            None
        },
        CmpOpRef::Gt => if is_signed_model(ty) {
            Some(CmpOp::SGt)
        } else if is_unsigned_model(ty) {
            Some(CmpOp::UGt)
        } else if is_float_model(ty) {
            Some(CmpOp::FGt)
        } else {
            None
        },
        CmpOpRef::Ge => if is_signed_model(ty) {
            Some(CmpOp::SGe)
        } else if is_unsigned_model(ty) {
            Some(CmpOp::UGe)
        } else if is_float_model(ty) {
            Some(CmpOp::FGe)
        } else {
            None
        },
    }
}

pub fn map_compare(op: CmpOpRef, ty: &Type) -> (r: Result<CmpOp, LowerError>)
    ensures
        match map_compare_spec(op, ty@) {
            Some(c) => r == Ok::<CmpOp, LowerError>(c),
            None => r matches Err(LowerError::UnsupportedExpr),
        },
{
    proof {
        crate::ir::types::lemma_model_shape(*ty);
    }
    let equality = is_integer(ty) || matches!(ty, Type::Bool);
    let signed = is_signed(ty);
    let unsigned = is_unsigned(ty);
    let float = is_float(ty);
    let pick = |s: CmpOp, u: CmpOp, fl: CmpOp| -> (r: Option<CmpOp>)
        ensures
            r == if signed {
                Some(s)
            } else if unsigned {
                Some(u)
            } else if float {
                Some(fl)
            } else {
                None
            },
        {
            if signed {
                Some(s)
            } else if unsigned {
                Some(u)
            } else if float {
                Some(fl)
            } else {
                None
            }
        };
    let found = match op {
        CmpOpRef::Eq => if equality {
            Some(CmpOp::Eq)
        } else if float {
            Some(CmpOp::FEq)
        } else {
            None
        },
        CmpOpRef::Ne => if equality {
            Some(CmpOp::Ne)
        } else if float {
            Some(CmpOp::FNe)
        } else {
            None
        },
        CmpOpRef::Lt => pick(CmpOp::SLt, CmpOp::ULt, CmpOp::FLt),
        CmpOpRef::Le => pick(CmpOp::SLe, CmpOp::ULe, CmpOp::FLe),
        CmpOpRef::Gt => pick(CmpOp::SGt, CmpOp::UGt, CmpOp::FGt),
        CmpOpRef::Ge => pick(CmpOp::SGe, CmpOp::UGe, CmpOp::FGe),
    };
    match found {
        Some(c) => Ok(c),
        None => Err(LowerError::UnsupportedExpr),
    }
}

/// What a source comparison says of the two numbers it compares.
pub open spec fn source_compare_holds(op: CmpOpRef, a: int, b: int) -> bool {
    match op {
        CmpOpRef::Eq => a == b,
        CmpOpRef::Ne => a != b,
        CmpOpRef::Lt => a < b,
        CmpOpRef::Le => a <= b,
        CmpOpRef::Gt => a > b,
        CmpOpRef::Ge => a >= b,
    }
}

/// What an IR comparison says of the numbers its operands stand for, once
/// they are read as its operand kind says.
pub open spec fn ir_compare_holds(c: CmpOp, a: int, b: int) -> bool {
    match c {
        CmpOp::Eq | CmpOp::FEq => a == b,
        CmpOp::Ne | CmpOp::FNe => a != b,
        CmpOp::SLt | CmpOp::ULt | CmpOp::FLt => a < b,
        CmpOp::SLe | CmpOp::ULe | CmpOp::FLe => a <= b,
        CmpOp::SGt | CmpOp::UGt | CmpOp::FGt => a > b,
        CmpOp::SGe | CmpOp::UGe | CmpOp::FGe => a >= b,
    }
}

/// The IR comparison reads its operands as signed integers.
pub open spec fn reads_signed(c: CmpOp) -> bool {
    c is SLt || c is SLe || c is SGt || c is SGe
}

/// The IR comparison reads its operands as unsigned integers.
pub open spec fn reads_unsigned(c: CmpOp) -> bool {
    c is ULt || c is ULe || c is UGt || c is UGe
}

/// The IR comparison reads its operands as floating-point numbers.
pub open spec fn reads_float(c: CmpOp) -> bool {
    c is FEq || c is FNe || c is FLt || c is FLe || c is FGt || c is FGe
}

/// Comparison lowering law: a source comparison on a type is lowered to an
/// IR comparison that holds of exactly the pairs of numbers the source
/// comparison holds of, and that reads its operands as the type's kind:
/// signed integers, unsigned integers or floats; an equality test on
/// integers or booleans reads them as plain values. Every integer and
/// floating-point type can be compared, and booleans for equality only.
pub proof fn lemma_compare_lowering_keeps_meaning(op: CmpOpRef, ty: TypeModel)
    ensures
        map_compare_spec(op, ty) matches Some(c) ==> (forall|a: int, b: int|
            #[trigger] ir_compare_holds(c, a, b) == source_compare_holds(op, a, b)),
        map_compare_spec(op, ty) matches Some(c) ==> {
            &&& is_float_model(ty) ==> reads_float(c)
            &&& is_signed_model(ty) && !(op is Eq || op is Ne) ==> reads_signed(c)
            &&& is_unsigned_model(ty) && !(op is Eq || op is Ne) ==> reads_unsigned(c)
            &&& (is_integer_model(ty) || ty is Bool) ==> !reads_float(c)
        },
        map_compare_spec(op, ty) is Some <==> (is_integer_model(ty) || is_float_model(ty) || ((op is Eq
            || op is Ne) && ty is Bool)),
{

}

} // verus!
