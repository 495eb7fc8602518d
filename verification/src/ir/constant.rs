//! Category and range of constant payloads.
use vstd::prelude::*;
use crate::ir::types::{ConstValue, FloatBits, Type, TypeModel};

verus! {

/// A literal's category and range agree with its type: no rounding, wrapping or conversion.
/// A floating payload must have the storage width of its type.
pub open spec fn valid_constant_spec(ty: TypeModel, value: ConstValue) -> bool {
    match value {
        ConstValue::Bool(_) => ty is Bool,
        ConstValue::F(f) => match f {
            FloatBits::F16(_) => ty is F16,
            FloatBits::F32(_) => ty is F32,
            FloatBits::F64(_) => ty is F64,
        },
        ConstValue::I(v) => match ty {
            TypeModel::I1 => -1 <= v < 1,
            TypeModel::I8 => -0x80 <= v < 0x80,
            TypeModel::I16 => -0x8000 <= v < 0x8000,
            TypeModel::I32 => -0x8000_0000 <= v < 0x8000_0000,
            TypeModel::I64 => -0x8000_0000_0000_0000 <= v < 0x8000_0000_0000_0000,
            TypeModel::I128 => true,
            _ => false,
        },
        ConstValue::U(v) => match ty {
            TypeModel::U1 => v < 2,
            TypeModel::U8 => v < 0x100,
            TypeModel::U16 => v < 0x1_0000,
            TypeModel::U32 => v < 0x1_0000_0000,
            TypeModel::U64 => v < 0x1_0000_0000_0000_0000,
            TypeModel::U128 => true,
            _ => false,
        },
    }
}

/// Check a literal's category and range without rounding or wrapping its value.
pub fn valid_constant(ty: &Type, value: &ConstValue) -> (r: bool)
    ensures
        r == valid_constant_spec(ty@, *value),
{
    proof {
        crate::ir::types::lemma_model_shape(*ty);
    }
    match value {
        ConstValue::Bool(_) => matches!(ty, Type::Bool),
        ConstValue::F(f) => match f {
            FloatBits::F16(_) => matches!(ty, Type::F16),
            FloatBits::F32(_) => matches!(ty, Type::F32),
            FloatBits::F64(_) => matches!(ty, Type::F64),
        },
        ConstValue::I(v) => {
            let v = *v;
            match ty {
                Type::I1 => -1 <= v && v < 1,
                Type::I8 => -0x80 <= v && v < 0x80,
                Type::I16 => -0x8000 <= v && v < 0x8000,
                Type::I32 => -0x8000_0000 <= v && v < 0x8000_0000,
                Type::I64 => -0x8000_0000_0000_0000 <= v && v < 0x8000_0000_0000_0000,
                Type::I128 => true,
                _ => false,
            }
        },
        ConstValue::U(v) => {
            let v = *v;
            match ty {
                Type::U1 => v < 2,
                Type::U8 => v < 0x100,
                Type::U16 => v < 0x1_0000,
                Type::U32 => v < 0x1_0000_0000,
                Type::U64 => v < 0x1_0000_0000_0000_0000,
                Type::U128 => true,
                _ => false,
            }
        },
    }
}

} // verus!
