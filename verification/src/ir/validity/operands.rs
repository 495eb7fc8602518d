//! Operand categories and types of each instruction, and address computations.
use vstd::prelude::*;
use crate::ir::module::{BinOp, CmpOp, Function, ICmpPred, Instruction};
use crate::ir::types::{
    ConstValue, Type, TypeModel, ValueId, is_float, is_float_model, is_integer, is_integer_model,
    is_signed, is_signed_model, is_unsigned, is_unsigned_model, types_equal,
};
use crate::ir::validity::VerifyError;
use crate::ir::validity::blocks::{verify_condition, verify_operand};
use crate::ir::validity::facts::{
    all_storable, defines, distinct_defs, ins_at, instr_result_spec, is_site, is_storable_model,
    result_id, supports_equality_model, type_of, typed_as,
};

use crate::ir::validity::{blamed, error_sound};

verus! {

broadcast use vstd::std_specs::vec::axiom_vec_index_decreases;

/// A type whose values can be stored: not void, and no void inside aggregates.
pub fn is_storable(ty: &Type) -> (r: bool)
    ensures
        r == is_storable_model(ty@),
    decreases ty,
{
    proof {
        crate::ir::types::lemma_model_shape(*ty);
    }
    match ty {
        Type::Void => false,
        Type::Array(element, _) => is_storable(element),
        Type::Struct(fields) => {
            proof {
                assert(ty@ == TypeModel::Struct(ty@->Struct_0));
            }
            all_fields_storable(ty, fields)
        },
        Type::Tuple(fields) => {
            proof {
                assert(ty@ == TypeModel::Tuple(ty@->Tuple_0));
            }
            all_fields_storable(ty, fields)
        },
        _ => true,
    }
}

fn all_fields_storable(parent: &Type, fields: &Vec<Type>) -> (r: bool)
    requires
        *parent == Type::Struct(*fields) || *parent == Type::Tuple(*fields),
    ensures
        r == all_storable(match parent@ {
            TypeModel::Struct(fs) => fs,
            TypeModel::Tuple(fs) => fs,
            _ => Seq::empty(),
        }),
    decreases parent, 0nat,
{
    let ghost ms = match parent@ {
        TypeModel::Struct(fs) => fs,
        TypeModel::Tuple(fs) => fs,
        _ => Seq::empty(),
    };
    assert(ms.len() == fields@.len());
    assert(forall|j: int| 0 <= j < fields@.len() ==> #[trigger] ms[j] == fields@[j]@);
    let mut i: usize = 0;
    assert(ms.take(0) =~= Seq::<TypeModel>::empty());
    while i < fields.len()
        invariant
            0 <= i <= fields.len(),
            ms.len() == fields@.len(),
            ms == match parent@ {
                TypeModel::Struct(fs) => fs,
                TypeModel::Tuple(fs) => fs,
                _ => Seq::empty(),
            },
            forall|j: int| 0 <= j < fields@.len() ==> #[trigger] ms[j] == fields@[j]@,
            *parent == Type::Struct(*fields) || *parent == Type::Tuple(*fields),
            all_storable(ms.take(i as int)),
        decreases fields.len() - i,
    {
        proof {
            if *parent == Type::Struct(*fields) {
                assert(decreases_to!(*parent => (*parent)->Struct_0));
            } else {
                assert(decreases_to!(*parent => (*parent)->Tuple_0));
            }
            assert(decreases_to!(*fields => fields[i as int]));
            assert(ms.take(i + 1).drop_last() =~= ms.take(i as int));
            assert(ms.take(i + 1).last() == fields@[i as int]@);
        }
        if !is_storable(&fields[i]) {
            proof {
                lemma_all_storable_prefix(ms, i as int);
            }
            return false;
        }
        i += 1;
    }
    assert(ms.take(i as int) =~= ms);
    true
}

/// A storable list has storable prefixes.
proof fn lemma_all_storable_prefix(ms: Seq<TypeModel>, i: int)
    requires
        0 <= i < ms.len(),
        !is_storable_model(ms[i]),
    ensures
        !all_storable(ms),
    decreases ms.len(),
{
    if i < ms.len() - 1 {
        lemma_all_storable_prefix(ms.drop_last(), i);
    }
}

/// `a` is a power of two.
pub open spec fn is_power_of_two(a: u32) -> bool {
    exists|k: u32| k < 32 && a == #[trigger] (1u32 << k)
}

/// Whether `a` is a power of two.
pub fn power_of_two(a: u32) -> (r: bool)
    ensures
        r == is_power_of_two(a),
{
    let mut k: u32 = 0;
    while k < 32
        invariant
            0 <= k <= 32,
            forall|j: u32| j < k ==> a != #[trigger] (1u32 << j),
        decreases 32 - k,
    {
        if a == (1u32 << k) {
            return true;
        }
        k += 1;
    }
    false
}

/// The payload a literal or named constant instruction gives `v`.
pub open spec fn const_payload(ins: Instruction, v: ValueId) -> Option<ConstValue> {
    match ins {
        Instruction::Const { dst, value, .. } => if dst == v {
            Some(value)
        } else {
            None
        },
        Instruction::ConstDecl { dst, value, .. } => if dst == v {
            Some(value)
        } else {
            None
        },
        _ => None,
    }
}

/// An integer payload as a field position, when it is one.
pub open spec fn ordinal_of(c: ConstValue) -> Option<int> {
    match c {
        ConstValue::I(n) => if 0 <= n <= usize::MAX {
            Some(n as int)
        } else {
            None
        },
        ConstValue::U(n) => if n <= usize::MAX {
            Some(n as int)
        } else {
            None
        },
        _ => None,
    }
}

/// The field position named by the compile-time constant `v`, if it is one.
pub open spec fn const_ordinal(f: Function, v: ValueId) -> Option<int> {
    if exists|b: int, p: int| is_site(f, b, p) && #[trigger] const_payload(ins_at(f, b, p), v) is Some {
        let (b, p) = choose|b: int, p: int|
            is_site(f, b, p) && #[trigger] const_payload(ins_at(f, b, p), v) is Some;
        ordinal_of(const_payload(ins_at(f, b, p), v).unwrap())
    } else {
        None
    }
}

/// The type addressed by following `path` from `ty`: an array index selects
/// the element type, a constant field position selects that field.
pub open spec fn gep_path(f: Function, ty: TypeModel, path: Seq<ValueId>) -> Option<TypeModel>
    decreases path.len(),
{
    if path.len() == 0 {
        Some(ty)
    } else {
        match ty {
            TypeModel::Array(e, _) => gep_path(f, *e, path.drop_first()),
            TypeModel::Struct(fs) => match const_ordinal(f, path[0]) {
                Some(o) => if o < fs.len() {
                    gep_path(f, fs[o], path.drop_first())
                } else {
                    None
                },
                None => None,
            },
            TypeModel::Tuple(fs) => match const_ordinal(f, path[0]) {
                Some(o) => if o < fs.len() {
                    gep_path(f, fs[o], path.drop_first())
                } else {
                    None
                },
                None => None,
            },
            _ => None,
        }
    }
}

/// The indices after the first, which keeps the pointee type.
pub open spec fn element_path(indices: Seq<ValueId>) -> Seq<ValueId> {
    if indices.len() == 0 {
        seq![]
    } else {
        indices.drop_first()
    }
}

/// An address computation: the base is a pointer, every index an integer, the
/// first index keeps the pointee type, the rest select within it, and the
/// result is a pointer to the selected type.
pub open spec fn gep_ok(f: Function, dst_ty: TypeModel, base: ValueId, indices: Seq<ValueId>) -> bool {
    match type_of(f, base) {
        Some(TypeModel::Ptr(pointee)) => {
            &&& (indices.len() > 0 ==> is_storable_model(*pointee))
            &&& forall|k: int|
                0 <= k < indices.len() ==> (type_of(f, #[trigger] indices[k]) matches Some(t)
                    && is_integer_model(t))
            &&& match gep_path(f, *pointee, element_path(indices)) {
                Some(selected) => dst_ty == TypeModel::Ptr(Box::new(selected)),
                None => false,
            }
        },
        _ => false,
    }
}

fn ordinal(c: &ConstValue) -> (r: Option<usize>)
    ensures
        match ordinal_of(*c) {
            Some(o) => r == Some(o as usize) && o == r.unwrap() as int,
            None => r is None,
        },
{
    match c {
        ConstValue::I(n) => {
            if *n >= 0 && *n <= usize::MAX as i128 {
                Some(*n as usize)
            } else {
                None
            }
        },
        ConstValue::U(n) => {
            if *n <= usize::MAX as u128 {
                Some(*n as usize)
            } else {
                None
            }
        },
        _ => None,
    }
}

proof fn lemma_const_ordinal_at(f: Function, v: ValueId, b: int, p: int)
    requires
        distinct_defs(f),
        is_site(f, b, p),
        const_payload(ins_at(f, b, p), v) is Some,
    ensures
        const_ordinal(f, v) == ordinal_of(const_payload(ins_at(f, b, p), v).unwrap()),
{
    let (b2, p2) = choose|b: int, p: int|
        is_site(f, b, p) && #[trigger] const_payload(ins_at(f, b, p), v) is Some;
    if b2 != b || p2 != p {
        assert(defines(ins_at(f, b, p), v));
        assert(instr_result_spec(ins_at(f, b, p)) is Some);
        assert(result_id(ins_at(f, b, p)) == v);
        assert(defines(ins_at(f, b2, p2), v));
    }
}

/// The field position named by `v`, found at its first constant definition.
fn find_ordinal(f: &Function, v: ValueId) -> (r: Option<usize>)
    requires
        distinct_defs(*f),
    ensures
        match const_ordinal(*f, v) {
            Some(o) => r == Some(o as usize) && o == r.unwrap() as int,
            None => r is None,
        },
{
    let mut b: usize = 0;
    while b < f.blocks.len()
        invariant
            0 <= b <= f.blocks@.len(),
            distinct_defs(*f),
            forall|b1: int, p1: int|
                is_site(*f, b1, p1) && b1 < b ==> !(#[trigger] const_payload(ins_at(*f, b1, p1), v) is Some),
        decreases f.blocks.len() - b,
    {
        let mut p: usize = 0;
        while p < f.blocks[b].instructions.len()
            invariant
                0 <= b < f.blocks@.len(),
                0 <= p <= f.blocks@[b as int].instructions@.len(),
                distinct_defs(*f),
                forall|b1: int, p1: int|
                    is_site(*f, b1, p1) && (b1 < b || (b1 == b && p1 < p)) ==> !(
                    #[trigger] const_payload(ins_at(*f, b1, p1), v) is Some),
            decreases f.blocks@[b as int].instructions@.len() - p,
        {
            let found = match &f.blocks[b].instructions[p] {
                Instruction::Const { dst, value, .. } => if *dst == v {
                    Some(*value)
                } else {
                    None
                },
                Instruction::ConstDecl { dst, value, .. } => if *dst == v {
                    Some(*value)
                } else {
                    None
                },
                _ => None,
            };
            assert(found == const_payload(ins_at(*f, b as int, p as int), v));
            if let Some(c) = found {
                proof {
                    lemma_const_ordinal_at(*f, v, b as int, p as int);
                }
                return ordinal(&c);
            }
            p += 1;
        }
        b += 1;
    }
    None
}

fn invalid_gep(f: &Function, dst: ValueId, index: Option<usize>, reason: &'static str) -> (r: VerifyError)
    ensures
        r matches VerifyError::InvalidGep { value, index: i, .. } && value == dst && i == index,
        blamed(r) == Some(f.name@),
{
    VerifyError::InvalidGep { func: f.name.clone(), value: dst, index, reason }
}

/// The checks of [`gep_ok`], index by index.
pub fn verify_gep(
    f: &Function,
    dst: ValueId,
    dst_ty: &Type,
    base: ValueId,
    indices: &Vec<ValueId>,
) -> (r: Result<(), VerifyError>)
    requires
        distinct_defs(*f),
    ensures
        r matches Err(e) ==> blamed(e) == Some(f.name@) && error_sound(*f, e),
        r is Ok <==> gep_ok(*f, dst_ty@, base, indices@),
{
    let base_ty = match f.value_type(base) {
        Some(t) => t,
        None => return Err(VerifyError::MissingValueType { func: f.name.clone(), value: base }),
    };
    proof {
        crate::ir::types::lemma_model_shape(*base_ty);
    }
    let mut selected = match base_ty {
        Type::Ptr(pointee) => {
            assert(base_ty@ == TypeModel::Ptr(Box::new((**pointee)@)));
            (**pointee).clone()
        },
        _ => return Err(invalid_gep(f, dst, None, "base must be a pointer")),
    };
    let ghost pointee = selected@;
    if indices.len() > 0 && !is_storable(&selected) {
        return Err(invalid_gep(f, dst, None, "element addressing requires a concrete stored type"));
    }
    let mut position: usize = 0;
    while position < indices.len()
        invariant
            distinct_defs(*f),
            type_of(*f, base) == Some(TypeModel::Ptr(Box::new(pointee))),
            indices@.len() > 0 ==> is_storable_model(pointee),
            0 <= position <= indices@.len(),
            forall|k: int|
                0 <= k < position ==> (type_of(*f, #[trigger] indices@[k]) matches Some(t)
                    && is_integer_model(t)),
            position == 0 ==> selected@ == pointee,
            position > 0 ==> gep_path(*f, pointee, element_path(indices@)) == gep_path(
                *f,
                selected@,
                indices@.subrange(position as int, indices@.len() as int),
            ),
        decreases indices.len() - position,
    {
        let value = indices[position];
        let ty = match f.value_type(value) {
            Some(t) => t,
            None => return Err(VerifyError::MissingValueType { func: f.name.clone(), value }),
        };
        if !is_integer(ty) {
            return Err(invalid_gep(f, dst, Some(position), "index must be an integer"));
        }
        if position == 0 {
            assert(indices@.drop_first() =~= indices@.subrange(1, indices@.len() as int));
            position += 1;
            continue;
        }
        let ghost rest = indices@.subrange(position as int, indices@.len() as int);
        assert(rest[0] == value);
        assert(rest.drop_first() =~= indices@.subrange(position + 1, indices@.len() as int));
        proof {
            crate::ir::types::lemma_model_shape(selected);
        }
        let next = match &selected {
            Type::Array(element, _) => {
                assert(selected@ == TypeModel::Array(Box::new((**element)@), selected@->Array_1));
                (**element).clone()
            },
            Type::Struct(fields) | Type::Tuple(fields) => {
                let ordinal = match find_ordinal(f, value) {
                    Some(o) => o,
                    None => {
                        return Err(
                            invalid_gep(
                                f,
                                dst,
                                Some(position),
                                "field index must be a nonnegative integer constant",
                            ),
                        );
                    },
                };
                if ordinal >= fields.len() {
                    proof {
                        if selected is Struct {
                            assert(selected@->Struct_0.len() == fields@.len());
                        } else {
                            assert(selected@->Tuple_0.len() == fields@.len());
                        }
                    }
                    return Err(
                        invalid_gep(f, dst, Some(position), "field index is outside the aggregate type"),
                    );
                }
                proof {
                    if selected is Struct {
                        assert(selected@->Struct_0.len() == fields@.len());
                        assert(selected@->Struct_0[ordinal as int] == fields@[ordinal as int]@);
                    } else {
                        assert(selected@->Tuple_0.len() == fields@.len());
                        assert(selected@->Tuple_0[ordinal as int] == fields@[ordinal as int]@);
                    }
                }
                fields[ordinal].clone()
            },
            _ => {
                return Err(
                    invalid_gep(
                        f,
                        dst,
                        Some(position),
                        "further indices require an array, struct, or tuple; GEP does not load pointers",
                    ),
                );
            },
        };
        selected = next;
        position += 1;
    }
    let expected = Type::ptr_to(selected);
    proof {
        if indices@.len() == 0 {
            assert(element_path(indices@).len() == 0);
        } else {
            assert(indices@.subrange(indices@.len() as int, indices@.len() as int).len() == 0);
        }
    }
    if !types_equal(dst_ty, &expected) {
        return Err(
            VerifyError::OperandTypeMismatch {
                func: f.name.clone(),
                value: dst,
                expected,
                got: dst_ty.clone(),
            },
        );
    }
    Ok(())
}

/// Which operand types a binary operation accepts.
pub open spec fn bin_category_ok(op: BinOp, t: TypeModel) -> bool {
    match op {
        BinOp::FAdd | BinOp::FSub | BinOp::FMul | BinOp::FDiv | BinOp::FRem => is_float_model(t),
        BinOp::SDiv | BinOp::SRem => is_signed_model(t),
        BinOp::UDiv | BinOp::URem => is_unsigned_model(t),
        _ => is_integer_model(t),
    }
}

/// Which operand types a comparison accepts.
pub open spec fn compare_category_ok(op: CmpOp, t: TypeModel) -> bool {
    match op {
        CmpOp::Eq | CmpOp::Ne => supports_equality_model(t),
        CmpOp::SLt | CmpOp::SLe | CmpOp::SGt | CmpOp::SGe => is_signed_model(t),
        CmpOp::ULt | CmpOp::ULe | CmpOp::UGt | CmpOp::UGe => is_unsigned_model(t),
        _ => is_float_model(t),
    }
}

/// Which operand types an integer comparison accepts.
pub open spec fn int_compare_category_ok(pred: ICmpPred, t: TypeModel) -> bool {
    match pred {
        ICmpPred::Eq | ICmpPred::Ne => supports_equality_model(t),
        ICmpPred::Slt | ICmpPred::Sle | ICmpPred::Sgt | ICmpPred::Sge => is_signed_model(t),
        _ => is_unsigned_model(t),
    }
}

/// A pointer to bytes.
pub open spec fn byte_ptr() -> TypeModel {
    TypeModel::Ptr(Box::new(TypeModel::U8))
}

/// The operands of an instruction have the category and type it requires;
/// memory operations have power-of-two alignments.
pub open spec fn operand_ok(f: Function, ins: Instruction) -> bool {
    match ins {
        Instruction::Bin { op, ty, lhs, rhs, .. } => bin_category_ok(op, ty@) && typed_as(f, lhs, ty@)
            && typed_as(f, rhs, ty@),
        Instruction::Not { ty, src, .. } => is_integer_model(ty@) && typed_as(f, src, ty@),
        Instruction::Mov { ty, src, .. } => is_storable_model(ty@) && typed_as(f, src, ty@),
        Instruction::Cmp { op, ty, lhs, rhs, .. } => compare_category_ok(op, ty@) && typed_as(f, lhs, ty@)
            && typed_as(f, rhs, ty@),
        Instruction::ICmp { pred, ty, lhs, rhs, .. } => int_compare_category_ok(pred, ty@) && typed_as(
            f,
            lhs,
            ty@,
        ) && typed_as(f, rhs, ty@),
        Instruction::FCmp { ty, lhs, rhs, .. } => is_float_model(ty@) && typed_as(f, lhs, ty@)
            && typed_as(f, rhs, ty@),
        Instruction::Select { ty, cond, on_true, on_false, .. } => typed_as(f, cond, TypeModel::Bool)
            && is_storable_model(ty@) && typed_as(f, on_true, ty@) && typed_as(f, on_false, ty@),
        Instruction::Alloca { ty, align, .. } => is_power_of_two(align) && is_storable_model(ty@),
        Instruction::Load { ty, ptr, align, .. } => is_power_of_two(align) && is_storable_model(ty@)
            && typed_as(f, ptr, TypeModel::Ptr(Box::new(ty@))),
        Instruction::Store { ty, ptr, value, align } => is_power_of_two(align) && is_storable_model(ty@)
            && typed_as(f, ptr, TypeModel::Ptr(Box::new(ty@))) && typed_as(f, value, ty@),
        Instruction::Gep { dst_ty, base_ptr, indices, .. } => gep_ok(f, dst_ty@, base_ptr, indices@),
        Instruction::Memcpy { dst, src, n, align } => is_power_of_two(align) && typed_as(f, dst, byte_ptr())
            && typed_as(f, src, byte_ptr()) && typed_as(f, n, TypeModel::U64),
        Instruction::Memset { dst, val, n, align } => is_power_of_two(align) && typed_as(f, dst, byte_ptr())
            && typed_as(f, val, TypeModel::U8) && typed_as(f, n, TypeModel::U64),
        _ => true,
    }
}

fn verify_type_category(f: &Function, operation: &'static str, ty: &Type, valid: bool) -> (r: Result<
    (),
    VerifyError,
>)
    ensures
        r matches Err(e) ==> blamed(e) == Some(f.name@) && error_sound(*f, e),
        r is Ok <==> valid,
{
    if valid {
        Ok(())
    } else {
        Err(VerifyError::InvalidInstructionType { func: f.name.clone(), operation, ty: ty.clone() })
    }
}

fn verify_alignment(f: &Function, align: u32) -> (r: Result<(), VerifyError>)
    ensures
        r matches Err(e) ==> blamed(e) == Some(f.name@) && error_sound(*f, e),
        r is Ok <==> is_power_of_two(align),
{
    if !power_of_two(align) {
        return Err(VerifyError::InvalidMemoryAlignment { func: f.name.clone(), align });
    }
    Ok(())
}

fn binary_category(op: BinOp, ty: &Type) -> (r: bool)
    ensures
        r == bin_category_ok(op, ty@),
{
    match op {
        BinOp::FAdd | BinOp::FSub | BinOp::FMul | BinOp::FDiv | BinOp::FRem => is_float(ty),
        BinOp::SDiv | BinOp::SRem => is_signed(ty),
        BinOp::UDiv | BinOp::URem => is_unsigned(ty),
        _ => is_integer(ty),
    }
}

fn supports_equality(ty: &Type) -> (r: bool)
    ensures
        r == supports_equality_model(ty@),
{
    proof {
        crate::ir::types::lemma_model_shape(*ty);
    }
    is_integer(ty) || matches!(ty, Type::Bool | Type::Ptr(_))
}

fn compare_category(op: CmpOp, ty: &Type) -> (r: bool)
    ensures
        r == compare_category_ok(op, ty@),
{
    match op {
        CmpOp::Eq | CmpOp::Ne => supports_equality(ty),
        CmpOp::SLt | CmpOp::SLe | CmpOp::SGt | CmpOp::SGe => is_signed(ty),
        CmpOp::ULt | CmpOp::ULe | CmpOp::UGt | CmpOp::UGe => is_unsigned(ty),
        _ => is_float(ty),
    }
}

fn int_compare_category(pred: ICmpPred, ty: &Type) -> (r: bool)
    ensures
        r == int_compare_category_ok(pred, ty@),
{
    match pred {
        ICmpPred::Eq | ICmpPred::Ne => supports_equality(ty),
        ICmpPred::Slt | ICmpPred::Sle | ICmpPred::Sgt | ICmpPred::Sge => is_signed(ty),
        _ => is_unsigned(ty),
    }
}

/// The checks of [`operand_ok`] for one instruction.
pub fn verify_instruction(f: &Function, ins: &Instruction) -> (r: Result<(), VerifyError>)
    requires
        distinct_defs(*f),
    ensures
        r matches Err(e) ==> blamed(e) == Some(f.name@) && error_sound(*f, e),
        r is Ok <==> operand_ok(*f, *ins),
{
    match ins {
        Instruction::Bin { op, ty, lhs, rhs, .. } => {
            verify_type_category(f, "binary operation", ty, binary_category(*op, ty))?;
            verify_operand(f, *lhs, ty)?;
            verify_operand(f, *rhs, ty)
        },
        Instruction::Not { ty, src, .. } => {
            verify_type_category(f, "not", ty, is_integer(ty))?;
            verify_operand(f, *src, ty)
        },
        Instruction::Mov { ty, src, .. } => {
            verify_type_category(f, "mov", ty, is_storable(ty))?;
            verify_operand(f, *src, ty)
        },
        Instruction::Cmp { op, ty, lhs, rhs, .. } => {
            verify_type_category(f, "comparison", ty, compare_category(*op, ty))?;
            verify_operand(f, *lhs, ty)?;
            verify_operand(f, *rhs, ty)
        },
        Instruction::ICmp { pred, ty, lhs, rhs, .. } => {
            verify_type_category(f, "integer comparison", ty, int_compare_category(*pred, ty))?;
            verify_operand(f, *lhs, ty)?;
            verify_operand(f, *rhs, ty)
        },
        Instruction::FCmp { ty, lhs, rhs, .. } => {
            verify_type_category(f, "floating comparison", ty, is_float(ty))?;
            verify_operand(f, *lhs, ty)?;
            verify_operand(f, *rhs, ty)
        },
        Instruction::Select { ty, cond, on_true, on_false, .. } => {
            verify_condition(f, *cond)?;
            verify_type_category(f, "select", ty, is_storable(ty))?;
            verify_operand(f, *on_true, ty)?;
            verify_operand(f, *on_false, ty)
        },
        Instruction::Alloca { ty, align, .. } => {
            verify_alignment(f, *align)?;
            verify_type_category(f, "alloca", ty, is_storable(ty))
        },
        Instruction::Load { ty, ptr, align, .. } => {
            verify_alignment(f, *align)?;
            verify_type_category(f, "load", ty, is_storable(ty))?;
            verify_operand(f, *ptr, &Type::ptr_to(ty.clone()))
        },
        Instruction::Store { ty, ptr, value, align } => {
            verify_alignment(f, *align)?;
            verify_type_category(f, "store", ty, is_storable(ty))?;
            verify_operand(f, *ptr, &Type::ptr_to(ty.clone()))?;
            verify_operand(f, *value, ty)
        },
        Instruction::Gep { dst, dst_ty, base_ptr, indices } => verify_gep(f, *dst, dst_ty, *base_ptr, indices),
        Instruction::Memcpy { dst, src, n, align } => {
            verify_alignment(f, *align)?;
            verify_operand(f, *dst, &Type::ptr_to(Type::U8))?;
            verify_operand(f, *src, &Type::ptr_to(Type::U8))?;
            verify_operand(f, *n, &Type::U64)
        },
        Instruction::Memset { dst, val, n, align } => {
            verify_alignment(f, *align)?;
            verify_operand(f, *dst, &Type::ptr_to(Type::U8))?;
            verify_operand(f, *val, &Type::U8)?;
            verify_operand(f, *n, &Type::U64)
        },
        _ => Ok(()),
    }
}

/// The integer comparison reads its operands as signed integers.
pub open spec fn pred_reads_signed(p: ICmpPred) -> bool {
    p is Slt || p is Sle || p is Sgt || p is Sge
}

/// The integer comparison reads its operands as unsigned integers.
pub open spec fn pred_reads_unsigned(p: ICmpPred) -> bool {
    p is Ult || p is Ule || p is Ugt || p is Uge
}

/// Integer comparison law: the operands of an integer comparison are
/// acceptable exactly when both have the comparison's type and that type is
/// of the kind the predicate reads: a signed integer type for a signed
/// ordering, an unsigned integer type for an unsigned ordering, and an
/// integer, boolean or pointer type for an equality test. So an unsigned
/// ordering of signed integers, or a signed ordering of unsigned ones, is
/// always refused.
pub proof fn lemma_integer_compare_kinds(
    f: Function,
    dst: ValueId,
    pred: ICmpPred,
    ty: Type,
    lhs: ValueId,
    rhs: ValueId,
)
    ensures
        operand_ok(f, Instruction::ICmp { dst, pred, ty, lhs, rhs }) <==> {
            &&& typed_as(f, lhs, ty@)
            &&& typed_as(f, rhs, ty@)
            &&& pred_reads_signed(pred) ==> is_signed_model(ty@)
            &&& pred_reads_unsigned(pred) ==> is_unsigned_model(ty@)
            &&& !pred_reads_signed(pred) && !pred_reads_unsigned(pred) ==> supports_equality_model(ty@)
        },
        pred_reads_unsigned(pred) && is_signed_model(ty@) ==> !operand_ok(f, Instruction::ICmp { dst, pred, ty, lhs, rhs }),
        pred_reads_signed(pred) && is_unsigned_model(ty@) ==> !operand_ok(f, Instruction::ICmp { dst, pred, ty, lhs, rhs }),
{
}

/// Comparison agreement law: the IR comparison that a source comparison
/// lowers to at a type is one the verifier accepts at that type.
pub proof fn lemma_lowered_compare_accepted(op: crate::ir::lower_ast::frontend::CmpOpRef, ty: TypeModel)
    ensures
        crate::ir::lower_ast::support::map_compare_spec(op, ty) matches Some(c) ==> compare_category_ok(c, ty),
{
}

} // verus!
