//! What instructions define and use, and where a function defines its values.
use vstd::prelude::*;
use crate::ir::const_expr::{ConstRef, references_spec};
use crate::ir::module::{Function, Instruction, Terminator, value_type_spec};
use crate::ir::types::{BlockId, ConstValue, TypeModel, ValueId, is_integer_model};

verus! {

/// The value an instruction defines, with its type.
pub open spec fn instr_result_spec(ins: Instruction) -> Option<(ValueId, TypeModel)> {
    match ins {
        Instruction::ConstDecl { dst, expression, .. } => Some((dst, expression.ty@)),
        Instruction::Const { dst, ty, .. } => Some((dst, ty@)),
        Instruction::Undef { dst, ty } => Some((dst, ty@)),
        Instruction::Mov { dst, ty, .. } => Some((dst, ty@)),
        Instruction::Bin { dst, ty, .. } => Some((dst, ty@)),
        Instruction::Not { dst, ty, .. } => Some((dst, ty@)),
        Instruction::Select { dst, ty, .. } => Some((dst, ty@)),
        Instruction::Phi { dst, ty, .. } => Some((dst, ty@)),
        Instruction::Load { dst, ty, .. } => Some((dst, ty@)),
        Instruction::Cmp { dst, .. } => Some((dst, TypeModel::Bool)),
        Instruction::ICmp { dst, .. } => Some((dst, TypeModel::Bool)),
        Instruction::FCmp { dst, .. } => Some((dst, TypeModel::Bool)),
        Instruction::Cast { dst, dst_ty, .. } => Some((dst, dst_ty@)),
        Instruction::Extract { dst, dst_ty, .. } => Some((dst, dst_ty@)),
        Instruction::Gep { dst, dst_ty, .. } => Some((dst, dst_ty@)),
        Instruction::Checked { dst, ty, .. } => Some(
            (dst, TypeModel::Tuple(seq![ty@, TypeModel::Bool])),
        ),
        Instruction::Alloca { dst, ty, .. } => Some((dst, TypeModel::Ptr(Box::new(ty@)))),
        Instruction::Call { dst, ret_ty, .. } => match dst {
            Some(v) => Some((v, ret_ty@)),
            None => None,
        },
        Instruction::Store { .. } | Instruction::Memcpy { .. } | Instruction::Memset { .. }
        | Instruction::TrapIf { .. } => None,
    }
}

/// The function-local identities among constant references, in order.
pub open spec fn local_refs(refs: Seq<ConstRef>) -> Seq<ValueId>
    decreases refs.len(),
{
    if refs.len() == 0 {
        seq![]
    } else {
        let rest = local_refs(refs.drop_last());
        match refs.last() {
            ConstRef::Local(v) => rest.push(v),
            ConstRef::Global(_) => rest,
        }
    }
}

/// The values an instruction reads, in operand order.
pub open spec fn instr_uses_spec(ins: Instruction) -> Seq<ValueId> {
    match ins {
        Instruction::ConstDecl { expression, .. } => local_refs(references_spec(expression@)),
        Instruction::Const { .. } | Instruction::Undef { .. } | Instruction::Alloca { .. } => seq![],
        Instruction::Mov { src, .. } | Instruction::Not { src, .. } | Instruction::Cast {
            src,
            ..
        } => seq![src],
        Instruction::Bin { lhs, rhs, .. } | Instruction::Cmp { lhs, rhs, .. }
        | Instruction::ICmp { lhs, rhs, .. } | Instruction::FCmp { lhs, rhs, .. }
        | Instruction::Checked { lhs, rhs, .. } => seq![lhs, rhs],
        Instruction::Select { cond, on_true, on_false, .. } => seq![cond, on_true, on_false],
        Instruction::Phi { incomings, .. } => incomings@.map_values(
            |p: (ValueId, BlockId)| p.0,
        ),
        Instruction::Extract { tuple, .. } => seq![tuple],
        Instruction::Load { ptr, .. } => seq![ptr],
        Instruction::Store { value, ptr, .. } => seq![value, ptr],
        Instruction::Gep { base_ptr, indices, .. } => seq![base_ptr] + indices@,
        Instruction::Memcpy { dst, src, n, .. } => seq![dst, src, n],
        Instruction::Memset { dst, val, n, .. } => seq![dst, val, n],
        Instruction::Call { args, .. } => args@,
        Instruction::TrapIf { cond, .. } => seq![cond],
    }
}

/// `(b, p)` names an instruction of `f`: block `b`, position `p`.
pub open spec fn is_site(f: Function, b: int, p: int) -> bool {
    0 <= b < f.blocks@.len() && 0 <= p < f.blocks@[b].instructions@.len()
}

pub open spec fn ins_at(f: Function, b: int, p: int) -> Instruction {
    f.blocks@[b].instructions@[p]
}

/// `ins` defines the value `v`.
pub open spec fn defines(ins: Instruction, v: ValueId) -> bool {
    instr_result_spec(ins) matches Some(d) && d.0 == v
}

/// The identity an instruction defines (meaningful when it defines one).
pub open spec fn result_id(ins: Instruction) -> ValueId {
    instr_result_spec(ins).unwrap().0
}

/// `v` is the identity of a parameter of `f`.
pub open spec fn is_param(f: Function, v: ValueId) -> bool {
    exists|i: int| 0 <= i < f.params@.len() && #[trigger] f.params@[i].id == v
}

/// `v` is a parameter or the result of some instruction of `f`.
pub open spec fn is_defined(f: Function, v: ValueId) -> bool {
    is_param(f, v) || exists|b: int, p: int| is_site(f, b, p) && defines(#[trigger] ins_at(f, b, p), v)
}

/// No two blocks share an identity.
pub open spec fn distinct_blocks(f: Function) -> bool {
    forall|i: int, j: int|
        0 <= i < f.blocks@.len() && 0 <= j < f.blocks@.len() && i != j ==> #[trigger] f.blocks@[i].id
            != #[trigger] f.blocks@[j].id
}

/// Some block has identity `id`.
pub open spec fn has_block(f: Function, id: BlockId) -> bool {
    exists|i: int| 0 <= i < f.blocks@.len() && #[trigger] f.blocks@[i].id == id
}

/// Every value is defined at most once: by one parameter or by one instruction.
pub open spec fn distinct_defs(f: Function) -> bool {
    &&& forall|i: int, j: int|
        0 <= i < f.params@.len() && 0 <= j < f.params@.len() && i != j ==> #[trigger] f.params@[i].id
            != #[trigger] f.params@[j].id
    &&& forall|i: int, b: int, p: int|
        0 <= i < f.params@.len() && is_site(f, b, p) ==> !defines(
            #[trigger] ins_at(f, b, p),
            #[trigger] f.params@[i].id,
        )
    &&& forall|b1: int, p1: int, b2: int, p2: int|
        is_site(f, b1, p1) && is_site(f, b2, p2) && (b1 != b2 || p1 != p2) && instr_result_spec(
            ins_at(f, b1, p1),
        ) is Some ==> !defines(
            #[trigger] ins_at(f, b2, p2),
            result_id(#[trigger] ins_at(f, b1, p1)),
        )
}

/// No parameter is void.
pub open spec fn params_not_void(f: Function) -> bool {
    forall|i: int| 0 <= i < f.params@.len() ==> !(#[trigger] f.params@[i].ty@ is Void)
}

/// The type recorded for a value in the function's table.
pub open spec fn type_of(f: Function, v: ValueId) -> Option<TypeModel> {
    match value_type_spec(f.value_types@, v) {
        Some(t) => Some(t@),
        None => None,
    }
}

/// `v` has a recorded type, equal to `expected`.
pub open spec fn typed_as(f: Function, v: ValueId, expected: TypeModel) -> bool {
    type_of(f, v) == Some(expected)
}

/// A type whose values can be stored: not void, and no void inside aggregates.
pub open spec fn is_storable_model(t: TypeModel) -> bool
    decreases t,
{
    match t {
        TypeModel::Void => false,
        TypeModel::Array(e, _) => is_storable_model(*e),
        TypeModel::Struct(fs) => all_storable(fs),
        TypeModel::Tuple(fs) => all_storable(fs),
        _ => true,
    }
}

/// Every type of the list is storable.
pub open spec fn all_storable(fs: Seq<TypeModel>) -> bool
    decreases fs,
{
    if fs.len() == 0 {
        true
    } else {
        all_storable(fs.drop_last()) && is_storable_model(fs.last())
    }
}

/// Types that `==` and `!=` compare: integers, booleans and pointers.
pub open spec fn supports_equality_model(t: TypeModel) -> bool {
    is_integer_model(t) || t is Bool || t is Ptr
}

/// The branch destinations of a terminator, with repetitions.
pub open spec fn targets_spec(t: Terminator) -> Seq<BlockId> {
    match t {
        Terminator::Br { target } => seq![target],
        Terminator::CBr { then_bb, else_bb, .. } => seq![then_bb, else_bb],
        Terminator::Switch { default_bb, cases, .. } => seq![default_bb] + cases@.map_values(
            |c: (ConstValue, BlockId)| c.1,
        ),
        Terminator::Ret { .. } | Terminator::Trap { .. } => seq![],
    }
}

/// The value a terminator reads, if any.
pub open spec fn terminator_use_spec(t: Terminator) -> Option<ValueId> {
    match t {
        Terminator::CBr { cond, .. } => Some(cond),
        Terminator::Switch { value, .. } => Some(value),
        Terminator::Ret { value, .. } => value,
        Terminator::Br { .. } | Terminator::Trap { .. } => None,
    }
}

} // verus!
