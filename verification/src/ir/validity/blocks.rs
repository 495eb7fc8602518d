//! Per-block checks that need no control-flow graph: termination, branch
//! targets, defined uses, literal constants, conditions, switches and returns.
use vstd::prelude::*;
use crate::ir::constant::{valid_constant, valid_constant_spec};
use crate::ir::module::{Function, Instruction, Terminator};
use crate::ir::types::{
    BlockId, ConstValue, Type, TypeModel, ValueId, is_integer, is_integer_model, types_equal,
};
use crate::ir::validity::VerifyError;
use crate::ir::validity::facts::{has_block, ins_at, instr_uses_spec, is_defined, is_site, targets_spec, typed_as, type_of};
use crate::ir::validity::structure::{contains_value, instr_uses};

use crate::ir::validity::{blamed, error_sound};

verus! {

/// Every value the instruction reads is defined; a literal fits its type; a
/// selection or trap condition is a boolean.
pub open spec fn instr_basic_ok(f: Function, ins: Instruction) -> bool {
    &&& forall|k: int|
        0 <= k < instr_uses_spec(ins).len() ==> is_defined(f, #[trigger] instr_uses_spec(ins)[k])
    &&& match ins {
        Instruction::Const { ty, value, .. } => valid_constant_spec(ty@, value),
        Instruction::Select { cond, .. } => typed_as(f, cond, TypeModel::Bool),
        Instruction::TrapIf { cond, .. } => typed_as(f, cond, TypeModel::Bool),
        _ => true,
    }
}

/// What a terminator reads is defined and well typed; switch keys are distinct
/// constants of the scrutinee type; a return matches the function's result type.
pub open spec fn terminator_ok(f: Function, t: Terminator) -> bool {
    match t {
        Terminator::Br { .. } | Terminator::Trap { .. } => true,
        Terminator::CBr { cond, .. } => is_defined(f, cond) && typed_as(f, cond, TypeModel::Bool),
        Terminator::Switch { ty, value, cases, .. } => switch_ok(f, ty@, value, cases@),
        Terminator::Ret { ty, value } => ty@ == f.ret_ty@ && match value {
            Some(v) => is_defined(f, v) && !(f.ret_ty@ is Void) && typed_as(f, v, f.ret_ty@),
            None => f.ret_ty@ is Void,
        },
    }
}

/// The scrutinee is a defined integer or boolean of the switch type; the keys
/// are distinct constants of that type.
pub open spec fn switch_ok(f: Function, ty: TypeModel, value: ValueId, cases: Seq<(ConstValue, BlockId)>) -> bool {
    &&& is_defined(f, value)
    &&& (is_integer_model(ty) || ty is Bool)
    &&& typed_as(f, value, ty)
    &&& forall|i: int| 0 <= i < cases.len() ==> valid_constant_spec(ty, #[trigger] cases[i].0)
    &&& forall|i: int, j: int| 0 <= i < j < cases.len() ==> #[trigger] cases[i].0 != #[trigger] cases[j].0
}

/// Block `b` is terminated, branches to existing blocks, and passes the checks above.
pub open spec fn block_ok(f: Function, b: int) -> bool {
    let blk = f.blocks@[b];
    &&& blk.terminator is Some
    &&& forall|k: int|
        0 <= k < targets_spec(blk.terminator.unwrap()).len() ==> has_block(
            f,
            #[trigger] targets_spec(blk.terminator.unwrap())[k],
        )
    &&& forall|p: int|
        0 <= p < blk.instructions@.len() ==> instr_basic_ok(f, #[trigger] blk.instructions@[p])
    &&& terminator_ok(f, blk.terminator.unwrap())
}

/// How a condition that is not a recorded boolean is reported: as missing a
/// type, or with the type it has.
pub open spec fn condition_reported(f: Function, cond: ValueId, e: VerifyError) -> bool {
    match type_of(f, cond) {
        None => e matches VerifyError::MissingValueType { value, .. } && value == cond,
        Some(t) => e matches VerifyError::ConditionTypeMismatch { value, got, .. } && value == cond && got@ == t,
    }
}

/// How a failing instruction whose operands are all defined is reported: a
/// literal with the literal's identity, type and payload; a selection or trap
/// by its condition.
pub open spec fn instruction_reported(f: Function, ins: Instruction, e: VerifyError) -> bool {
    (forall|k: int| 0 <= k < instr_uses_spec(ins).len() ==> is_defined(f, #[trigger] instr_uses_spec(ins)[k]))
        ==> match ins {
        Instruction::Const { dst, ty, value } => e matches VerifyError::InvalidConstant { value: v, ty: t, payload, .. }
            && v == dst && t@ == ty@ && payload == value,
        Instruction::Select { cond, .. } => condition_reported(f, cond, e),
        Instruction::TrapIf { cond, .. } => condition_reported(f, cond, e),
        _ => true,
    }
}

/// The first instruction of block `b` that fails its checks is at `p`.
pub open spec fn first_failing_instruction(f: Function, b: int, p: int) -> bool {
    let ins = f.blocks@[b].instructions@;
    &&& 0 <= p < ins.len()
    &&& !instr_basic_ok(f, ins[p])
    &&& forall|q: int| 0 <= q < p ==> instr_basic_ok(f, #[trigger] ins[q])
}

/// How block `b`, terminated and branching to existing blocks, reports its
/// first broken rule: the first failing instruction as above; with every
/// instruction in order, a conditional branch on a defined value by its
/// condition.
pub open spec fn block_reported(f: Function, b: int, e: VerifyError) -> bool {
    let blk = f.blocks@[b];
    (blk.terminator is Some && forall|k: int|
        0 <= k < targets_spec(blk.terminator.unwrap()).len() ==> has_block(
            f,
            #[trigger] targets_spec(blk.terminator.unwrap())[k],
        )) ==> {
        &&& forall|p: int| #[trigger] first_failing_instruction(f, b, p) ==> instruction_reported(f, blk.instructions@[p], e)
        &&& (forall|p: int| 0 <= p < blk.instructions@.len() ==> instr_basic_ok(f, #[trigger] blk.instructions@[p]))
            ==> match blk.terminator.unwrap() {
            Terminator::CBr { cond, .. } => is_defined(f, cond) ==> condition_reported(f, cond, e),
            _ => true,
        }
    }
}

/// The first block with identity `id`.
pub fn find_block(f: &Function, id: BlockId) -> (r: Option<usize>)
    ensures
        match r {
            Some(i) => i < f.blocks@.len() && f.blocks@[i as int].id == id && forall|j: int|
                0 <= j < i ==> #[trigger] f.blocks@[j].id != id,
            None => !has_block(*f, id),
        },
{
    let mut i: usize = 0;
    while i < f.blocks.len()
        invariant
            0 <= i <= f.blocks.len(),
            forall|j: int| 0 <= j < i ==> #[trigger] f.blocks@[j].id != id,
        decreases f.blocks.len() - i,
    {
        if f.blocks[i].id == id {
            return Some(i);
        }
        i += 1;
    }
    None
}

/// `value` has a recorded type and it is `expected`.
pub fn verify_operand(f: &Function, value: ValueId, expected: &Type) -> (r: Result<(), VerifyError>)
    ensures
        r matches Err(e) ==> blamed(e) == Some(f.name@) && error_sound(*f, e),
        r is Ok <==> typed_as(*f, value, expected@),
        r matches Err(e) ==> match type_of(*f, value) {
            None => e matches VerifyError::MissingValueType { value: v, .. } && v == value,
            Some(t) => e matches VerifyError::OperandTypeMismatch { value: v, expected: x, got, .. }
                && v == value && x@ == expected@ && got@ == t,
        },
{
    match f.value_type(value) {
        None => Err(VerifyError::MissingValueType { func: f.name.clone(), value }),
        Some(got) => {
            if types_equal(got, expected) {
                Ok(())
            } else {
                Err(
                    VerifyError::OperandTypeMismatch {
                        func: f.name.clone(),
                        value,
                        expected: expected.clone(),
                        got: got.clone(),
                    },
                )
            }
        },
    }
}

/// A branch, selection or trap condition has the boolean type.
pub fn verify_condition(f: &Function, value: ValueId) -> (r: Result<(), VerifyError>)
    ensures
        r matches Err(e) ==> blamed(e) == Some(f.name@) && error_sound(*f, e),
        r is Ok <==> typed_as(*f, value, TypeModel::Bool),
        r matches Err(e) ==> match type_of(*f, value) {
            None => e matches VerifyError::MissingValueType { value: v, .. } && v == value,
            Some(t) => e matches VerifyError::ConditionTypeMismatch { value: v, got, .. } && v
                == value && got@ == t,
        },
{
    match f.value_type(value) {
        None => Err(VerifyError::MissingValueType { func: f.name.clone(), value }),
        Some(got) => {
            proof {
                crate::ir::types::lemma_model_shape(*got);
            }
            if matches!(got, Type::Bool) {
                Ok(())
            } else {
                Err(VerifyError::ConditionTypeMismatch { func: f.name.clone(), value, got: got.clone() })
            }
        },
    }
}

fn check_target(f: &Function, block: BlockId, target: BlockId) -> (r: Result<(), VerifyError>)
    ensures
        r matches Err(e) ==> blamed(e) == Some(f.name@) && error_sound(*f, e),
        r is Ok <==> has_block(*f, target),
        r matches Err(e) ==> e matches VerifyError::InvalidBranchTarget { target: t, .. } && t
            == target,
{
    match find_block(f, target) {
        Some(_) => Ok(()),
        None => Err(VerifyError::InvalidBranchTarget { func: f.name.clone(), block, target }),
    }
}

fn check_targets(f: &Function, block: BlockId, t: &Terminator) -> (r: Result<(), VerifyError>)
    ensures
        r matches Err(e) ==> blamed(e) == Some(f.name@) && error_sound(*f, e),
        r is Ok <==> forall|k: int|
            0 <= k < targets_spec(*t).len() ==> has_block(*f, #[trigger] targets_spec(*t)[k]),
{
    match t {
        Terminator::Br { target } => {
            assert(targets_spec(*t)[0] == *target);
            check_target(f, block, *target)
        },
        Terminator::CBr { then_bb, else_bb, .. } => {
            assert(targets_spec(*t)[0] == *then_bb);
            assert(targets_spec(*t)[1] == *else_bb);
            check_target(f, block, *then_bb)?;
            check_target(f, block, *else_bb)
        },
        Terminator::Switch { default_bb, cases, .. } => {
            let ghost ts = targets_spec(*t);
            assert(ts[0] == *default_bb);
            check_target(f, block, *default_bb)?;
            let mut i: usize = 0;
            while i < cases.len()
                invariant
                    0 <= i <= cases.len(),
                    ts == targets_spec(*t),
                    ts == seq![*default_bb] + cases@.map_values(|c: (ConstValue, BlockId)| c.1),
                    forall|k: int| 0 <= k < i + 1 ==> has_block(*f, #[trigger] ts[k]),
                decreases cases.len() - i,
            {
                assert(ts[i + 1] == cases@[i as int].1);
                check_target(f, block, cases[i].1)?;
                i += 1;
            }
            assert(ts.len() == cases@.len() + 1);
            Ok(())
        },
        Terminator::Ret { .. } | Terminator::Trap { .. } => Ok(()),
    }
}

fn check_instruction(f: &Function, ins: &Instruction, defined: &Vec<ValueId>) -> (r: Result<
    (),
    VerifyError,
>)
    requires
        forall|v: ValueId| defined@.contains(v) <==> is_defined(*f, v),
        exists|b: int, p: int| is_site(*f, b, p) && ins_at(*f, b, p) == *ins,
    ensures
        r matches Err(e) ==> blamed(e) == Some(f.name@) && error_sound(*f, e),
        r is Ok <==> instr_basic_ok(*f, *ins),
        r matches Err(e) ==> instruction_reported(*f, *ins, e),
{
    let uses = instr_uses(ins);
    let mut k: usize = 0;
    while k < uses.len()
        invariant
            0 <= k <= uses.len(),
            uses@ == instr_uses_spec(*ins),
            forall|v: ValueId| defined@.contains(v) <==> is_defined(*f, v),
            forall|j: int| 0 <= j < k ==> is_defined(*f, #[trigger] uses@[j]),
        decreases uses.len() - k,
    {
        if !contains_value(defined, uses[k]) {
            return Err(VerifyError::UseOfUndefinedValue { func: f.name.clone(), value: uses[k] });
        }
        k += 1;
    }
    match ins {
        Instruction::Const { dst, ty, value } => {
            if !valid_constant(ty, value) {
                return Err(
                    VerifyError::InvalidConstant {
                        func: f.name.clone(),
                        value: *dst,
                        ty: ty.clone(),
                        payload: *value,
                    },
                );
            }
            Ok(())
        },
        Instruction::Select { cond, .. } | Instruction::TrapIf { cond, .. } => verify_condition(f, *cond),
        _ => Ok(()),
    }
}

fn check_switch(
    f: &Function,
    block: BlockId,
    ty: &Type,
    value: ValueId,
    cases: &Vec<(ConstValue, BlockId)>,
    defined: &Vec<ValueId>,
) -> (r: Result<(), VerifyError>)
    requires
        forall|v: ValueId| defined@.contains(v) <==> is_defined(*f, v),
    ensures
        r matches Err(e) ==> blamed(e) == Some(f.name@) && error_sound(*f, e),
        r is Ok <==> switch_ok(*f, ty@, value, cases@),
{
    if !contains_value(defined, value) {
        return Err(VerifyError::UseOfUndefinedValue { func: f.name.clone(), value });
    }
    proof {
        crate::ir::types::lemma_model_shape(*ty);
    }
    if !(is_integer(ty) || matches!(ty, Type::Bool)) {
        return Err(
            VerifyError::InvalidInstructionType {
                func: f.name.clone(),
                operation: "switch",
                ty: ty.clone(),
            },
        );
    }
    verify_operand(f, value, ty)?;
    let mut i: usize = 0;
    while i < cases.len()
        invariant
            0 <= i <= cases.len(),
            is_defined(*f, value),
            is_integer_model(ty@) || ty@ is Bool,
            typed_as(*f, value, ty@),
            forall|k: int| 0 <= k < i ==> valid_constant_spec(ty@, #[trigger] cases@[k].0),
            forall|a: int, b: int| 0 <= a < b < i ==> #[trigger] cases@[a].0 != #[trigger] cases@[b].0,
        decreases cases.len() - i,
    {
        if !valid_constant(ty, &cases[i].0) {
            assert(!valid_constant_spec(ty@, cases@[i as int].0));
            return Err(VerifyError::InvalidSwitchCase { func: f.name.clone(), block, index: i });
        }
        let mut j: usize = 0;
        while j < i
            invariant
                0 <= j <= i < cases.len(),
                forall|k: int| 0 <= k < j ==> #[trigger] cases@[k].0 != cases@[i as int].0,
            decreases i - j,
        {
            if cases[j].0 == cases[i].0 {
                assert(cases@[j as int].0 == cases@[i as int].0);
                return Err(VerifyError::DuplicateSwitchCase { func: f.name.clone(), block, index: i });
            }
            j += 1;
        }
        i += 1;
    }
    Ok(())
}

fn check_return(f: &Function, ty: &Type, value: Option<ValueId>, defined: &Vec<ValueId>) -> (r:
    Result<(), VerifyError>)
    requires
        forall|v: ValueId| defined@.contains(v) <==> is_defined(*f, v),
    ensures
        r matches Err(e) ==> blamed(e) == Some(f.name@) && error_sound(*f, e),
        r is Ok <==> terminator_ok(*f, Terminator::Ret { ty: *ty, value }),
{
    if !types_equal(ty, &f.ret_ty) {
        return Err(
            VerifyError::RetTypeMismatch {
                func: f.name.clone(),
                expected: f.ret_ty.clone(),
                got: Some(ty.clone()),
            },
        );
    }
    proof {
        crate::ir::types::lemma_model_shape(f.ret_ty);
    }
    match value {
        Some(v) => {
            if !contains_value(defined, v) {
                return Err(VerifyError::UseOfUndefinedValue { func: f.name.clone(), value: v });
            }
            let value_ty = match f.value_type(v) {
                Some(t) => t,
                None => return Err(VerifyError::MissingValueType { func: f.name.clone(), value: v }),
            };
            if matches!(f.ret_ty, Type::Void) || !types_equal(value_ty, &f.ret_ty) {
                return Err(
                    VerifyError::RetTypeMismatch {
                        func: f.name.clone(),
                        expected: f.ret_ty.clone(),
                        got: Some(value_ty.clone()),
                    },
                );
            }
            Ok(())
        },
        None => {
            if !matches!(f.ret_ty, Type::Void) {
                return Err(
                    VerifyError::RetTypeMismatch {
                        func: f.name.clone(),
                        expected: f.ret_ty.clone(),
                        got: None,
                    },
                );
            }
            Ok(())
        },
    }
}

/// The checks of [`block_ok`] on block `b`, in the order: termination, targets,
/// instructions, terminator.
pub fn check_block(f: &Function, b: usize, defined: &Vec<ValueId>) -> (r: Result<(), VerifyError>)
    requires
        b < f.blocks@.len(),
        forall|v: ValueId| defined@.contains(v) <==> is_defined(*f, v),
    ensures
        r matches Err(e) ==> blamed(e) == Some(f.name@) && error_sound(*f, e),
        r is Ok <==> block_ok(*f, b as int),
        r matches Err(e) ==> block_reported(*f, b as int, e),
{
    let blk = &f.blocks[b];
    let terminator = match &blk.terminator {
        Some(t) => t,
        None => return Err(VerifyError::UnterminatedBlock { func: f.name.clone(), block: blk.name.clone() }),
    };
    check_targets(f, blk.id, terminator)?;
    let mut p: usize = 0;
    while p < blk.instructions.len()
        invariant
            0 <= p <= blk.instructions@.len(),
            b < f.blocks@.len(),
            *blk == f.blocks@[b as int],
            forall|v: ValueId| defined@.contains(v) <==> is_defined(*f, v),
            forall|q: int| 0 <= q < p ==> instr_basic_ok(*f, #[trigger] blk.instructions@[q]),
        decreases blk.instructions@.len() - p,
    {
        assert(is_site(*f, b as int, p as int) && ins_at(*f, b as int, p as int) == blk.instructions@[p as int]);
        check_instruction(f, &blk.instructions[p], defined)?;
        p += 1;
    }
    match terminator {
        Terminator::Br { .. } | Terminator::Trap { .. } => Ok(()),
        Terminator::CBr { cond, .. } => {
            if !contains_value(defined, *cond) {
                return Err(VerifyError::UseOfUndefinedValue { func: f.name.clone(), value: *cond });
            }
            verify_condition(f, *cond)
        },
        Terminator::Switch { ty, value, default_bb, cases } => {
            check_switch(f, blk.id, ty, *value, cases, defined)
        },
        Terminator::Ret { ty, value } => check_return(f, ty, *value, defined),
    }
}

} // verus!
