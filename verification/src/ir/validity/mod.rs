//! Structural, typing, constant and SSA checks of a whole module.
use vstd::prelude::*;
use crate::ir::const_expr::{ConstBinding, ConstEvalError, ConstRef};
use crate::ir::constant::{valid_constant, valid_constant_spec};
use crate::ir::module::{Function, Instruction, Module};
use crate::ir::types::{BlockId, ConstValue, Type, TypeModel, ValueId};
use crate::target::{Target, TargetError, target_layout, target_name};
use crate::ir::validity::blocks::{block_ok, block_reported, check_block};
use crate::ir::validity::cfg::{cfg_ok, verify_cfg};
use crate::ir::validity::constants::{
    global_bindings, global_env, globals_consts_ok, globals_results_open, locals_consts_ok, verify_globals,
    verify_locals,
};
use crate::ir::validity::facts::{
    distinct_blocks, distinct_defs, has_block, ins_at, instr_result_spec, is_site, params_not_void, type_of,
};
use crate::ir::validity::cfg::{edge, entry_index};
use crate::ir::validity::operands::{is_power_of_two, operand_ok, power_of_two, verify_instruction};
use crate::ir::validity::structure::{check_blocks, collect_defs};
use crate::ir::validity::types_table::{table_reported, value_types_ok, verify_value_types};

pub mod blocks;
pub mod block_order;
pub mod cfg;
pub mod constants;
pub mod facts;
pub mod operands;
pub mod order;
pub mod permutation;
pub mod structure;
pub mod table_order;
pub mod types_table;

verus! {

/// Why a module is not valid IR.
#[derive(Debug)]
pub enum VerifyError {
    Target(TargetError),
    InvalidConstExpression { scope: String, declaration: ConstRef, reason: ConstEvalError },
    NonDominatingValue { func: String, value: ValueId, block: BlockId },
    InvalidPhi { func: String, block: BlockId, value: ValueId, reason: &'static str },
    InvalidGep { func: String, value: ValueId, index: Option<usize>, reason: &'static str },
    InvalidInstructionType { func: String, operation: &'static str, ty: Type },
    OperandTypeMismatch { func: String, value: ValueId, expected: Type, got: Type },
    InvalidMemoryAlignment { func: String, align: u32 },
    InvalidSwitchCase { func: String, block: BlockId, index: usize },
    DuplicateSwitchCase { func: String, block: BlockId, index: usize },
    DuplicateFunction { name: String },
    DuplicateGlobal { name: String },
    InvalidConstant { func: String, value: ValueId, ty: Type, payload: ConstValue },
    InvalidGlobalInitializer { name: String, ty: Type, payload: ConstValue },
    InvalidGlobalAlignment { name: String, align: u32 },
    ConditionTypeMismatch { func: String, value: ValueId, got: Type },
    DuplicateBlock { func: String, block: BlockId },
    DuplicateValue { func: String, value: ValueId },
    DuplicateValueType { func: String, value: ValueId },
    UnexpectedValueType { func: String, value: ValueId },
    ValueTypeMismatch { func: String, value: ValueId, expected: Type, got: Type },
    InvalidEntryBlock { func: String, entry: BlockId },
    EntryHasPredecessor { func: String, entry: BlockId, predecessor: BlockId },
    InvalidBranchTarget { func: String, block: BlockId, target: BlockId },
    MissingValueType { func: String, value: ValueId },
    VoidParameter { func: String, param: String },
    UnterminatedBlock { func: String, block: String },
    RetTypeMismatch { func: String, expected: Type, got: Option<Type> },
    UseOfUndefinedValue { func: String, value: ValueId },
}

/// The function, or the constant scope, that an error is about; none for
/// the target, module-constant and function-name errors checked first.
pub open spec fn blamed(e: VerifyError) -> Option<Seq<char>> {
    match e {
        VerifyError::InvalidConstExpression { scope, .. } => Some(scope@),
        VerifyError::NonDominatingValue { func, .. } => Some(func@),
        VerifyError::InvalidPhi { func, .. } => Some(func@),
        VerifyError::InvalidGep { func, .. } => Some(func@),
        VerifyError::InvalidInstructionType { func, .. } => Some(func@),
        VerifyError::OperandTypeMismatch { func, .. } => Some(func@),
        VerifyError::InvalidMemoryAlignment { func, .. } => Some(func@),
        VerifyError::InvalidSwitchCase { func, .. } => Some(func@),
        VerifyError::DuplicateSwitchCase { func, .. } => Some(func@),
        VerifyError::InvalidConstant { func, .. } => Some(func@),
        VerifyError::ConditionTypeMismatch { func, .. } => Some(func@),
        VerifyError::DuplicateBlock { func, .. } => Some(func@),
        VerifyError::DuplicateValue { func, .. } => Some(func@),
        VerifyError::DuplicateValueType { func, .. } => Some(func@),
        VerifyError::UnexpectedValueType { func, .. } => Some(func@),
        VerifyError::ValueTypeMismatch { func, .. } => Some(func@),
        VerifyError::InvalidEntryBlock { func, .. } => Some(func@),
        VerifyError::EntryHasPredecessor { func, .. } => Some(func@),
        VerifyError::InvalidBranchTarget { func, .. } => Some(func@),
        VerifyError::MissingValueType { func, .. } => Some(func@),
        VerifyError::VoidParameter { func, .. } => Some(func@),
        VerifyError::UnterminatedBlock { func, .. } => Some(func@),
        VerifyError::RetTypeMismatch { func, .. } => Some(func@),
        VerifyError::UseOfUndefinedValue { func, .. } => Some(func@),
        VerifyError::Target(_) | VerifyError::DuplicateFunction { .. } | VerifyError::DuplicateGlobal { .. }
        | VerifyError::InvalidGlobalInitializer { .. } | VerifyError::InvalidGlobalAlignment { .. } => None,
    }
}

/// `ins` is the literal `payload` of type `ty` defining `value`.
pub open spec fn literal_is(ins: Instruction, value: ValueId, ty: TypeModel, payload: ConstValue) -> bool {
    ins matches Instruction::Const { dst, ty: t, value: v } && dst == value && t@ == ty && v == payload
}

/// What an error says of function `f` holds of it: an invalid literal is an
/// instruction of `f` with that payload and type; a condition of another type
/// than boolean has the reported type; a value recorded with a type other
/// than its definition's has the reported types; an edge into the entry
/// comes from the reported block.
pub open spec fn error_sound(f: Function, e: VerifyError) -> bool {
    match e {
        VerifyError::InvalidConstant { value, ty, payload, .. } => {
            &&& !valid_constant_spec(ty@, payload)
            &&& exists|b: int, p: int| is_site(f, b, p) && literal_is(#[trigger] ins_at(f, b, p), value, ty@, payload)
        },
        VerifyError::ConditionTypeMismatch { value, got, .. } => type_of(f, value) == Some(got@) && got@ != TypeModel::Bool,
        VerifyError::ValueTypeMismatch { value, expected, got, .. } => {
            &&& type_of(f, value) == Some(got@)
            &&& got@ != expected@
            &&& (exists|i: int| 0 <= i < f.params@.len() && (#[trigger] f.params@[i]).id == value && f.params@[i].ty@ == expected@)
                || exists|b: int, p: int| is_site(f, b, p) && instr_result_spec(#[trigger] ins_at(f, b, p)) == Some((value, expected@))
        },
        VerifyError::EntryHasPredecessor { entry, predecessor, .. } => {
            &&& entry == f.entry
            &&& exists|a: int|
                0 <= a < f.blocks@.len() && (#[trigger] f.blocks@[a]).id == predecessor && edge(f, a, entry_index(f))
        },
        _ => true,
    }
}

/// An error about one function's contents or the constants: none of the
/// target, module-constant and function-name errors checked first.
pub open spec fn inner_error(e: VerifyError) -> bool {
    blamed(e) is Some
}

/// The module names a supported target and carries that target's exact layout.
pub open spec fn target_ok(m: Module) -> bool {
    exists|t: Target| target_name(t) == m.target@ && #[trigger] target_layout(t) == m.datalayout
}

/// Global names are distinct; each initializer fits its type; each alignment is a power of two.
pub open spec fn globals_ok(m: Module) -> bool {
    &&& forall|i: int, j: int|
        0 <= i < j < m.globals@.len() ==> #[trigger] m.globals@[i].name@ != #[trigger] m.globals@[j].name@
    &&& forall|i: int|
        0 <= i < m.globals@.len() ==> valid_constant_spec(
            (#[trigger] m.globals@[i]).ty@,
            m.globals@[i].init,
        ) && is_power_of_two(m.globals@[i].align)
}

/// Function names are distinct.
pub open spec fn function_names_distinct(m: Module) -> bool {
    forall|i: int, j: int|
        0 <= i < j < m.functions@.len() ==> #[trigger] m.functions@[i].name@
            != #[trigger] m.functions@[j].name@
}

/// Every block passes the checks that need no control-flow graph.
pub open spec fn blocks_ok(f: Function) -> bool {
    forall|b: int| 0 <= b < f.blocks@.len() ==> #[trigger] block_ok(f, b)
}

/// Every instruction's operands have the required categories and types.
pub open spec fn operands_ok(f: Function) -> bool {
    forall|b: int, p: int| is_site(f, b, p) ==> operand_ok(f, #[trigger] ins_at(f, b, p))
}

/// A function of `m` is valid IR.
pub open spec fn function_valid(m: Module, f: Function) -> bool {
    &&& distinct_blocks(f)
    &&& has_block(f, f.entry)
    &&& params_not_void(f)
    &&& distinct_defs(f)
    &&& blocks_ok(f)
    &&& value_types_ok(f)
    &&& locals_consts_ok(m, f)
    &&& cfg_ok(f)
    &&& operands_ok(f)
}

/// The whole module is valid IR.
pub open spec fn module_valid(m: Module) -> bool {
    &&& target_ok(m)
    &&& globals_ok(m)
    &&& globals_consts_ok(m)
    &&& function_names_distinct(m)
    &&& forall|i: int| 0 <= i < m.functions@.len() ==> function_valid(m, #[trigger] m.functions@[i])
}

/// The function's block identities, entry, parameters and definitions are in order.
pub open spec fn shape_ok(f: Function) -> bool {
    &&& distinct_blocks(f)
    &&& has_block(f, f.entry)
    &&& params_not_void(f)
    &&& distinct_defs(f)
}

/// Block `b` is the first block of `f` that fails its checks.
pub open spec fn first_failing_block(f: Function, b: int) -> bool {
    &&& 0 <= b < f.blocks@.len()
    &&& !block_ok(f, b)
    &&& forall|x: int| 0 <= x < b ==> #[trigger] block_ok(f, x)
}

/// Block `a` is the first block of `f` with an edge into the entry.
pub open spec fn first_entry_edge(f: Function, a: int) -> bool {
    &&& 0 <= a < f.blocks@.len()
    &&& edge(f, a, entry_index(f))
    &&& forall|x: int| 0 <= x < a ==> !#[trigger] edge(f, x, entry_index(f))
}

/// Which error function `f` reports where the first rule it breaks fixes it.
/// The rules are checked in stages: shape, each block in order, the value
/// table, the named constants, the control-flow graph, the operands. With the
/// shape in order, the first failing block reports as [`block_reported`]
/// says; with the blocks in order too, a table that breaks its rules reports
/// as [`table_reported`] says; with the table and the named constants in order
/// too, an edge into the entry is reported from the first block that has one.
pub open spec fn function_reported(m: Module, f: Function, e: VerifyError) -> bool {
    &&& shape_ok(f) ==> forall|b: int| #[trigger] first_failing_block(f, b) ==> block_reported(f, b, e)
    &&& shape_ok(f) && blocks_ok(f) && !value_types_ok(f) ==> table_reported(f, e)
    &&& shape_ok(f) && blocks_ok(f) && value_types_ok(f) && locals_consts_ok(m, f) ==> forall|a: int|
        #[trigger] first_entry_edge(f, a) ==> (e matches VerifyError::EntryHasPredecessor { entry, predecessor, .. }
            && entry == f.entry && predecessor == f.blocks@[a].id)
}

#[verifier::spinoff_prover]
#[verifier::rlimit(40)]
fn verify_function<'a>(m: &'a Module, f: &'a Function, globals: &Vec<ConstBinding<'a>>) -> (r: Result<
    (),
    VerifyError,
>)
    requires
        globals@ == global_env(m.globals@),
    ensures
        r matches Err(e) ==> blamed(e) == Some(f.name@) && error_sound(*f, e),
        r is Ok <==> function_valid(*m, *f),
        r matches Err(e) ==> function_reported(*m, *f, e),
{
    check_blocks(f)?;
    let defined = collect_defs(f)?;
    let mut b: usize = 0;
    while b < f.blocks.len()
        invariant
            0 <= b <= f.blocks@.len(),
            forall|v: ValueId| defined@.contains(v) <==> crate::ir::validity::facts::is_defined(*f, v),
            forall|x: int| 0 <= x < b ==> #[trigger] block_ok(*f, x),
        decreases f.blocks.len() - b,
    {
        check_block(f, b, &defined)?;
        b += 1;
    }
    verify_value_types(f, &defined)?;
    verify_locals(m, f, globals)?;
    proof {
        assert forall|x: int| 0 <= x < f.blocks@.len() implies (#[trigger] f.blocks@[x]).terminator is Some by {
            assert(block_ok(*f, x));
        }
        assert forall|x: int, k: int|
            0 <= x < f.blocks@.len() && 0 <= k < crate::ir::validity::facts::targets_spec(f.blocks@[x].terminator.unwrap()).len()
            implies has_block(*f, #[trigger] crate::ir::validity::facts::targets_spec(f.blocks@[x].terminator.unwrap())[k]) by {
            assert(block_ok(*f, x));
        }
    }
    let flow = verify_cfg(f);
    if let Err(e) = flow {
        proof {
            assert forall|a: int| #[trigger] first_entry_edge(*f, a) implies (e matches VerifyError::EntryHasPredecessor {
                entry,
                predecessor,
                ..
            } && entry == f.entry && predecessor == f.blocks@[a].id) by {
                let w = choose|w: int|
                    0 <= w < f.blocks@.len() && (flow matches Err(VerifyError::EntryHasPredecessor { entry, predecessor, .. })
                        && entry == f.entry && predecessor == f.blocks@[w].id) && edge(*f, w, entry_index(*f)) && forall|x: int|
                        0 <= x < w ==> !#[trigger] edge(*f, x, entry_index(*f));
                assert(edge(*f, a, entry_index(*f)));
                if w < a {
                    assert(!edge(*f, w, entry_index(*f)));
                } else if a < w {
                    assert(!edge(*f, a, entry_index(*f)));
                }
            }
        }
        return Err(e);
    }
    assert(forall|e: VerifyError| function_reported(*m, *f, e)) by {
        assert forall|a: int| 0 <= a < f.blocks@.len() implies !#[trigger] edge(*f, a, entry_index(*f)) by {}
    }
    let mut b: usize = 0;
    while b < f.blocks.len()
        invariant
            0 <= b <= f.blocks@.len(),
            distinct_defs(*f),
            forall|e: VerifyError| function_reported(*m, *f, e),
            forall|b1: int, p1: int| is_site(*f, b1, p1) && b1 < b ==> operand_ok(*f, #[trigger] ins_at(*f, b1, p1)),
        decreases f.blocks.len() - b,
    {
        let mut p: usize = 0;
        while p < f.blocks[b].instructions.len()
            invariant
                0 <= b < f.blocks@.len(),
                0 <= p <= f.blocks@[b as int].instructions@.len(),
                distinct_defs(*f),
                forall|e: VerifyError| function_reported(*m, *f, e),
                forall|b1: int, p1: int|
                    is_site(*f, b1, p1) && (b1 < b || (b1 == b && p1 < p)) ==> operand_ok(*f, #[trigger] ins_at(*f, b1, p1)),
            decreases f.blocks@[b as int].instructions@.len() - p,
        {
            let checked = verify_instruction(f, &f.blocks[b].instructions[p]);
            if checked.is_err() {
                assert(!operands_ok(*f)) by {
                    assert(is_site(*f, b as int, p as int));
                    assert(f.blocks@[b as int].instructions@[p as int] == ins_at(*f, b as int, p as int));
                    assert(!operand_ok(*f, ins_at(*f, b as int, p as int)));
                }
                return checked;
            }
            p += 1;
        }
        b += 1;
    }
    Ok(())
}

/// An error about the contents of `m` was found where it says: the target,
/// the globals' names, initializers and alignments are in order, and either
/// the module constants are inconsistent and the error is about them, or the
/// function names are distinct and the error names a function that is not valid.
pub open spec fn diagnosed(m: Module, e: VerifyError) -> bool {
    &&& target_ok(m)
    &&& globals_ok(m)
    &&& {
        ||| blamed(e) == Some("module"@) && !globals_consts_ok(m)
        ||| globals_consts_ok(m) && function_names_distinct(m) && exists|i: int|
            0 <= i < m.functions@.len() && blamed(e) == Some((#[trigger] m.functions@[i]).name@)
                && !function_valid(m, m.functions@[i]) && error_sound(m.functions@[i], e)
    }
}

/// Function `i` is the first function of `m` that is not valid.
pub open spec fn first_invalid_function(m: Module, i: int) -> bool {
    &&& 0 <= i < m.functions@.len()
    &&& !function_valid(m, m.functions@[i])
    &&& forall|x: int| 0 <= x < i ==> function_valid(m, #[trigger] m.functions@[x])
}

/// Check a whole module: its target and layout, its globals and their
/// constant expressions, its function names, then each function in turn.
/// Nothing is removed or simplified; the first violation found is reported.
#[verifier::spinoff_prover]
#[verifier::rlimit(60)]
pub fn verify_module(m: &Module) -> (r: Result<(), VerifyError>)
    ensures
        r is Ok <==> module_valid(*m),
        (r matches Err(VerifyError::Target(_))) <==> !target_ok(*m),
        m.target@ != target_name(Target::X86_64WhaleLinux) ==> (r matches Err(
            VerifyError::Target(TargetError::UnsupportedTarget(n)),
        ) && n@ == m.target@),
        m.target@ == target_name(Target::X86_64WhaleLinux) && m.datalayout != target_layout(
            Target::X86_64WhaleLinux,
        ) ==> (r matches Err(VerifyError::Target(TargetError::LayoutMismatch { target, actual })) && target
            == Target::X86_64WhaleLinux && actual == m.datalayout),
        r matches Err(VerifyError::DuplicateGlobal { name }) ==> exists|i: int, j: int|
            0 <= i < j < m.globals@.len() && #[trigger] m.globals@[i].name@ == #[trigger] m.globals@[j].name@
                && m.globals@[j].name@ == name@,
        r matches Err(VerifyError::InvalidGlobalInitializer { name, ty, payload }) ==> exists|i: int|
            0 <= i < m.globals@.len() && #[trigger] m.globals@[i].name@ == name@ && m.globals@[i].ty@ == ty@
                && m.globals@[i].init == payload && !valid_constant_spec(ty@, payload),
        r matches Err(VerifyError::InvalidGlobalAlignment { name, align }) ==> exists|i: int|
            0 <= i < m.globals@.len() && #[trigger] m.globals@[i].name@ == name@ && m.globals@[i].align == align
                && !is_power_of_two(align),
        r matches Err(VerifyError::DuplicateFunction { name }) ==> exists|i: int, j: int|
            0 <= i < j < m.functions@.len() && #[trigger] m.functions@[i].name@
                == #[trigger] m.functions@[j].name@ && m.functions@[j].name@ == name@,
        r matches Err(e) ==> (inner_error(e) ==> diagnosed(*m, e)),
        r matches Err(e) ==> (target_ok(*m) && globals_ok(*m) && !globals_consts_ok(*m) && globals_results_open(*m)
            ==> e matches VerifyError::InvalidConstExpression { reason: ConstEvalError::ResultMismatch, .. }),
        r matches Err(e) ==> (target_ok(*m) && globals_ok(*m) && globals_consts_ok(*m) && function_names_distinct(*m)
            ==> forall|i: int| #[trigger] first_invalid_function(*m, i) ==> blamed(e) == Some(m.functions@[i].name@)
            && function_reported(*m, m.functions@[i], e)),
{
    let target = match Target::lookup(m.target.as_str()) {
        Ok(t) => t,
        Err(e) => return Err(VerifyError::Target(e)),
    };
    if let Err(e) = target.validate_layout(m.datalayout) {
        assert(!target_ok(*m)) by {
            assert forall|t: Target| target_name(t) == m.target@ implies #[trigger] target_layout(t) != m.datalayout by {
                assert(t == target);
            }
        }
        return Err(VerifyError::Target(e));
    }
    let mut i: usize = 0;
    while i < m.globals.len()
        invariant
            0 <= i <= m.globals@.len(),
            target_ok(*m),
            forall|a: int, b: int| 0 <= a < b < i ==> #[trigger] m.globals@[a].name@ != #[trigger] m.globals@[b].name@,
            forall|a: int|
                0 <= a < i ==> valid_constant_spec((#[trigger] m.globals@[a]).ty@, m.globals@[a].init)
                    && is_power_of_two(m.globals@[a].align),
        decreases m.globals.len() - i,
    {
        let g = &m.globals[i];
        let mut j: usize = 0;
        while j < i
            invariant
                0 <= j <= i < m.globals@.len(),
                target_ok(*m),
                *g == m.globals@[i as int],
                forall|a: int| 0 <= a < j ==> #[trigger] m.globals@[a].name@ != g.name@,
            decreases i - j,
        {
            if m.globals[j].name == g.name {
                assert(!globals_ok(*m)) by {
                    assert(m.globals@[j as int].name@ == m.globals@[i as int].name@);
                }
                return Err(VerifyError::DuplicateGlobal { name: g.name.clone() });
            }
            j += 1;
        }
        if !valid_constant(&g.ty, &g.init) {
            assert(m.globals@[i as int] == *g);
            let name = g.name.clone();
            let ty = g.ty.clone();
            assert(name@ == m.globals@[i as int].name@ && ty@ == m.globals@[i as int].ty@);
            assert(!valid_constant_spec(m.globals@[i as int].ty@, m.globals@[i as int].init));
            return Err(VerifyError::InvalidGlobalInitializer { name, ty, payload: g.init });
        }
        if !power_of_two(g.align) {
            assert(m.globals@[i as int] == *g);
            assert(m.globals@[i as int].name@ == g.name@);
            assert(!is_power_of_two(m.globals@[i as int].align));
            return Err(VerifyError::InvalidGlobalAlignment { name: g.name.clone(), align: g.align });
        }
        i += 1;
    }
    assert(globals_ok(*m));
    verify_globals(m)?;
    let mut i: usize = 0;
    while i < m.functions.len()
        invariant
            0 <= i <= m.functions@.len(),
            target_ok(*m),
            globals_ok(*m),
            globals_consts_ok(*m),
            forall|a: int, b: int|
                0 <= a < b < i ==> #[trigger] m.functions@[a].name@ != #[trigger] m.functions@[b].name@,
        decreases m.functions.len() - i,
    {
        let mut j: usize = 0;
        while j < i
            invariant
                0 <= j <= i < m.functions@.len(),
                target_ok(*m),
                globals_ok(*m),
                globals_consts_ok(*m),
                forall|a: int| 0 <= a < j ==> #[trigger] m.functions@[a].name@ != m.functions@[i as int].name@,
            decreases i - j,
        {
            if m.functions[j].name == m.functions[i].name {
                assert(!function_names_distinct(*m)) by {
                    assert(m.functions@[j as int].name@ == m.functions@[i as int].name@);
                }
                return Err(VerifyError::DuplicateFunction { name: m.functions[i].name.clone() });
            }
            j += 1;
        }
        i += 1;
    }
    let globals = global_bindings(m);
    let mut i: usize = 0;
    while i < m.functions.len()
        invariant
            0 <= i <= m.functions@.len(),
            target_ok(*m),
            globals_ok(*m),
            globals_consts_ok(*m),
            function_names_distinct(*m),
            globals@ == global_env(m.globals@),
            forall|a: int| 0 <= a < i ==> function_valid(*m, #[trigger] m.functions@[a]),
        decreases m.functions.len() - i,
    {
        let checked = verify_function(m, &m.functions[i], &globals);
        if let Err(e) = checked {
            assert(blamed(e) == Some(m.functions@[i as int].name@) && !function_valid(*m, m.functions@[i as int]));
            proof {
                assert forall|x: int| #[trigger] first_invalid_function(*m, x) implies x == i by {
                    if x < i {
                        assert(function_valid(*m, m.functions@[x]));
                    } else if i < x {
                        assert(function_valid(*m, m.functions@[i as int]));
                    }
                }
            }
            return Err(e);
        }
        i += 1;
    }
    Ok(())
}

} // verus!
