//! The function's value-type table: one matching entry per definition, nothing else.
use vstd::prelude::*;
use crate::ir::module::Function;
use crate::ir::types::{Type, ValueId, types_equal};
use crate::ir::validity::VerifyError;
use crate::ir::validity::facts::{
    ins_at, instr_result_spec, is_defined, is_site, result_id, type_of, typed_as,
};
use crate::ir::validity::structure::{contains_value, instr_result};

use crate::ir::validity::{blamed, error_sound};

verus! {

/// The type an instruction's result has (meaningful when it defines a value).
pub open spec fn result_type(ins: crate::ir::module::Instruction) -> crate::ir::types::TypeModel {
    instr_result_spec(ins).unwrap().1
}

/// No value has two entries in the table.
pub open spec fn table_distinct(f: Function) -> bool {
    forall|i: int, j: int|
        0 <= i < j < f.value_types@.len() ==> #[trigger] f.value_types@[i].0
            != #[trigger] f.value_types@[j].0
}

/// Every parameter and every instruction result has its own type in the table.
pub open spec fn defs_typed(f: Function) -> bool {
    &&& forall|i: int|
        0 <= i < f.params@.len() ==> typed_as(f, #[trigger] f.params@[i].id, f.params@[i].ty@)
    &&& forall|b: int, p: int|
        is_site(f, b, p) && instr_result_spec(#[trigger] ins_at(f, b, p)) is Some ==> typed_as(
            f,
            result_id(ins_at(f, b, p)),
            result_type(ins_at(f, b, p)),
        )
}

/// The table names only defined values.
pub open spec fn table_entries_defined(f: Function) -> bool {
    forall|i: int| 0 <= i < f.value_types@.len() ==> is_defined(f, #[trigger] f.value_types@[i].0)
}

/// The table holds exactly one entry per definition, with the definition's type.
pub open spec fn value_types_ok(f: Function) -> bool {
    table_distinct(f) && defs_typed(f) && table_entries_defined(f)
}

/// Every definition has an entry in the table, of whatever type.
pub open spec fn defs_recorded(f: Function) -> bool {
    &&& forall|i: int| 0 <= i < f.params@.len() ==> type_of(f, #[trigger] f.params@[i].id) is Some
    &&& forall|b: int, p: int|
        is_site(f, b, p) && instr_result_spec(#[trigger] ins_at(f, b, p)) is Some ==> type_of(
            f,
            result_id(ins_at(f, b, p)),
        ) is Some
}

/// How a table without duplicates that records every definition reports its
/// first broken rule: a definition recorded with another type, or else an
/// entry that names no definition.
pub open spec fn table_reported(f: Function, e: VerifyError) -> bool {
    table_distinct(f) && defs_recorded(f) ==> if defs_typed(f) {
        e is UnexpectedValueType
    } else {
        e is ValueTypeMismatch
    }
}

fn check_typed(f: &Function, value: ValueId, expected: &Type) -> (r: Result<(), VerifyError>)
    ensures
        r matches Err(e) ==> blamed(e) == Some(f.name@),
        r is Ok <==> typed_as(*f, value, expected@),
        r matches Err(e) ==> match type_of(*f, value) {
            None => e matches VerifyError::MissingValueType { value: v, .. } && v == value,
            Some(t) => e matches VerifyError::ValueTypeMismatch { value: v, expected: x, got, .. }
                && v == value && x@ == expected@ && got@ == t,
        },
{
    match f.value_type(value) {
        None => Err(VerifyError::MissingValueType { func: f.name.clone(), value }),
        Some(got) => {
            if types_equal(got, expected) {
                Ok(())
            } else {
                Err(
                    VerifyError::ValueTypeMismatch {
                        func: f.name.clone(),
                        value,
                        expected: expected.clone(),
                        got: got.clone(),
                    },
                )
            }
        },
    }
}

/// Check the table against the definitions: duplicate entries first, then each
/// definition in order, then entries that name no definition.
pub fn verify_value_types(f: &Function, defined: &Vec<ValueId>) -> (r: Result<(), VerifyError>)
    requires
        forall|v: ValueId| defined@.contains(v) <==> is_defined(*f, v),
    ensures
        r matches Err(e) ==> blamed(e) == Some(f.name@) && error_sound(*f, e),
        r is Ok <==> value_types_ok(*f),
        r matches Err(e) ==> table_reported(*f, e),
{
    let table = &f.value_types;
    let mut i: usize = 0;
    while i < table.len()
        invariant
            0 <= i <= table.len(),
            *table == f.value_types,
            forall|a: int, b: int| 0 <= a < b < i ==> #[trigger] table@[a].0 != #[trigger] table@[b].0,
        decreases table.len() - i,
    {
        let mut j: usize = 0;
        while j < i
            invariant
                0 <= j <= i < table.len(),
                *table == f.value_types,
                forall|k: int| 0 <= k < j ==> #[trigger] table@[k].0 != table@[i as int].0,
            decreases i - j,
        {
            if table[j].0 == table[i].0 {
                assert(!table_distinct(*f)) by {
                    assert(table@[j as int].0 == table@[i as int].0);
                }
                return Err(VerifyError::DuplicateValueType { func: f.name.clone(), value: table[i].0 });
            }
            j += 1;
        }
        i += 1;
    }
    let mut k: usize = 0;
    while k < f.params.len()
        invariant
            0 <= k <= f.params.len(),
            table_distinct(*f),
            forall|a: int| 0 <= a < k ==> typed_as(*f, #[trigger] f.params@[a].id, f.params@[a].ty@),
        decreases f.params.len() - k,
    {
        let checked = check_typed(f, f.params[k].id, &f.params[k].ty);
        if let Err(e) = checked {
            proof {
                assert(f.params@[k as int].id == f.params@[k as int].id);
            }
            return Err(e);
        }
        k += 1;
    }
    let mut b: usize = 0;
    while b < f.blocks.len()
        invariant
            0 <= b <= f.blocks.len(),
            table_distinct(*f),
            forall|a: int| 0 <= a < f.params@.len() ==> typed_as(*f, #[trigger] f.params@[a].id, f.params@[a].ty@),
            forall|b1: int, p1: int|
                is_site(*f, b1, p1) && b1 < b && instr_result_spec(#[trigger] ins_at(*f, b1, p1))
                    is Some ==> typed_as(*f, result_id(ins_at(*f, b1, p1)), result_type(ins_at(*f, b1, p1))),
        decreases f.blocks.len() - b,
    {
        let mut p: usize = 0;
        while p < f.blocks[b].instructions.len()
            invariant
                0 <= b < f.blocks.len(),
                0 <= p <= f.blocks@[b as int].instructions@.len(),
                table_distinct(*f),
                forall|a: int| 0 <= a < f.params@.len() ==> typed_as(*f, #[trigger] f.params@[a].id, f.params@[a].ty@),
                forall|b1: int, p1: int|
                    is_site(*f, b1, p1) && (b1 < b || (b1 == b && p1 < p)) && instr_result_spec(
                        #[trigger] ins_at(*f, b1, p1),
                    ) is Some ==> typed_as(*f, result_id(ins_at(*f, b1, p1)), result_type(ins_at(*f, b1, p1))),
            decreases f.blocks@[b as int].instructions@.len() - p,
        {
            match instr_result(&f.blocks[b].instructions[p]) {
                Some((v, t)) => {
                    let r = check_typed(f, v, &t);
                    if r.is_err() {
                        proof {
                            let ins = ins_at(*f, b as int, p as int);
                            assert(instr_result_spec(ins) is Some);
                            assert(result_id(ins) == v && result_type(ins) == t@);
                            assert(instr_result_spec(ins) == Some((v, t@)));
                            assert(is_site(*f, b as int, p as int));
                            assert(!defs_typed(*f));
                        }
                        return r;
                    }
                },
                None => {},
            }
            p += 1;
        }
        b += 1;
    }
    let mut e: usize = 0;
    while e < table.len()
        invariant
            0 <= e <= table.len(),
            *table == f.value_types,
            forall|v: ValueId| defined@.contains(v) <==> is_defined(*f, v),
            table_distinct(*f),
            defs_typed(*f),
            forall|a: int| 0 <= a < e ==> is_defined(*f, #[trigger] table@[a].0),
        decreases table.len() - e,
    {
        if !contains_value(defined, table[e].0) {
            return Err(VerifyError::UnexpectedValueType { func: f.name.clone(), value: table[e].0 });
        }
        e += 1;
    }
    Ok(())
}

} // verus!
