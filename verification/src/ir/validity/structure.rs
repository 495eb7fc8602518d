//! Block identities, value definitions, and the per-block checks that need no CFG.
use vstd::prelude::*;
use crate::ir::module::{Function, Instruction};
use crate::ir::types::{Type, ValueId};
use crate::ir::validity::VerifyError;
use crate::ir::validity::facts::{
    defines, distinct_defs, has_block, distinct_blocks, ins_at, instr_result_spec, instr_uses_spec,
    is_defined, is_param, is_site, local_refs, params_not_void, result_id,
};

use crate::ir::validity::{blamed, error_sound};

verus! {

/// `(b1, p1)` comes before `(b, p)` in block-then-position order.
pub open spec fn site_before(b1: int, p1: int, b: int, p: int) -> bool {
    b1 < b || (b1 == b && p1 < p)
}

/// The value an instruction defines, with its type.
pub fn instr_result(ins: &Instruction) -> (r: Option<(ValueId, Type)>)
    ensures
        match instr_result_spec(*ins) {
            None => r is None,
            Some(d) => r matches Some(x) && x.0 == d.0 && x.1@ == d.1,
        },
{
    match ins {
        Instruction::ConstDecl { dst, expression, .. } => Some((*dst, expression.ty.clone())),
        Instruction::Const { dst, ty, .. }
        | Instruction::Undef { dst, ty }
        | Instruction::Mov { dst, ty, .. }
        | Instruction::Bin { dst, ty, .. }
        | Instruction::Not { dst, ty, .. }
        | Instruction::Select { dst, ty, .. }
        | Instruction::Phi { dst, ty, .. }
        | Instruction::Load { dst, ty, .. } => Some((*dst, ty.clone())),
        Instruction::Cmp { dst, .. } | Instruction::ICmp { dst, .. } | Instruction::FCmp {
            dst,
            ..
        } => Some((*dst, Type::Bool)),
        Instruction::Cast { dst, dst_ty, .. }
        | Instruction::Extract { dst, dst_ty, .. }
        | Instruction::Gep { dst, dst_ty, .. } => Some((*dst, dst_ty.clone())),
        Instruction::Checked { dst, ty, .. } => {
            let mut fields: Vec<Type> = Vec::new();
            let first = ty.clone();
            fields.push(first);
            fields.push(Type::Bool);
            assert(fields@[0]@ == ty@);
            assert(fields@[1]@ == crate::ir::types::TypeModel::Bool);
            let t = Type::Tuple(fields);
            proof {
                let m = crate::ir::types::type_model(t);
                assert(m->Tuple_0.len() == 2);
                assert(m->Tuple_0[0] == fields@[0]@);
                assert(m->Tuple_0[1] == fields@[1]@);
                assert(m->Tuple_0 =~= seq![ty@, crate::ir::types::TypeModel::Bool]);
            }
            Some((*dst, t))
        },
        Instruction::Alloca { dst, ty, .. } => Some((*dst, Type::ptr_to(ty.clone()))),
        Instruction::Call { dst, ret_ty, .. } => match dst {
            Some(v) => Some((*v, ret_ty.clone())),
            None => None,
        },
        Instruction::Store { .. } | Instruction::Memcpy { .. } | Instruction::Memset { .. }
        | Instruction::TrapIf { .. } => None,
    }
}

/// The identity an instruction defines, if any.
pub fn instr_dst(ins: &Instruction) -> (r: Option<ValueId>)
    ensures
        match instr_result_spec(*ins) {
            None => r is None,
            Some(d) => r == Some(d.0),
        },
{
    match ins {
        Instruction::ConstDecl { dst, .. }
        | Instruction::Const { dst, .. }
        | Instruction::Undef { dst, .. }
        | Instruction::Mov { dst, .. }
        | Instruction::Bin { dst, .. }
        | Instruction::Not { dst, .. }
        | Instruction::Select { dst, .. }
        | Instruction::Phi { dst, .. }
        | Instruction::Load { dst, .. }
        | Instruction::Cmp { dst, .. }
        | Instruction::ICmp { dst, .. }
        | Instruction::FCmp { dst, .. }
        | Instruction::Cast { dst, .. }
        | Instruction::Extract { dst, .. }
        | Instruction::Gep { dst, .. }
        | Instruction::Checked { dst, .. }
        | Instruction::Alloca { dst, .. } => Some(*dst),
        Instruction::Call { dst, .. } => *dst,
        Instruction::Store { .. } | Instruction::Memcpy { .. } | Instruction::Memset { .. }
        | Instruction::TrapIf { .. } => None,
    }
}

/// The local identities among constant references, in order.
fn local_values(refs: &Vec<crate::ir::const_expr::ConstRef>) -> (r: Vec<ValueId>)
    ensures
        r@ == local_refs(refs@),
{
    let mut out: Vec<ValueId> = Vec::new();
    let mut i: usize = 0;
    while i < refs.len()
        invariant
            0 <= i <= refs.len(),
            out@ == local_refs(refs@.take(i as int)),
        decreases refs.len() - i,
    {
        proof {
            assert(refs@.take(i + 1).drop_last() =~= refs@.take(i as int));
        }
        match refs[i] {
            crate::ir::const_expr::ConstRef::Local(v) => out.push(v),
            crate::ir::const_expr::ConstRef::Global(_) => {},
        }
        i += 1;
    }
    assert(refs@.take(refs@.len() as int) =~= refs@);
    out
}

/// The values an instruction reads, in operand order.
pub fn instr_uses(ins: &Instruction) -> (r: Vec<ValueId>)
    ensures
        r@ == instr_uses_spec(*ins),
{
    match ins {
        Instruction::ConstDecl { expression, .. } => local_values(&expression.references()),
        Instruction::Const { .. } | Instruction::Undef { .. } | Instruction::Alloca { .. } => vec![],
        Instruction::Mov { src, .. } | Instruction::Not { src, .. } | Instruction::Cast {
            src,
            ..
        } => vec![*src],
        Instruction::Bin { lhs, rhs, .. }
        | Instruction::Cmp { lhs, rhs, .. }
        | Instruction::ICmp { lhs, rhs, .. }
        | Instruction::FCmp { lhs, rhs, .. }
        | Instruction::Checked { lhs, rhs, .. } => vec![*lhs, *rhs],
        Instruction::Select { cond, on_true, on_false, .. } => vec![*cond, *on_true, *on_false],
        Instruction::Phi { incomings, .. } => {
            let mut out: Vec<ValueId> = Vec::new();
            let mut i: usize = 0;
            while i < incomings.len()
                invariant
                    0 <= i <= incomings.len(),
                    out@ =~= incomings@.take(i as int).map_values(|p: (ValueId, crate::ir::types::BlockId)| p.0),
                decreases incomings.len() - i,
            {
                out.push(incomings[i].0);
                i += 1;
            }
            assert(incomings@.take(incomings@.len() as int) =~= incomings@);
            out
        },
        Instruction::Extract { tuple, .. } => vec![*tuple],
        Instruction::Load { ptr, .. } => vec![*ptr],
        Instruction::Store { value, ptr, .. } => vec![*value, *ptr],
        Instruction::Gep { base_ptr, indices, .. } => {
            let mut out: Vec<ValueId> = vec![*base_ptr];
            let mut i: usize = 0;
            while i < indices.len()
                invariant
                    0 <= i <= indices.len(),
                    out@ =~= seq![*base_ptr] + indices@.take(i as int),
                decreases indices.len() - i,
            {
                out.push(indices[i]);
                i += 1;
            }
            assert(indices@.take(indices@.len() as int) =~= indices@);
            out
        },
        Instruction::Memcpy { dst, src, n, .. } => vec![*dst, *src, *n],
        Instruction::Memset { dst, val, n, .. } => vec![*dst, *val, *n],
        Instruction::Call { args, .. } => {
            let mut out: Vec<ValueId> = Vec::new();
            let mut i: usize = 0;
            while i < args.len()
                invariant
                    0 <= i <= args.len(),
                    out@ =~= args@.take(i as int),
                decreases args.len() - i,
            {
                out.push(args[i]);
                i += 1;
            }
            assert(args@.take(args@.len() as int) =~= args@);
            out
        },
        Instruction::TrapIf { cond, .. } => vec![*cond],
    }
}

/// `v` occurs in `values`.
pub fn contains_value(values: &Vec<ValueId>, v: ValueId) -> (r: bool)
    ensures
        r == values@.contains(v),
{
    let mut i: usize = 0;
    while i < values.len()
        invariant
            0 <= i <= values.len(),
            forall|k: int| 0 <= k < i ==> values@[k] != v,
        decreases values.len() - i,
    {
        if values[i] == v {
            return true;
        }
        i += 1;
    }
    false
}

/// Block identities are distinct and the entry is one of them.
pub fn check_blocks(f: &Function) -> (r: Result<(), VerifyError>)
    ensures
        r matches Err(e) ==> blamed(e) == Some(f.name@) && error_sound(*f, e),
        r is Ok <==> distinct_blocks(*f) && has_block(*f, f.entry),
{
    let mut i: usize = 0;
    while i < f.blocks.len()
        invariant
            0 <= i <= f.blocks.len(),
            forall|a: int, b: int|
                0 <= a < i && 0 <= b < i && a != b ==> #[trigger] f.blocks@[a].id
                    != #[trigger] f.blocks@[b].id,
        decreases f.blocks.len() - i,
    {
        let mut j: usize = 0;
        while j < i
            invariant
                0 <= j <= i < f.blocks.len(),
                forall|k: int| 0 <= k < j ==> #[trigger] f.blocks@[k].id != f.blocks@[i as int].id,
            decreases i - j,
        {
            if f.blocks[j].id == f.blocks[i].id {
                return Err(
                    VerifyError::DuplicateBlock { func: f.name.clone(), block: f.blocks[i].id },
                );
            }
            j += 1;
        }
        i += 1;
    }
    let mut k: usize = 0;
    while k < f.blocks.len()
        invariant
            0 <= k <= f.blocks.len(),
            forall|a: int| 0 <= a < k ==> #[trigger] f.blocks@[a].id != f.entry,
            forall|a: int, b: int|
                0 <= a < f.blocks.len() && 0 <= b < f.blocks.len() && a != b ==> #[trigger] f.blocks@[a].id
                    != #[trigger] f.blocks@[b].id,
        decreases f.blocks.len() - k,
    {
        if f.blocks[k].id == f.entry {
            return Ok(());
        }
        k += 1;
    }
    Err(VerifyError::InvalidEntryBlock { func: f.name.clone(), entry: f.entry })
}

/// Every value defined so far: the parameters, and the instructions before `(b, p)`.
pub open spec fn defined_before(f: Function, v: ValueId, b: int, p: int) -> bool {
    is_param(f, v) || exists|b1: int, p1: int|
        is_site(f, b1, p1) && site_before(b1, p1, b, p) && defines(#[trigger] ins_at(f, b1, p1), v)
}

/// The definitions before `(b, p)` are distinct.
pub open spec fn distinct_before(f: Function, b: int, p: int) -> bool {
    &&& forall|i: int, j: int|
        0 <= i < f.params@.len() && 0 <= j < f.params@.len() && i != j ==> #[trigger] f.params@[i].id
            != #[trigger] f.params@[j].id
    &&& forall|i: int, b1: int, p1: int|
        0 <= i < f.params@.len() && is_site(f, b1, p1) && site_before(b1, p1, b, p) ==> !defines(
            #[trigger] ins_at(f, b1, p1),
            #[trigger] f.params@[i].id,
        )
    &&& forall|b1: int, p1: int, b2: int, p2: int|
        is_site(f, b1, p1) && is_site(f, b2, p2) && site_before(b1, p1, b, p) && site_before(
            b2,
            p2,
            b,
            p,
        ) && (b1 != b2 || p1 != p2) && instr_result_spec(ins_at(f, b1, p1)) is Some ==> !defines(
            #[trigger] ins_at(f, b2, p2),
            result_id(#[trigger] ins_at(f, b1, p1)),
        )
}

/// No void parameter, and no value defined twice. On success, the defined values.
pub fn collect_defs(f: &Function) -> (r: Result<Vec<ValueId>, VerifyError>)
    ensures
        r matches Err(e) ==> blamed(e) == Some(f.name@) && error_sound(*f, e),
        r is Ok <==> params_not_void(*f) && distinct_defs(*f),
        r matches Ok(d) ==> forall|v: ValueId| d@.contains(v) <==> is_defined(*f, v),
{
    let mut defined: Vec<ValueId> = Vec::new();
    let mut i: usize = 0;
    while i < f.params.len()
        invariant
            0 <= i <= f.params.len(),
            defined@.len() == i,
            forall|k: int| 0 <= k < i ==> defined@[k] == #[trigger] f.params@[k].id,
            forall|k: int| 0 <= k < i ==> !(#[trigger] f.params@[k].ty@ is Void),
            forall|a: int, b: int|
                0 <= a < i && 0 <= b < i && a != b ==> #[trigger] f.params@[a].id
                    != #[trigger] f.params@[b].id,
        decreases f.params.len() - i,
    {
        proof {
            crate::ir::types::lemma_model_shape(f.params@[i as int].ty);
        }
        if matches!(f.params[i].ty, Type::Void) {
            return Err(
                VerifyError::VoidParameter {
                    func: f.name.clone(),
                    param: f.params[i].name.clone(),
                },
            );
        }
        if contains_value(&defined, f.params[i].id) {
            proof {
                let k = choose|k: int| 0 <= k < defined@.len() && defined@[k] == f.params@[i as int].id;
                assert(f.params@[k].id == f.params@[i as int].id);
            }
            return Err(VerifyError::DuplicateValue { func: f.name.clone(), value: f.params[i].id });
        }
        defined.push(f.params[i].id);
        i += 1;
    }
    proof {
        assert forall|v: ValueId| defined@.contains(v) <==> defined_before(*f, v, 0, 0) by {
            if defined@.contains(v) {
                let k = choose|k: int| 0 <= k < defined@.len() && defined@[k] == v;
                assert(f.params@[k].id == v);
            }
            if is_param(*f, v) {
                let k = choose|k: int| 0 <= k < f.params@.len() && #[trigger] f.params@[k].id == v;
                assert(defined@[k] == v);
            }
        }
    }
    let mut b: usize = 0;
    while b < f.blocks.len()
        invariant
            0 <= b <= f.blocks.len(),
            params_not_void(*f),
            distinct_before(*f, b as int, 0),
            forall|v: ValueId| defined@.contains(v) <==> defined_before(*f, v, b as int, 0),
        decreases f.blocks.len() - b,
    {
        let mut p: usize = 0;
        while p < f.blocks[b].instructions.len()
            invariant
                0 <= b < f.blocks.len(),
                0 <= p <= f.blocks@[b as int].instructions@.len(),
                params_not_void(*f),
                distinct_before(*f, b as int, p as int),
                forall|v: ValueId| defined@.contains(v) <==> defined_before(*f, v, b as int, p as int),
            decreases f.blocks@[b as int].instructions@.len() - p,
        {
            let ghost site = ins_at(*f, b as int, p as int);
            let ghost old_defined = defined@;
            let found = instr_dst(&f.blocks[b].instructions[p]);
            match found {
                Some(dst) => {
                    if contains_value(&defined, dst) {
                        proof {
                            assert(defines(site, dst));
                            if is_param(*f, dst) {
                                let k = choose|k: int|
                                    0 <= k < f.params@.len() && #[trigger] f.params@[k].id == dst;
                                assert(!defines(ins_at(*f, b as int, p as int), f.params@[k].id)
                                    ==> !distinct_defs(*f));
                            } else {
                                let (b1, p1) = choose|b1: int, p1: int|
                                    is_site(*f, b1, p1) && site_before(b1, p1, b as int, p as int)
                                        && defines(#[trigger] ins_at(*f, b1, p1), dst);
                                assert(instr_result_spec(ins_at(*f, b1, p1)) is Some);
                                assert(!distinct_defs(*f));
                            }
                        }
                        return Err(VerifyError::DuplicateValue { func: f.name.clone(), value: dst });
                    }
                    defined.push(dst);
                },
                None => {},
            }
            proof {
                assert forall|v: ValueId|
                    defined@.contains(v) <==> defined_before(*f, v, b as int, p + 1) by {
                    if defined@.contains(v) {
                        let k = choose|k: int| 0 <= k < defined@.len() && defined@[k] == v;
                        if k < old_defined.len() {
                            assert(old_defined[k] == v);
                            assert(old_defined.contains(v));
                            if !is_param(*f, v) {
                                let (b1, p1) = choose|b1: int, p1: int|
                                    is_site(*f, b1, p1) && site_before(b1, p1, b as int, p as int)
                                        && defines(#[trigger] ins_at(*f, b1, p1), v);
                                assert(site_before(b1, p1, b as int, p + 1));
                            }
                        } else {
                            assert(defines(ins_at(*f, b as int, p as int), v));
                            assert(site_before(b as int, p as int, b as int, p + 1));
                        }
                    }
                    if defined_before(*f, v, b as int, p + 1) {
                        if is_param(*f, v) {
                            assert(old_defined.contains(v));
                            let k = choose|k: int| 0 <= k < old_defined.len() && old_defined[k] == v;
                            assert(defined@[k] == v);
                        } else {
                            let (b1, p1) = choose|b1: int, p1: int|
                                is_site(*f, b1, p1) && site_before(b1, p1, b as int, p + 1)
                                    && defines(#[trigger] ins_at(*f, b1, p1), v);
                            if b1 == b && p1 == p {
                                assert(defined@[defined@.len() - 1] == v);
                            } else {
                                assert(defined_before(*f, v, b as int, p as int));
                                assert(old_defined.contains(v));
                                let k = choose|k: int|
                                    0 <= k < old_defined.len() && old_defined[k] == v;
                                assert(defined@[k] == v);
                            }
                        }
                    }
                }
                assert(distinct_before(*f, b as int, p + 1));
            }
            p += 1;
        }
        proof {
            assert forall|v: ValueId|
                defined@.contains(v) <==> defined_before(*f, v, b + 1, 0) by {
                if defined_before(*f, v, b + 1, 0) && !is_param(*f, v) {
                    let (b1, p1) = choose|b1: int, p1: int|
                        is_site(*f, b1, p1) && site_before(b1, p1, b + 1, 0) && defines(
                            #[trigger] ins_at(*f, b1, p1),
                            v,
                        );
                    assert(site_before(b1, p1, b as int, p as int));
                }
                if defined_before(*f, v, b as int, p as int) && !is_param(*f, v) {
                    let (b1, p1) = choose|b1: int, p1: int|
                        is_site(*f, b1, p1) && site_before(b1, p1, b as int, p as int) && defines(
                            #[trigger] ins_at(*f, b1, p1),
                            v,
                        );
                    assert(site_before(b1, p1, b + 1, 0));
                }
            }
            assert(distinct_before(*f, b + 1, 0));
        }
        b += 1;
    }
    proof {
        assert forall|v: ValueId| defined@.contains(v) <==> is_defined(*f, v) by {
            if is_defined(*f, v) && !is_param(*f, v) {
                let (b1, p1) = choose|b1: int, p1: int|
                    is_site(*f, b1, p1) && defines(#[trigger] ins_at(*f, b1, p1), v);
                assert(site_before(b1, p1, b as int, 0));
            }
        }
        assert(distinct_defs(*f)) by {
            assert forall|b1: int, p1: int| is_site(*f, b1, p1) implies site_before(
                b1,
                p1,
                b as int,
                0,
            ) by {}
        }
    }
    Ok(defined)
}

} // verus!
