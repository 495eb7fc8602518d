//! Blocks are named by identity: the order in which a function stores its
//! blocks decides nothing about its validity.
use vstd::prelude::*;
use crate::ir::const_expr::{ConstBinding, ConstRef};
use crate::ir::module::{BasicBlock, Function, Instruction, Module, Terminator};
use crate::ir::types::{BlockId, TypeModel, ValueId};
use crate::ir::validity::constants::{
    ConstDef, decl_defs, function_decls, function_literals, global_env, literal_bindings, locals_consts_ok,
};
use crate::ir::validity::order::{
    ids_unique, is_reordering, lemma_concat_lookups, lemma_consts_reorder, lemma_consts_same_base,
    lemma_reorder_lookup, reordered, same_lookups,
};
use crate::ir::validity::permutation::{flatten, lemma_flatten_reordered, lemma_permutes_sym, permutes};
use crate::ir::validity::{blocks_ok, function_valid, module_valid, operands_ok};
use crate::ir::validity::blocks::{block_ok, instr_basic_ok, switch_ok, terminator_ok};
use crate::ir::validity::cfg::{
    available, cfg_ok, closed, dominates, edge, entry_index, incoming_ok, phi_ok, reachable,
    reaches_avoiding, site_ok, terminator_available,
};
use crate::ir::validity::operands::{const_ordinal, const_payload, gep_ok, gep_path, operand_ok};
use crate::ir::validity::types_table::{defs_typed, table_distinct, table_entries_defined, value_types_ok};
use crate::ir::validity::facts::{
    defines, distinct_blocks, distinct_defs, has_block, ins_at, instr_result_spec, is_defined,
    is_param, is_site, params_not_void, result_id, type_of, typed_as,
};

verus! {

/// `g` is `f` with its blocks stored in the order `p`; `q` undoes it.
pub open spec fn blocks_reordered(f: Function, g: Function, p: Seq<int>, q: Seq<int>) -> bool {
    &&& f.name == g.name
    &&& f.params == g.params
    &&& f.ret_ty == g.ret_ty
    &&& f.entry == g.entry
    &&& f.value_types == g.value_types
    &&& is_reordering(p, q, f.blocks@.len() as int)
    &&& g.blocks@ == reordered(f.blocks@, p)
}

proof fn lemma_blocks_map(f: Function, g: Function, p: Seq<int>, q: Seq<int>)
    requires
        blocks_reordered(f, g, p, q),
    ensures
        g.blocks@.len() == f.blocks@.len(),
        forall|i: int|
            0 <= i < g.blocks@.len() ==> #[trigger] g.blocks@[i] == f.blocks@[p[i]] && 0 <= p[i]
                < f.blocks@.len() && q[p[i]] == i,
        forall|j: int|
            0 <= j < f.blocks@.len() ==> #[trigger] f.blocks@[j] == g.blocks@[q[j]] && 0 <= q[j]
                < f.blocks@.len() && p[q[j]] == j,
{
    assert forall|j: int| 0 <= j < f.blocks@.len() implies #[trigger] f.blocks@[j] == g.blocks@[q[j]] by {
        assert(g.blocks@[q[j]] == f.blocks@[p[q[j]]]);
    }
}

/// Sites correspond: block `j` of `f` is block `q[j]` of `g`.
proof fn lemma_sites_map(f: Function, g: Function, p: Seq<int>, q: Seq<int>)
    requires
        blocks_reordered(f, g, p, q),
    ensures
        forall|j: int, k: int|
            #![trigger is_site(f, j, k)]
            #![trigger ins_at(f, j, k)]
            0 <= j < f.blocks@.len() ==> is_site(f, j, k) == is_site(g, q[j], k) && ins_at(f, j, k)
                == ins_at(g, q[j], k),
        forall|i: int, k: int|
            #![trigger is_site(g, i, k)]
            #![trigger ins_at(g, i, k)]
            0 <= i < g.blocks@.len() ==> is_site(g, i, k) == is_site(f, p[i], k) && ins_at(g, i, k)
                == ins_at(f, p[i], k),
{
    lemma_blocks_map(f, g, p, q);
}

/// Definitions, recorded types and block identities agree.
proof fn lemma_values_map(f: Function, g: Function, p: Seq<int>, q: Seq<int>)
    requires
        blocks_reordered(f, g, p, q),
    ensures
        forall|v: ValueId|
            #![trigger is_defined(f, v)]
            #![trigger is_defined(g, v)]
            is_defined(f, v) == is_defined(g, v),
        forall|v: ValueId|
            #![trigger type_of(f, v)]
            #![trigger type_of(g, v)]
            type_of(f, v) == type_of(g, v),
        forall|v: ValueId, t: TypeModel|
            #![trigger typed_as(f, v, t)]
            #![trigger typed_as(g, v, t)]
            typed_as(f, v, t) == typed_as(g, v, t),
        forall|id: BlockId|
            #![trigger has_block(f, id)]
            #![trigger has_block(g, id)]
            has_block(f, id) == has_block(g, id),
        distinct_blocks(f) == distinct_blocks(g),
        params_not_void(f) == params_not_void(g),
{
    lemma_blocks_map(f, g, p, q);
    lemma_sites_map(f, g, p, q);
    assert forall|v: ValueId|
        #![trigger is_defined(f, v)]
        #![trigger is_defined(g, v)]
        is_defined(f, v) == is_defined(g, v) by {
        if is_defined(f, v) && !is_param(f, v) {
            let (b, k) = choose|b: int, k: int| is_site(f, b, k) && defines(#[trigger] ins_at(f, b, k), v);
            assert(is_site(g, q[b], k) && defines(ins_at(g, q[b], k), v));
        }
        if is_defined(g, v) && !is_param(g, v) {
            let (b, k) = choose|b: int, k: int| is_site(g, b, k) && defines(#[trigger] ins_at(g, b, k), v);
            assert(is_site(f, p[b], k) && defines(ins_at(f, p[b], k), v));
        }
    }
    assert forall|id: BlockId|
        #![trigger has_block(f, id)]
        #![trigger has_block(g, id)]
        has_block(f, id) == has_block(g, id) by {
        if has_block(f, id) {
            let j = choose|j: int| 0 <= j < f.blocks@.len() && #[trigger] f.blocks@[j].id == id;
            assert(g.blocks@[q[j]].id == id);
        }
        if has_block(g, id) {
            let i = choose|i: int| 0 <= i < g.blocks@.len() && #[trigger] g.blocks@[i].id == id;
            assert(f.blocks@[p[i]].id == id);
        }
    }
    if distinct_blocks(f) {
        assert forall|i: int, j: int|
            0 <= i < g.blocks@.len() && 0 <= j < g.blocks@.len() && i != j implies #[trigger] g.blocks@[i].id
                != #[trigger] g.blocks@[j].id by {
            assert(f.blocks@[p[i]].id != f.blocks@[p[j]].id);
        }
    }
    if distinct_blocks(g) {
        assert forall|i: int, j: int|
            0 <= i < f.blocks@.len() && 0 <= j < f.blocks@.len() && i != j implies #[trigger] f.blocks@[i].id
                != #[trigger] f.blocks@[j].id by {
            assert(g.blocks@[q[i]].id != g.blocks@[q[j]].id);
        }
    }
}

proof fn lemma_defs_map(f: Function, g: Function, p: Seq<int>, q: Seq<int>)
    requires
        blocks_reordered(f, g, p, q),
    ensures
        distinct_defs(f) == distinct_defs(g),
{
    lemma_blocks_map(f, g, p, q);
    lemma_sites_map(f, g, p, q);
    if distinct_defs(f) {
        assert forall|i: int, b: int, k: int|
            0 <= i < g.params@.len() && is_site(g, b, k) implies !defines(
            #[trigger] ins_at(g, b, k),
            #[trigger] g.params@[i].id,
        ) by {
            assert(is_site(f, p[b], k));
        }
        assert forall|b1: int, k1: int, b2: int, k2: int|
            is_site(g, b1, k1) && is_site(g, b2, k2) && (b1 != b2 || k1 != k2) && instr_result_spec(
                ins_at(g, b1, k1),
            ) is Some implies !defines(#[trigger] ins_at(g, b2, k2), result_id(#[trigger] ins_at(g, b1, k1))) by {
            assert(is_site(f, p[b1], k1) && is_site(f, p[b2], k2));
            if p[b1] == p[b2] {
                assert(q[p[b1]] == b1 && q[p[b2]] == b2);
            }
        }
    }
    if distinct_defs(g) {
        assert forall|i: int, b: int, k: int|
            0 <= i < f.params@.len() && is_site(f, b, k) implies !defines(
            #[trigger] ins_at(f, b, k),
            #[trigger] f.params@[i].id,
        ) by {
            assert(is_site(g, q[b], k));
        }
        assert forall|b1: int, k1: int, b2: int, k2: int|
            is_site(f, b1, k1) && is_site(f, b2, k2) && (b1 != b2 || k1 != k2) && instr_result_spec(
                ins_at(f, b1, k1),
            ) is Some implies !defines(#[trigger] ins_at(f, b2, k2), result_id(#[trigger] ins_at(f, b1, k1))) by {
            assert(is_site(g, q[b1], k1) && is_site(g, q[b2], k2));
            if q[b1] == q[b2] {
                assert(p[q[b1]] == b1 && p[q[b2]] == b2);
            }
        }
    }
}

proof fn lemma_checks_map(f: Function, g: Function, p: Seq<int>, q: Seq<int>)
    requires
        blocks_reordered(f, g, p, q),
    ensures
        blocks_ok(f) == blocks_ok(g),
        value_types_ok(f) == value_types_ok(g),
{
    lemma_blocks_map(f, g, p, q);
    lemma_sites_map(f, g, p, q);
    lemma_values_map(f, g, p, q);
    assert forall|ins: Instruction| #[trigger] instr_basic_ok(f, ins) == instr_basic_ok(g, ins) by {
        let uses = crate::ir::validity::facts::instr_uses_spec(ins);
        assert forall|k: int| 0 <= k < uses.len() implies is_defined(f, #[trigger] uses[k]) == is_defined(g, uses[k]) by {}
    }
    assert forall|t: Terminator| #[trigger] terminator_ok(f, t) == terminator_ok(g, t) by {
        match t {
            Terminator::Switch { ty, value, cases, .. } => {
                assert(switch_ok(f, ty@, value, cases@) == switch_ok(g, ty@, value, cases@));
            },
            _ => {},
        }
    }
    assert forall|j: int| 0 <= j < f.blocks@.len() implies #[trigger] block_ok(f, j) == block_ok(g, q[j]) by {
        let blk = f.blocks@[j];
        assert(g.blocks@[q[j]] == blk);
        assert forall|k: int| 0 <= k < blk.instructions@.len() implies instr_basic_ok(
            f,
            #[trigger] blk.instructions@[k],
        ) == instr_basic_ok(g, blk.instructions@[k]) by {}
        if blk.terminator is Some {
            let ts = crate::ir::validity::facts::targets_spec(blk.terminator.unwrap());
            assert forall|k: int| 0 <= k < ts.len() implies has_block(f, #[trigger] ts[k]) == has_block(g, ts[k]) by {}
            assert(terminator_ok(f, blk.terminator.unwrap()) == terminator_ok(g, blk.terminator.unwrap()));
        }
    }
    if blocks_ok(f) {
        assert forall|i: int| 0 <= i < g.blocks@.len() implies #[trigger] block_ok(g, i) by {
            assert(block_ok(f, p[i]));
        }
    }
    if blocks_ok(g) {
        assert forall|j: int| 0 <= j < f.blocks@.len() implies #[trigger] block_ok(f, j) by {
            assert(block_ok(g, q[j]));
        }
    }
    assert(table_distinct(f) == table_distinct(g));
    assert(table_entries_defined(f) == table_entries_defined(g));
    if defs_typed(f) {
        assert forall|b: int, k: int|
            is_site(g, b, k) && instr_result_spec(#[trigger] ins_at(g, b, k)) is Some implies typed_as(
            g,
            result_id(ins_at(g, b, k)),
            crate::ir::validity::types_table::result_type(ins_at(g, b, k)),
        ) by {
            assert(is_site(f, p[b], k));
        }
    }
    if defs_typed(g) {
        assert forall|b: int, k: int|
            is_site(f, b, k) && instr_result_spec(#[trigger] ins_at(f, b, k)) is Some implies typed_as(
            f,
            result_id(ins_at(f, b, k)),
            crate::ir::validity::types_table::result_type(ins_at(f, b, k)),
        ) by {
            assert(is_site(g, q[b], k));
        }
    }
}

/// With each value defined once, a constant field position is read from the
/// one instruction that defines it, wherever its block is stored.
proof fn lemma_ordinal_map(f: Function, g: Function, p: Seq<int>, q: Seq<int>, v: ValueId)
    requires
        blocks_reordered(f, g, p, q),
        distinct_defs(f),
    ensures
        const_ordinal(f, v) == const_ordinal(g, v),
{
    lemma_blocks_map(f, g, p, q);
    lemma_sites_map(f, g, p, q);
    let ef = exists|b: int, k: int| is_site(f, b, k) && #[trigger] const_payload(ins_at(f, b, k), v) is Some;
    let eg = exists|b: int, k: int| is_site(g, b, k) && #[trigger] const_payload(ins_at(g, b, k), v) is Some;
    if ef {
        let (b, k) = choose|b: int, k: int| is_site(f, b, k) && #[trigger] const_payload(ins_at(f, b, k), v) is Some;
        assert(is_site(g, q[b], k) && const_payload(ins_at(g, q[b], k), v) is Some);
    }
    if eg {
        let (b, k) = choose|b: int, k: int| is_site(g, b, k) && #[trigger] const_payload(ins_at(g, b, k), v) is Some;
        assert(is_site(f, p[b], k) && const_payload(ins_at(f, p[b], k), v) is Some);
    }
    if ef {
        let (b1, k1) = choose|b: int, k: int| is_site(f, b, k) && #[trigger] const_payload(ins_at(f, b, k), v) is Some;
        let (b2, k2) = choose|b: int, k: int| is_site(g, b, k) && #[trigger] const_payload(ins_at(g, b, k), v) is Some;
        assert(is_site(f, p[b2], k2) && ins_at(g, b2, k2) == ins_at(f, p[b2], k2));
        if b1 != p[b2] || k1 != k2 {
            assert(instr_result_spec(ins_at(f, b1, k1)) is Some);
            assert(result_id(ins_at(f, b1, k1)) == v);
            assert(!defines(ins_at(f, p[b2], k2), result_id(ins_at(f, b1, k1))));
        }
    }
}

proof fn lemma_path_map(f: Function, g: Function, p: Seq<int>, q: Seq<int>, ty: TypeModel, path: Seq<ValueId>)
    requires
        blocks_reordered(f, g, p, q),
        distinct_defs(f),
    ensures
        gep_path(f, ty, path) == gep_path(g, ty, path),
    decreases path.len(),
{
    if path.len() > 0 {
        lemma_ordinal_map(f, g, p, q, path[0]);
        match ty {
            TypeModel::Array(e, _) => lemma_path_map(f, g, p, q, *e, path.drop_first()),
            TypeModel::Struct(fs) => {
                match const_ordinal(f, path[0]) {
                    Some(o) => {
                        if o < fs.len() {
                            lemma_path_map(f, g, p, q, fs[o], path.drop_first());
                        }
                    },
                    None => {},
                }
            },
            TypeModel::Tuple(fs) => {
                match const_ordinal(f, path[0]) {
                    Some(o) => {
                        if o < fs.len() {
                            lemma_path_map(f, g, p, q, fs[o], path.drop_first());
                        }
                    },
                    None => {},
                }
            },
            _ => {},
        }
    }
}

proof fn lemma_operands_map(f: Function, g: Function, p: Seq<int>, q: Seq<int>)
    requires
        blocks_reordered(f, g, p, q),
        distinct_defs(f),
    ensures
        operands_ok(f) == operands_ok(g),
{
    lemma_blocks_map(f, g, p, q);
    lemma_sites_map(f, g, p, q);
    lemma_values_map(f, g, p, q);
    assert forall|ins: Instruction| #[trigger] operand_ok(f, ins) == operand_ok(g, ins) by {
        match ins {
            Instruction::Gep { dst_ty, base_ptr, indices, .. } => {
                match type_of(f, base_ptr) {
                    Some(TypeModel::Ptr(pointee)) => {
                        lemma_path_map(f, g, p, q, *pointee, crate::ir::validity::operands::element_path(indices@));
                        assert forall|k: int| 0 <= k < indices@.len() implies type_of(f, #[trigger] indices@[k])
                            == type_of(g, indices@[k]) by {}
                    },
                    _ => {},
                }
                assert(gep_ok(f, dst_ty@, base_ptr, indices@) == gep_ok(g, dst_ty@, base_ptr, indices@));
            },
            _ => {},
        }
    }
    if operands_ok(f) {
        assert forall|b: int, k: int| is_site(g, b, k) implies operand_ok(g, #[trigger] ins_at(g, b, k)) by {
            assert(is_site(f, p[b], k));
            assert(operand_ok(f, ins_at(f, p[b], k)));
        }
    }
    if operands_ok(g) {
        assert forall|b: int, k: int| is_site(f, b, k) implies operand_ok(f, #[trigger] ins_at(f, b, k)) by {
            assert(is_site(g, q[b], k));
            assert(operand_ok(g, ins_at(g, q[b], k)));
        }
    }
}

/// Where an avoided block of `f` sits in `g`; any position outside the
/// blocks avoids nothing in either.
pub open spec fn moved(q: Seq<int>, a: int) -> int {
    if 0 <= a < q.len() {
        q[a]
    } else {
        a
    }
}

proof fn lemma_entry_map(f: Function, g: Function, p: Seq<int>, q: Seq<int>)
    requires
        blocks_reordered(f, g, p, q),
        distinct_blocks(f),
        has_block(f, f.entry),
    ensures
        0 <= entry_index(f) < f.blocks@.len(),
        entry_index(g) == q[entry_index(f)],
{
    lemma_blocks_map(f, g, p, q);
    lemma_values_map(f, g, p, q);
    let i = choose|i: int| 0 <= i < f.blocks@.len() && #[trigger] f.blocks@[i].id == f.entry;
    assert(f.blocks@[i].id == f.entry);
    let a = entry_index(f);
    assert(0 <= a < f.blocks@.len() && f.blocks@[a].id == f.entry);
    assert(g.blocks@[q[i]].id == g.entry);
    let b = entry_index(g);
    assert(0 <= b < g.blocks@.len() && g.blocks@[b].id == g.entry);
    assert(f.blocks@[p[b]].id == f.entry);
    if p[b] != a {
        assert(f.blocks@[p[b]].id != f.blocks@[a].id);
    }
    assert(q[p[b]] == b);
}

/// Closed sets correspond through the block positions.
proof fn lemma_closed_map(f: Function, g: Function, p: Seq<int>, q: Seq<int>, a: int)
    requires
        blocks_reordered(f, g, p, q),
        distinct_blocks(f),
        has_block(f, f.entry),
    ensures
        forall|st: Set<int>|
            #[trigger] closed(g, st, moved(q, a)) ==> closed(
                f,
                Set::new(|j: int| 0 <= j < f.blocks@.len() && st.contains(q[j])),
                a,
            ),
        forall|st: Set<int>|
            #[trigger] closed(f, st, a) ==> closed(
                g,
                Set::new(|i: int| 0 <= i < g.blocks@.len() && st.contains(p[i])),
                moved(q, a),
            ),
{
    lemma_blocks_map(f, g, p, q);
    lemma_entry_map(f, g, p, q);
    let n = f.blocks@.len();
    let e = entry_index(f);
    assert forall|st: Set<int>| #[trigger] closed(g, st, moved(q, a)) implies closed(
        f,
        Set::new(|j: int| 0 <= j < f.blocks@.len() && st.contains(q[j])),
        a,
    ) by {
        let pre = Set::new(|j: int| 0 <= j < f.blocks@.len() && st.contains(q[j]));
        if e != a {
            if 0 <= a < n {
                assert(p[q[e]] == e && p[q[a]] == a);
            }
            assert(entry_index(g) != moved(q, a));
        }
        assert forall|x: int, c: int|
            0 <= x < f.blocks@.len() && 0 <= c < f.blocks@.len() && pre.contains(x) && #[trigger] edge(f, x, c)
                && c != a implies pre.contains(c) by {
            assert(edge(g, q[x], q[c]));
            if 0 <= a < n {
                assert(p[q[c]] == c && p[q[a]] == a);
            }
        }
    }
    assert forall|st: Set<int>| #[trigger] closed(f, st, a) implies closed(
        g,
        Set::new(|i: int| 0 <= i < g.blocks@.len() && st.contains(p[i])),
        moved(q, a),
    ) by {
        let img = Set::new(|i: int| 0 <= i < g.blocks@.len() && st.contains(p[i]));
        if entry_index(g) != moved(q, a) {
            assert(e != a);
            assert(p[q[e]] == e);
        }
        assert forall|x: int, c: int|
            0 <= x < g.blocks@.len() && 0 <= c < g.blocks@.len() && img.contains(x) && #[trigger] edge(g, x, c)
                && c != moved(q, a) implies img.contains(c) by {
            assert(edge(f, p[x], p[c]));
            if p[c] == a {
                assert(q[p[c]] == c);
            }
        }
    }
}

proof fn lemma_reach_map(f: Function, g: Function, p: Seq<int>, q: Seq<int>)
    requires
        blocks_reordered(f, g, p, q),
        distinct_blocks(f),
        has_block(f, f.entry),
    ensures
        forall|b: int, a: int|
            #![trigger reaches_avoiding(f, b, a)]
            0 <= b < f.blocks@.len() ==> reaches_avoiding(f, b, a) == reaches_avoiding(g, q[b], moved(q, a)),
{
    lemma_blocks_map(f, g, p, q);
    assert forall|b: int, a: int|
        #![trigger reaches_avoiding(f, b, a)]
        0 <= b < f.blocks@.len() implies reaches_avoiding(f, b, a) == reaches_avoiding(g, q[b], moved(q, a)) by {
        lemma_closed_map(f, g, p, q, a);
        if reaches_avoiding(f, b, a) {
            assert forall|st: Set<int>| #[trigger] closed(g, st, moved(q, a)) implies st.contains(q[b]) by {
                let pre = Set::new(|j: int| 0 <= j < f.blocks@.len() && st.contains(q[j]));
                assert(closed(f, pre, a));
                assert(pre.contains(b));
            }
        }
        if reaches_avoiding(g, q[b], moved(q, a)) {
            assert forall|st: Set<int>| #[trigger] closed(f, st, a) implies st.contains(b) by {
                let img = Set::new(|i: int| 0 <= i < g.blocks@.len() && st.contains(p[i]));
                assert(closed(g, img, moved(q, a)));
                assert(img.contains(q[b]));
            }
        }
    }
}

proof fn lemma_available_map(f: Function, g: Function, p: Seq<int>, q: Seq<int>)
    requires
        blocks_reordered(f, g, p, q),
        distinct_blocks(f),
        has_block(f, f.entry),
    ensures
        forall|d: int, b: int|
            #![trigger dominates(f, d, b)]
            0 <= d < f.blocks@.len() && 0 <= b < f.blocks@.len() ==> dominates(f, d, b) == dominates(g, q[d], q[b]),
        forall|b: int|
            #![trigger reachable(f, b)]
            0 <= b < f.blocks@.len() ==> reachable(f, b) == reachable(g, q[b]),
        forall|v: ValueId, b: int, pos: int|
            #![trigger available(f, v, b, pos)]
            0 <= b < f.blocks@.len() ==> available(f, v, b, pos) == available(g, v, q[b], pos),
{
    lemma_blocks_map(f, g, p, q);
    lemma_sites_map(f, g, p, q);
    lemma_reach_map(f, g, p, q);
    let n = f.blocks@.len();
    assert forall|d: int, b: int|
        #![trigger dominates(f, d, b)]
        0 <= d < n && 0 <= b < n implies dominates(f, d, b) == dominates(g, q[d], q[b]) by {
        assert(reaches_avoiding(f, b, d) == reaches_avoiding(g, q[b], moved(q, d)));
        if q[d] == q[b] {
            assert(p[q[d]] == d && p[q[b]] == b);
        }
    }
    assert forall|b: int| #![trigger reachable(f, b)] 0 <= b < n implies reachable(f, b) == reachable(g, q[b]) by {
        assert(reaches_avoiding(f, b, -1) == reaches_avoiding(g, q[b], moved(q, -1)));
    }
    assert forall|v: ValueId, b: int, pos: int|
        #![trigger available(f, v, b, pos)]
        0 <= b < n implies available(f, v, b, pos) == available(g, v, q[b], pos) by {
        assert(reachable(f, b) == reachable(g, q[b]));
        if available(f, v, b, pos) && reachable(g, q[b]) {
            assert forall|db: int, dp: int|
                is_site(g, db, dp) && defines(#[trigger] ins_at(g, db, dp), v) implies if db == q[b] {
                dp < pos
            } else {
                dominates(g, db, q[b])
            } by {
                let d = p[db];
                assert(is_site(f, d, dp) && ins_at(f, d, dp) == ins_at(g, db, dp));
                assert(q[d] == db);
                assert(dominates(f, d, b) == dominates(g, q[d], q[b]));
                if d == b {
                    assert(db == q[b]);
                } else {
                    assert(db != q[b]);
                }
            }
        }
        if available(g, v, q[b], pos) && reachable(f, b) {
            assert forall|db: int, dp: int|
                is_site(f, db, dp) && defines(#[trigger] ins_at(f, db, dp), v) implies if db == b {
                dp < pos
            } else {
                dominates(f, db, b)
            } by {
                assert(is_site(g, q[db], dp) && ins_at(g, q[db], dp) == ins_at(f, db, dp));
                assert(dominates(f, db, b) == dominates(g, q[db], q[b]));
                if db != b {
                    assert(p[q[db]] == db && p[q[b]] == b);
                }
            }
        }
    }
}

proof fn lemma_cfg_map(f: Function, g: Function, p: Seq<int>, q: Seq<int>)
    requires
        blocks_reordered(f, g, p, q),
        distinct_blocks(f),
        has_block(f, f.entry),
    ensures
        cfg_ok(f) == cfg_ok(g),
{
    lemma_blocks_map(f, g, p, q);
    lemma_sites_map(f, g, p, q);
    lemma_values_map(f, g, p, q);
    lemma_entry_map(f, g, p, q);
    lemma_available_map(f, g, p, q);
    let n = f.blocks@.len();
    assert forall|a: int, c: int|
        #![trigger edge(f, a, c)]
        0 <= a < n && 0 <= c < n implies edge(f, a, c) == edge(g, q[a], q[c]) by {}
    assert forall|b: int, t: TypeModel, input: (ValueId, BlockId)|
        #![trigger incoming_ok(f, b, t, input)]
        0 <= b < n implies incoming_ok(f, b, t, input) == incoming_ok(g, q[b], t, input) by {
        if incoming_ok(f, b, t, input) {
            let a = choose|a: int|
                0 <= a < f.blocks@.len() && #[trigger] f.blocks@[a].id == input.1 && edge(f, a, b)
                    && typed_as(f, input.0, t) && available(f, input.0, a, f.blocks@[a].instructions@.len() as int);
            assert(g.blocks@[q[a]].id == input.1 && edge(g, q[a], q[b]));
            assert(available(g, input.0, q[a], g.blocks@[q[a]].instructions@.len() as int));
        }
        if incoming_ok(g, q[b], t, input) {
            let a = choose|a: int|
                0 <= a < g.blocks@.len() && #[trigger] g.blocks@[a].id == input.1 && edge(g, a, q[b])
                    && typed_as(g, input.0, t) && available(g, input.0, a, g.blocks@[a].instructions@.len() as int);
            assert(q[p[a]] == a);
            assert(f.blocks@[p[a]].id == input.1 && edge(f, p[a], b));
            assert(available(f, input.0, p[a], f.blocks@[p[a]].instructions@.len() as int));
        }
    }
    assert forall|b: int, k: int|
        #![trigger site_ok(f, b, k)]
        0 <= b < n implies site_ok(f, b, k) == site_ok(g, q[b], k) by {
        assert(ins_at(f, b, k) == ins_at(g, q[b], k));
        match ins_at(f, b, k) {
            Instruction::Phi { ty, incomings, .. } => {
                let ins = incomings@;
                assert forall|x: int|
                    #![trigger ins_at(f, b, x)]
                    #![trigger ins_at(g, q[b], x)]
                    0 <= x < k implies ins_at(f, b, x) == ins_at(g, q[b], x) by {}
                assert forall|j: int|
                    #![trigger incoming_ok(f, b, ty@, ins[j])]
                    #![trigger incoming_ok(g, q[b], ty@, ins[j])]
                    0 <= j < ins.len() implies incoming_ok(f, b, ty@, ins[j]) == incoming_ok(g, q[b], ty@, ins[j]) by {}
                assert((forall|x: int| 0 <= x < k ==> #[trigger] ins_at(f, b, x) is Phi) == (forall|x: int|
                    0 <= x < k ==> #[trigger] ins_at(g, q[b], x) is Phi));
                assert((forall|j: int| 0 <= j < ins.len() ==> incoming_ok(f, b, ty@, #[trigger] ins[j])) == (
                forall|j: int| 0 <= j < ins.len() ==> incoming_ok(g, q[b], ty@, #[trigger] ins[j])));
                let pf = forall|a: int|
                    0 <= a < f.blocks@.len() && #[trigger] edge(f, a, b) ==> exists|j: int|
                        0 <= j < ins.len() && #[trigger] ins[j].1 == f.blocks@[a].id;
                let pg = forall|a: int|
                    0 <= a < g.blocks@.len() && #[trigger] edge(g, a, q[b]) ==> exists|j: int|
                        0 <= j < ins.len() && #[trigger] ins[j].1 == g.blocks@[a].id;
                if pf {
                    assert forall|a: int| 0 <= a < g.blocks@.len() && #[trigger] edge(g, a, q[b]) implies exists|j: int|
                        0 <= j < ins.len() && #[trigger] ins[j].1 == g.blocks@[a].id by {
                        assert(q[p[a]] == a);
                        assert(edge(f, p[a], b));
                        assert(f.blocks@[p[a]].id == g.blocks@[a].id);
                    }
                }
                if pg {
                    assert forall|a: int| 0 <= a < f.blocks@.len() && #[trigger] edge(f, a, b) implies exists|j: int|
                        0 <= j < ins.len() && #[trigger] ins[j].1 == f.blocks@[a].id by {
                        assert(edge(g, q[a], q[b]));
                        assert(f.blocks@[a].id == g.blocks@[q[a]].id);
                    }
                }
                assert(f.blocks@[b].id == g.blocks@[q[b]].id);
                assert(phi_ok(f, b, k, ty, ins) == phi_ok(g, q[b], k, ty, ins));
            },
            _ => {
                let uses = crate::ir::validity::facts::instr_uses_spec(ins_at(f, b, k));
                assert forall|j: int| 0 <= j < uses.len() implies available(f, #[trigger] uses[j], b, k)
                    == available(g, uses[j], q[b], k) by {}
            },
        }
    }
    assert forall|b: int|
        #![trigger terminator_available(f, b)]
        0 <= b < n implies terminator_available(f, b) == terminator_available(g, q[b]) by {
        assert(f.blocks@[b] == g.blocks@[q[b]]);
    }
    if cfg_ok(f) {
        assert forall|a: int| 0 <= a < g.blocks@.len() implies !#[trigger] edge(g, a, entry_index(g)) by {
            assert(q[p[a]] == a);
            assert(!edge(f, p[a], entry_index(f)));
        }
        assert forall|b: int, k: int| is_site(g, b, k) implies #[trigger] site_ok(g, b, k) by {
            assert(q[p[b]] == b);
            assert(is_site(f, p[b], k));
            assert(site_ok(f, p[b], k));
        }
        assert forall|b: int| 0 <= b < g.blocks@.len() implies #[trigger] terminator_available(g, b) by {
            assert(q[p[b]] == b);
            assert(terminator_available(f, p[b]));
        }
    }
    if cfg_ok(g) {
        assert forall|a: int| 0 <= a < f.blocks@.len() implies !#[trigger] edge(f, a, entry_index(f)) by {
            assert(!edge(g, q[a], entry_index(g)));
        }
        assert forall|b: int, k: int| is_site(f, b, k) implies #[trigger] site_ok(f, b, k) by {
            assert(is_site(g, q[b], k));
            assert(site_ok(g, q[b], k));
        }
        assert forall|b: int| 0 <= b < f.blocks@.len() implies #[trigger] terminator_available(f, b) by {
            assert(terminator_available(g, q[b]));
        }
    }
}

/// A block's named constant declarations.
pub open spec fn decl_piece<'a>() -> spec_fn(BasicBlock) -> Seq<ConstDef<'a>> {
    |b: BasicBlock| decl_defs::<'a>(b.instructions@)
}

/// A block's literal constants.
pub open spec fn literal_piece<'a>() -> spec_fn(BasicBlock) -> Seq<ConstBinding<'a>> {
    |b: BasicBlock| literal_bindings::<'a>(b.instructions@)
}

proof fn lemma_decls_flat<'a>(bs: Seq<BasicBlock>)
    ensures
        function_decls::<'a>(bs) == flatten(bs, decl_piece::<'a>()),
    decreases bs.len(),
{
    if bs.len() > 0 {
        lemma_decls_flat(bs.drop_last());
    }
}

proof fn lemma_literals_flat<'a>(bs: Seq<BasicBlock>)
    ensures
        function_literals::<'a>(bs) == flatten(bs, literal_piece::<'a>()),
    decreases bs.len(),
{
    if bs.len() > 0 {
        lemma_literals_flat(bs.drop_last());
    }
}

/// The value a literal constant instruction defines.
pub open spec fn literal_id(ins: Instruction) -> Option<ValueId> {
    match ins {
        Instruction::Const { dst, .. } => Some(dst),
        _ => None,
    }
}

proof fn lemma_block_literals_unique<'a>(s: Seq<Instruction>)
    requires
        forall|k1: int, k2: int|
            0 <= k1 < s.len() && 0 <= k2 < s.len() && k1 != k2 && #[trigger] literal_id(s[k1]) is Some
                && #[trigger] literal_id(s[k2]) is Some ==> literal_id(s[k1]) != literal_id(s[k2]),
    ensures
        ids_unique(literal_bindings::<'a>(s)),
        forall|x: int|
            0 <= x < literal_bindings::<'a>(s).len() ==> exists|k: int|
                0 <= k < s.len() && #[trigger] literal_id(s[k]) is Some && (#[trigger] literal_bindings::<'a>(s)[x]).id
                    == ConstRef::Local(literal_id(s[k]).unwrap()),
    decreases s.len(),
{
    if s.len() > 0 {
        let s2 = s.drop_last();
        lemma_block_literals_unique(s2);
        let a = literal_bindings::<'a>(s2);
        let l = literal_bindings::<'a>(s);
        let n = s.len() - 1;
        match s.last() {
            Instruction::Const { dst, .. } => {
                assert(l.len() == a.len() + 1);
                assert forall|x: int| 0 <= x < a.len() implies #[trigger] l[x] == a[x] by {}
                assert forall|i: int, j: int|
                    #![trigger l[i], l[j]]
                    0 <= i < l.len() && 0 <= j < l.len() && i != j implies l[i].id != l[j].id by {
                    if i < a.len() && j < a.len() {
                        assert(a[i] == l[i] && a[j] == l[j]);
                    } else if i < a.len() {
                        let k = choose|k: int|
                            0 <= k < s2.len() && #[trigger] literal_id(s2[k]) is Some && (#[trigger] a[i]).id
                                == ConstRef::Local(literal_id(s2[k]).unwrap());
                        assert(s2[k] == s[k] && s[n] == s.last());
                        assert(literal_id(s[k]) != literal_id(s[n]));
                    } else if j < a.len() {
                        let k = choose|k: int|
                            0 <= k < s2.len() && #[trigger] literal_id(s2[k]) is Some && (#[trigger] a[j]).id
                                == ConstRef::Local(literal_id(s2[k]).unwrap());
                        assert(s2[k] == s[k] && s[n] == s.last());
                        assert(literal_id(s[k]) != literal_id(s[n]));
                    }
                }
                assert forall|x: int| 0 <= x < l.len() implies exists|k: int|
                    0 <= k < s.len() && #[trigger] literal_id(s[k]) is Some && (#[trigger] l[x]).id
                        == ConstRef::Local(literal_id(s[k]).unwrap()) by {
                    if x < a.len() {
                        let k = choose|k: int|
                            0 <= k < s2.len() && #[trigger] literal_id(s2[k]) is Some && (#[trigger] a[x]).id
                                == ConstRef::Local(literal_id(s2[k]).unwrap());
                        assert(s2[k] == s[k]);
                    } else {
                        assert(s[n] == s.last());
                        assert(literal_id(s[n]) is Some);
                    }
                }
            },
            _ => {
                assert(l =~= a);
                assert forall|x: int| 0 <= x < l.len() implies exists|k: int|
                    0 <= k < s.len() && #[trigger] literal_id(s[k]) is Some && (#[trigger] l[x]).id
                        == ConstRef::Local(literal_id(s[k]).unwrap()) by {
                    let k = choose|k: int|
                        0 <= k < s2.len() && #[trigger] literal_id(s2[k]) is Some && (#[trigger] a[x]).id
                            == ConstRef::Local(literal_id(s2[k]).unwrap());
                    assert(s2[k] == s[k]);
                }
            },
        }
    }
}

/// The literal constant defined at position `k` of block `b`, if any.
pub open spec fn literal_at(bs: Seq<BasicBlock>, b: int, k: int) -> Option<ValueId> {
    if 0 <= b < bs.len() && 0 <= k < bs[b].instructions@.len() {
        literal_id(bs[b].instructions@[k])
    } else {
        None
    }
}

proof fn lemma_literals_unique<'a>(bs: Seq<BasicBlock>)
    requires
        forall|b1: int, k1: int, b2: int, k2: int|
            (b1 != b2 || k1 != k2) && #[trigger] literal_at(bs, b1, k1) is Some && #[trigger] literal_at(bs, b2, k2) is Some
                ==> literal_at(bs, b1, k1) != literal_at(bs, b2, k2),
    ensures
        ids_unique(function_literals::<'a>(bs)),
        forall|x: int|
            0 <= x < function_literals::<'a>(bs).len() ==> exists|b: int, k: int|
                #[trigger] literal_at(bs, b, k) is Some && (#[trigger] function_literals::<'a>(bs)[x]).id
                    == ConstRef::Local(literal_at(bs, b, k).unwrap()),
    decreases bs.len(),
{
    if bs.len() > 0 {
        let n = bs.len() - 1;
        let bs2 = bs.drop_last();
        assert forall|b: int, k: int| #[trigger] literal_at(bs2, b, k) == if 0 <= b < n { literal_at(bs, b, k) } else { None } by {}
        lemma_literals_unique(bs2);
        let s = bs.last().instructions@;
        assert forall|k: int| #[trigger] literal_at(bs, n, k) == if 0 <= k < s.len() { literal_id(s[k]) } else { None } by {}
        assert forall|k1: int, k2: int|
            0 <= k1 < s.len() && 0 <= k2 < s.len() && k1 != k2 && #[trigger] literal_id(s[k1]) is Some
                && #[trigger] literal_id(s[k2]) is Some implies literal_id(s[k1]) != literal_id(s[k2]) by {
            assert(literal_at(bs, n, k1) == literal_id(s[k1]) && literal_at(bs, n, k2) == literal_id(s[k2]));
        }
        lemma_block_literals_unique(s);
        let a = function_literals::<'a>(bs2);
        let c = literal_bindings::<'a>(s);
        let l = function_literals::<'a>(bs);
        assert(l == a + c);
        assert forall|i: int, j: int|
            #![trigger l[i], l[j]]
            0 <= i < l.len() && 0 <= j < l.len() && i != j implies l[i].id != l[j].id by {
            if i < a.len() && j < a.len() {
                assert(a[i] == l[i] && a[j] == l[j]);
            } else if i >= a.len() && j >= a.len() {
                assert(c[i - a.len()] == l[i] && c[j - a.len()] == l[j]);
            } else {
                let (x, y) = if i < a.len() { (i, j) } else { (j, i) };
                assert(a[x] == l[x] && c[y - a.len()] == l[y]);
                let (b, k) = choose|b: int, k: int|
                    #[trigger] literal_at(bs2, b, k) is Some && (#[trigger] a[x]).id == ConstRef::Local(
                        literal_at(bs2, b, k).unwrap(),
                    );
                let k2 = choose|k: int|
                    0 <= k < s.len() && #[trigger] literal_id(s[k]) is Some && (#[trigger] c[y - a.len()]).id
                        == ConstRef::Local(literal_id(s[k]).unwrap());
                assert(literal_at(bs, b, k) == literal_at(bs2, b, k));
                assert(literal_at(bs, n, k2) == literal_id(s[k2]));
                assert(literal_at(bs, b, k) != literal_at(bs, n, k2));
            }
        }
        assert forall|x: int| 0 <= x < l.len() implies exists|b: int, k: int|
            #[trigger] literal_at(bs, b, k) is Some && (#[trigger] l[x]).id == ConstRef::Local(
                literal_at(bs, b, k).unwrap(),
            ) by {
            if x < a.len() {
                assert(a[x] == l[x]);
                let (b, k) = choose|b: int, k: int|
                    #[trigger] literal_at(bs2, b, k) is Some && (#[trigger] a[x]).id == ConstRef::Local(
                        literal_at(bs2, b, k).unwrap(),
                    );
                assert(literal_at(bs, b, k) == literal_at(bs2, b, k));
            } else {
                assert(c[x - a.len()] == l[x]);
                let k = choose|k: int|
                    0 <= k < s.len() && #[trigger] literal_id(s[k]) is Some && (#[trigger] c[x - a.len()]).id
                        == ConstRef::Local(literal_id(s[k]).unwrap());
                assert(literal_at(bs, n, k) == literal_id(s[k]));
            }
        }
    }
}

/// Constant declarations check the same with the blocks in any order.
proof fn lemma_locals_map(m: Module, f: Function, g: Function, p: Seq<int>, q: Seq<int>)
    requires
        blocks_reordered(f, g, p, q),
        distinct_defs(f),
    ensures
        locals_consts_ok(m, f) == locals_consts_ok(m, g),
{
    lemma_blocks_map(f, g, p, q);
    let base = global_env(m.globals@);
    let lf = function_literals(f.blocks@);
    let lg = function_literals(g.blocks@);
    let df = function_decls(f.blocks@);
    let dg = function_decls(g.blocks@);
    lemma_literals_flat(f.blocks@);
    lemma_literals_flat(g.blocks@);
    lemma_decls_flat(f.blocks@);
    lemma_decls_flat(g.blocks@);
    lemma_flatten_reordered(f.blocks@, p, q, literal_piece());
    lemma_flatten_reordered(f.blocks@, p, q, decl_piece());
    assert(permutes(lf, lg));
    assert(permutes(df, dg));
    let fb = f.blocks@;
    assert forall|b1: int, k1: int, b2: int, k2: int|
        (b1 != b2 || k1 != k2) && #[trigger] literal_at(fb, b1, k1) is Some && #[trigger] literal_at(fb, b2, k2) is Some
            implies literal_at(fb, b1, k1) != literal_at(fb, b2, k2) by {
        assert(is_site(f, b1, k1) && is_site(f, b2, k2));
        assert(instr_result_spec(ins_at(f, b1, k1)) is Some);
        if literal_at(fb, b1, k1) == literal_at(fb, b2, k2) {
            assert(defines(ins_at(f, b2, k2), result_id(ins_at(f, b1, k1))));
        }
    }
    lemma_literals_unique(fb);
    let (pl, ql) = choose|p: Seq<int>, q: Seq<int>| #[trigger] is_reordering(p, q, lf.len() as int) && reordered(lf, p) == lg;
    lemma_reorder_lookup(lf, pl, ql);
    lemma_concat_lookups(base, lg, lf);
    assert(same_lookups(base + lf, base + lg)) by {
        assert forall|id: ConstRef| #[trigger] crate::ir::const_expr::lookup_spec(base + lf, id)
            == crate::ir::const_expr::lookup_spec(base + lg, id) by {
            assert(crate::ir::const_expr::lookup_spec(base + lg, id) == crate::ir::const_expr::lookup_spec(base + lf, id));
        }
    }
    if locals_consts_ok(m, f) {
        lemma_consts_same_base(base + lf, base + lg, df);
        let (pd, qd) = choose|p: Seq<int>, q: Seq<int>| #[trigger] is_reordering(p, q, df.len() as int) && reordered(df, p) == dg;
        lemma_consts_reorder(base + lg, df, pd, qd);
    }
    if locals_consts_ok(m, g) {
        lemma_consts_same_base(base + lg, base + lf, dg);
        lemma_permutes_sym(df, dg);
        let (pd, qd) = choose|p: Seq<int>, q: Seq<int>| #[trigger] is_reordering(p, q, dg.len() as int) && reordered(dg, p) == df;
        lemma_consts_reorder(base + lf, dg, pd, qd);
    }
}

/// Block-order law: a function whose blocks are stored in another order is
/// valid exactly when the function is. Blocks are named by identity, and the
/// entry by its identity.
pub proof fn lemma_function_block_order(m: Module, f: Function, g: Function, p: Seq<int>, q: Seq<int>)
    requires
        blocks_reordered(f, g, p, q),
    ensures
        function_valid(m, f) == function_valid(m, g),
{
    lemma_values_map(f, g, p, q);
    lemma_defs_map(f, g, p, q);
    lemma_checks_map(f, g, p, q);
    if distinct_defs(f) {
        lemma_operands_map(f, g, p, q);
        lemma_locals_map(m, f, g, p, q);
    }
    if distinct_blocks(f) && has_block(f, f.entry) {
        lemma_cfg_map(f, g, p, q);
    }
}

/// Block-order law for modules: storing the blocks of one function in another
/// order leaves the verdict on the whole module unchanged.
pub proof fn lemma_module_block_order(m1: Module, m2: Module, i: int, p: Seq<int>, q: Seq<int>)
    requires
        0 <= i < m1.functions@.len(),
        m2.target == m1.target,
        m2.datalayout == m1.datalayout,
        m2.globals == m1.globals,
        m2.functions@ == m1.functions@.update(i, m2.functions@[i]),
        blocks_reordered(m1.functions@[i], m2.functions@[i], p, q),
    ensures
        module_valid(m1) == module_valid(m2),
{
    lemma_function_block_order(m1, m1.functions@[i], m2.functions@[i], p, q);
    assert forall|j: int|
        #![trigger m1.functions@[j]]
        #![trigger m2.functions@[j]]
        0 <= j < m1.functions@.len() implies function_valid(m1, m1.functions@[j]) == function_valid(
        m2,
        m2.functions@[j],
    ) && m1.functions@[j].name == m2.functions@[j].name by {
        if j != i {
            assert(m2.functions@[j] == m1.functions@[j]);
        }
    }
    assert(m1.functions@.len() == m2.functions@.len());
}

} // verus!
