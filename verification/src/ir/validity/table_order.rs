//! A function's value-type table is read by value, never by position: the order
//! in which it lists its entries decides nothing.
use vstd::prelude::*;
use crate::ir::module::{Function, Instruction, Module, Terminator};
use crate::ir::types::{BlockId, TypeModel, ValueId};
use crate::ir::validity::{blocks_ok, function_valid, module_valid, operands_ok};
use crate::ir::validity::blocks::{block_ok, instr_basic_ok, switch_ok, terminator_ok};
use crate::ir::validity::cfg::{
    available, cfg_ok, closed, dominates, edge, entry_index, incoming_ok, phi_ok, reachable,
    reaches_avoiding, site_ok, terminator_available,
};
use crate::ir::validity::operands::{const_ordinal, const_payload, gep_ok, gep_path, operand_ok};
use crate::ir::validity::order::{is_reordering, lemma_value_table_order, reordered};
use crate::ir::validity::types_table::{defs_typed, table_distinct, table_entries_defined, value_types_ok};
use crate::ir::validity::constants::locals_consts_ok;
use crate::ir::validity::facts::{
    defines, distinct_blocks, distinct_defs, has_block, ins_at, is_defined, is_param, is_site,
    params_not_void, type_of, typed_as,
};

verus! {

/// `g` is `f` with another value-type table that records the same type for
/// every value.
pub open spec fn same_but_table(f: Function, g: Function) -> bool {
    &&& f.name == g.name
    &&& f.params == g.params
    &&& f.ret_ty == g.ret_ty
    &&& f.blocks == g.blocks
    &&& f.entry == g.entry
    &&& forall|v: ValueId|
        #![trigger type_of(f, v)]
        #![trigger type_of(g, v)]
        type_of(f, v) == type_of(g, v)
}

proof fn lemma_defined_agree(f: Function, g: Function, v: ValueId)
    requires
        same_but_table(f, g),
    ensures
        is_defined(f, v) == is_defined(g, v),
        typed_as(f, v, TypeModel::Bool) == typed_as(g, v, TypeModel::Bool),
{
    assert(type_of(f, v) == type_of(g, v));
    if is_defined(f, v) && !is_param(f, v) {
        let (b, p) = choose|b: int, p: int| is_site(f, b, p) && defines(#[trigger] ins_at(f, b, p), v);
        assert(ins_at(g, b, p) == ins_at(f, b, p));
    }
    if is_defined(g, v) && !is_param(g, v) {
        let (b, p) = choose|b: int, p: int| is_site(g, b, p) && defines(#[trigger] ins_at(g, b, p), v);
        assert(ins_at(f, b, p) == ins_at(g, b, p));
    }
}

proof fn lemma_typed_agree(f: Function, g: Function, v: ValueId, t: TypeModel)
    requires
        same_but_table(f, g),
    ensures
        typed_as(f, v, t) == typed_as(g, v, t),
{
    assert(type_of(f, v) == type_of(g, v));
}

/// The checks that need no control-flow graph agree.
proof fn lemma_structure_agree(f: Function, g: Function)
    requires
        same_but_table(f, g),
    ensures
        distinct_blocks(f) == distinct_blocks(g),
        params_not_void(f) == params_not_void(g),
        distinct_defs(f) == distinct_defs(g),
        forall|id: BlockId|
            #![trigger has_block(f, id)]
            #![trigger has_block(g, id)]
            has_block(f, id) == has_block(g, id),
{
    assert forall|b: int, p: int| #[trigger] is_site(f, b, p) == is_site(g, b, p) && ins_at(f, b, p) == ins_at(g, b, p) by {}
    assert(distinct_defs(f) == distinct_defs(g)) by {
        if distinct_defs(f) {
            assert forall|i: int, b: int, p: int|
                0 <= i < g.params@.len() && is_site(g, b, p) implies !defines(
                #[trigger] ins_at(g, b, p),
                #[trigger] g.params@[i].id,
            ) by {
                assert(ins_at(f, b, p) == ins_at(g, b, p));
                assert(is_site(f, b, p));
            }
            assert forall|b1: int, p1: int, b2: int, p2: int|
                is_site(g, b1, p1) && is_site(g, b2, p2) && (b1 != b2 || p1 != p2)
                    && crate::ir::validity::facts::instr_result_spec(ins_at(g, b1, p1)) is Some implies !defines(
                #[trigger] ins_at(g, b2, p2),
                crate::ir::validity::facts::result_id(#[trigger] ins_at(g, b1, p1)),
            ) by {
                assert(ins_at(f, b1, p1) == ins_at(g, b1, p1));
                assert(ins_at(f, b2, p2) == ins_at(g, b2, p2));
                assert(is_site(f, b1, p1) && is_site(f, b2, p2));
            }
        }
        if distinct_defs(g) {
            assert forall|i: int, b: int, p: int|
                0 <= i < f.params@.len() && is_site(f, b, p) implies !defines(
                #[trigger] ins_at(f, b, p),
                #[trigger] f.params@[i].id,
            ) by {
                assert(ins_at(f, b, p) == ins_at(g, b, p));
                assert(is_site(g, b, p));
            }
            assert forall|b1: int, p1: int, b2: int, p2: int|
                is_site(f, b1, p1) && is_site(f, b2, p2) && (b1 != b2 || p1 != p2)
                    && crate::ir::validity::facts::instr_result_spec(ins_at(f, b1, p1)) is Some implies !defines(
                #[trigger] ins_at(f, b2, p2),
                crate::ir::validity::facts::result_id(#[trigger] ins_at(f, b1, p1)),
            ) by {
                assert(ins_at(f, b1, p1) == ins_at(g, b1, p1));
                assert(ins_at(f, b2, p2) == ins_at(g, b2, p2));
                assert(is_site(g, b1, p1) && is_site(g, b2, p2));
            }
        }
    }
}

/// Definitions and recorded types agree for every value.
proof fn lemma_values_agree(f: Function, g: Function)
    requires
        same_but_table(f, g),
    ensures
        forall|v: ValueId|
            #![trigger is_defined(f, v)]
            #![trigger is_defined(g, v)]
            is_defined(f, v) == is_defined(g, v),
        forall|v: ValueId, t: TypeModel|
            #![trigger typed_as(f, v, t)]
            #![trigger typed_as(g, v, t)]
            typed_as(f, v, t) == typed_as(g, v, t),
{
    assert forall|v: ValueId| #[trigger] is_defined(f, v) == is_defined(g, v) by {
        lemma_defined_agree(f, g, v);
    }
    assert forall|v: ValueId, t: TypeModel| #[trigger] typed_as(f, v, t) == typed_as(g, v, t) by {
        lemma_typed_agree(f, g, v, t);
    }
}

/// Every block passes the checks without a control-flow graph in both or neither.
proof fn lemma_blocks_agree(f: Function, g: Function)
    requires
        same_but_table(f, g),
    ensures
        blocks_ok(f) == blocks_ok(g),
{
    lemma_structure_agree(f, g);
    lemma_values_agree(f, g);
    assert forall|ins: Instruction| #[trigger] instr_basic_ok(f, ins) == instr_basic_ok(g, ins) by {
        let uses = crate::ir::validity::facts::instr_uses_spec(ins);
        assert forall|k: int| 0 <= k < uses.len() implies is_defined(f, #[trigger] uses[k]) == is_defined(g, uses[k]) by {}
    }
    assert forall|t: Terminator| #[trigger] terminator_ok(f, t) == terminator_ok(g, t) by {
        match t {
            Terminator::Switch { ty, value, cases, .. } => {
                assert(switch_ok(f, ty@, value, cases@) == switch_ok(g, ty@, value, cases@));
            },
            _ => {},
        }
    }
    assert forall|b: int|
        #![trigger block_ok(f, b)]
        #![trigger block_ok(g, b)]
        0 <= b < f.blocks@.len() implies block_ok(f, b) == block_ok(g, b) by {
        let blk = f.blocks@[b];
        assert forall|p: int| 0 <= p < blk.instructions@.len() implies instr_basic_ok(
            f,
            #[trigger] blk.instructions@[p],
        ) == instr_basic_ok(g, blk.instructions@[p]) by {}
        if blk.terminator is Some {
            let ts = crate::ir::validity::facts::targets_spec(blk.terminator.unwrap());
            assert forall|k: int| 0 <= k < ts.len() implies has_block(f, #[trigger] ts[k]) == has_block(g, ts[k]) by {}
            assert(terminator_ok(f, blk.terminator.unwrap()) == terminator_ok(g, blk.terminator.unwrap()));
        }
    }
}

/// With each value defined once, a constant field position is read from the
/// one instruction that defines it.
proof fn lemma_ordinal_agree(f: Function, g: Function, v: ValueId)
    requires
        same_but_table(f, g),
        distinct_defs(f),
    ensures
        const_ordinal(f, v) == const_ordinal(g, v),
{
    let ef = exists|b: int, p: int| is_site(f, b, p) && #[trigger] const_payload(ins_at(f, b, p), v) is Some;
    let eg = exists|b: int, p: int| is_site(g, b, p) && #[trigger] const_payload(ins_at(g, b, p), v) is Some;
    if ef {
        let (b, p) = choose|b: int, p: int| is_site(f, b, p) && #[trigger] const_payload(ins_at(f, b, p), v) is Some;
        assert(ins_at(g, b, p) == ins_at(f, b, p));
        assert(is_site(g, b, p) && const_payload(ins_at(g, b, p), v) is Some);
    }
    if eg {
        let (b, p) = choose|b: int, p: int| is_site(g, b, p) && #[trigger] const_payload(ins_at(g, b, p), v) is Some;
        assert(ins_at(g, b, p) == ins_at(f, b, p));
        assert(is_site(f, b, p) && const_payload(ins_at(f, b, p), v) is Some);
    }
    if ef {
        let (b1, p1) = choose|b: int, p: int| is_site(f, b, p) && #[trigger] const_payload(ins_at(f, b, p), v) is Some;
        let (b2, p2) = choose|b: int, p: int| is_site(g, b, p) && #[trigger] const_payload(ins_at(g, b, p), v) is Some;
        assert(ins_at(g, b2, p2) == ins_at(f, b2, p2));
        if b1 != b2 || p1 != p2 {
            assert(crate::ir::validity::facts::instr_result_spec(ins_at(f, b1, p1)) is Some);
            assert(crate::ir::validity::facts::result_id(ins_at(f, b1, p1)) == v);
            assert(!defines(ins_at(f, b2, p2), crate::ir::validity::facts::result_id(ins_at(f, b1, p1))));
        }
    }
}

proof fn lemma_path_agree(f: Function, g: Function, ty: TypeModel, path: Seq<ValueId>)
    requires
        same_but_table(f, g),
        distinct_defs(f),
    ensures
        gep_path(f, ty, path) == gep_path(g, ty, path),
    decreases path.len(),
{
    if path.len() > 0 {
        lemma_ordinal_agree(f, g, path[0]);
        match ty {
            TypeModel::Array(e, _) => lemma_path_agree(f, g, *e, path.drop_first()),
            TypeModel::Struct(fs) => {
                match const_ordinal(f, path[0]) {
                    Some(o) => {
                        if o < fs.len() {
                            lemma_path_agree(f, g, fs[o], path.drop_first());
                        }
                    },
                    None => {},
                }
            },
            TypeModel::Tuple(fs) => {
                match const_ordinal(f, path[0]) {
                    Some(o) => {
                        if o < fs.len() {
                            lemma_path_agree(f, g, fs[o], path.drop_first());
                        }
                    },
                    None => {},
                }
            },
            _ => {},
        }
    }
}

/// Every operand check agrees.
proof fn lemma_operands_agree(f: Function, g: Function)
    requires
        same_but_table(f, g),
        distinct_defs(f),
    ensures
        operands_ok(f) == operands_ok(g),
{
    lemma_values_agree(f, g);
    assert forall|ins: Instruction| #[trigger] operand_ok(f, ins) == operand_ok(g, ins) by {
        match ins {
            Instruction::Gep { dst_ty, base_ptr, indices, .. } => {
                assert(type_of(f, base_ptr) == type_of(g, base_ptr));
                match type_of(f, base_ptr) {
                    Some(TypeModel::Ptr(pointee)) => {
                        lemma_path_agree(f, g, *pointee, crate::ir::validity::operands::element_path(indices@));
                        assert forall|k: int| 0 <= k < indices@.len() implies type_of(f, #[trigger] indices@[k])
                            == type_of(g, indices@[k]) by {}
                    },
                    _ => {},
                }
                assert(gep_ok(f, dst_ty@, base_ptr, indices@) == gep_ok(g, dst_ty@, base_ptr, indices@));
            },
            _ => {},
        }
    }
    assert forall|b: int, p: int|
        #![trigger ins_at(f, b, p)]
        #![trigger ins_at(g, b, p)]
        is_site(f, b, p) == is_site(g, b, p) && ins_at(f, b, p) == ins_at(g, b, p) by {}
}

proof fn lemma_entry_agree(f: Function, g: Function)
    requires
        same_but_table(f, g),
        distinct_blocks(f),
        has_block(f, f.entry),
    ensures
        entry_index(f) == entry_index(g),
        0 <= entry_index(f) < f.blocks@.len(),
{
    let i = choose|i: int| 0 <= i < f.blocks@.len() && #[trigger] f.blocks@[i].id == f.entry;
    assert(0 <= i < g.blocks@.len() && g.blocks@[i].id == g.entry);
    let a = entry_index(f);
    let b = entry_index(g);
    assert(f.blocks@[a].id == f.entry);
    assert(g.blocks@[b].id == g.entry);
    if a != b {
        assert(f.blocks@[a].id != f.blocks@[b].id);
    }
}

/// Paths, dominance and availability agree.
proof fn lemma_paths_agree(f: Function, g: Function)
    requires
        same_but_table(f, g),
        distinct_blocks(f),
        has_block(f, f.entry),
    ensures
        forall|a: int, c: int|
            #![trigger edge(f, a, c)]
            #![trigger edge(g, a, c)]
            edge(f, a, c) == edge(g, a, c),
        forall|b: int, d: int|
            #![trigger reaches_avoiding(f, b, d)]
            #![trigger reaches_avoiding(g, b, d)]
            reaches_avoiding(f, b, d) == reaches_avoiding(g, b, d),
        forall|v: ValueId, b: int, pos: int|
            #![trigger available(f, v, b, pos)]
            #![trigger available(g, v, b, pos)]
            available(f, v, b, pos) == available(g, v, b, pos),
{
    lemma_entry_agree(f, g);
    assert forall|a: int, c: int|
        #![trigger edge(f, a, c)]
        #![trigger edge(g, a, c)]
        edge(f, a, c) == edge(g, a, c) by {}
    assert forall|st: Set<int>, d: int|
        #![trigger closed(f, st, d)]
        #![trigger closed(g, st, d)]
        closed(f, st, d) == closed(g, st, d) by {}
    assert forall|b: int, d: int|
        #![trigger reaches_avoiding(f, b, d)]
        #![trigger reaches_avoiding(g, b, d)]
        reaches_avoiding(f, b, d) == reaches_avoiding(g, b, d) by {
        assert forall|st: Set<int>|
            #![trigger closed(f, st, d)]
            #![trigger closed(g, st, d)]
            (closed(f, st, d) ==> st.contains(b)) == (closed(g, st, d) ==> st.contains(b)) by {}
    }
    assert forall|v: ValueId, b: int, pos: int|
        #![trigger available(f, v, b, pos)]
        #![trigger available(g, v, b, pos)]
        available(f, v, b, pos) == available(g, v, b, pos) by {
        assert(reachable(f, b) == reachable(g, b));
        assert forall|db: int, dp: int|
            #![trigger ins_at(f, db, dp)]
            #![trigger ins_at(g, db, dp)]
            ins_at(f, db, dp) == ins_at(g, db, dp) && is_site(f, db, dp) == is_site(g, db, dp)
                && dominates(f, db, b) == dominates(g, db, b) by {}
    }
}

/// The control-flow and SSA checks agree.
proof fn lemma_cfg_agree(f: Function, g: Function)
    requires
        same_but_table(f, g),
        distinct_blocks(f),
        has_block(f, f.entry),
    ensures
        cfg_ok(f) == cfg_ok(g),
{
    lemma_entry_agree(f, g);
    lemma_paths_agree(f, g);
    lemma_values_agree(f, g);
    assert forall|b: int, t: TypeModel, input: (ValueId, BlockId)|
        #![trigger incoming_ok(f, b, t, input)]
        #![trigger incoming_ok(g, b, t, input)]
        incoming_ok(f, b, t, input) == incoming_ok(g, b, t, input) by {
        if incoming_ok(f, b, t, input) {
            let a = choose|a: int|
                0 <= a < f.blocks@.len() && #[trigger] f.blocks@[a].id == input.1 && edge(f, a, b)
                    && typed_as(f, input.0, t) && available(f, input.0, a, f.blocks@[a].instructions@.len() as int);
            assert(g.blocks@[a].id == input.1 && edge(g, a, b));
            assert(available(g, input.0, a, g.blocks@[a].instructions@.len() as int));
        }
        if incoming_ok(g, b, t, input) {
            let a = choose|a: int|
                0 <= a < g.blocks@.len() && #[trigger] g.blocks@[a].id == input.1 && edge(g, a, b)
                    && typed_as(g, input.0, t) && available(g, input.0, a, g.blocks@[a].instructions@.len() as int);
            assert(f.blocks@[a].id == input.1 && edge(f, a, b));
            assert(available(f, input.0, a, f.blocks@[a].instructions@.len() as int));
        }
    }
    assert forall|b: int, p: int|
        #![trigger site_ok(f, b, p)]
        #![trigger site_ok(g, b, p)]
        site_ok(f, b, p) == site_ok(g, b, p) by {
        assert(ins_at(f, b, p) == ins_at(g, b, p));
        match ins_at(f, b, p) {
            Instruction::Phi { ty, incomings, .. } => {
                let ins = incomings@;
                assert forall|q: int|
                    #![trigger ins_at(f, b, q)]
                    #![trigger ins_at(g, b, q)]
                    0 <= q < p implies ins_at(f, b, q) == ins_at(g, b, q) by {}
                assert forall|k: int|
                    #![trigger incoming_ok(f, b, ty@, ins[k])]
                    #![trigger incoming_ok(g, b, ty@, ins[k])]
                    0 <= k < ins.len() implies incoming_ok(f, b, ty@, ins[k]) == incoming_ok(g, b, ty@, ins[k]) by {}
                assert forall|a: int|
                    #![trigger edge(f, a, b)]
                    #![trigger edge(g, a, b)]
                    0 <= a < f.blocks@.len() implies edge(f, a, b) == edge(g, a, b) by {}
                assert((forall|q: int| 0 <= q < p ==> #[trigger] ins_at(f, b, q) is Phi) == (forall|q: int|
                    0 <= q < p ==> #[trigger] ins_at(g, b, q) is Phi));
                assert((forall|k: int| 0 <= k < ins.len() ==> incoming_ok(f, b, ty@, #[trigger] ins[k])) == (
                forall|k: int| 0 <= k < ins.len() ==> incoming_ok(g, b, ty@, #[trigger] ins[k])));
                assert((forall|a: int|
                    0 <= a < f.blocks@.len() && #[trigger] edge(f, a, b) ==> exists|k: int|
                        0 <= k < ins.len() && #[trigger] ins[k].1 == f.blocks@[a].id) == (forall|a: int|
                    0 <= a < g.blocks@.len() && #[trigger] edge(g, a, b) ==> exists|k: int|
                        0 <= k < ins.len() && #[trigger] ins[k].1 == g.blocks@[a].id));
                assert(phi_ok(f, b, p, ty, ins) == phi_ok(g, b, p, ty, ins));
            },
            _ => {
                let uses = crate::ir::validity::facts::instr_uses_spec(ins_at(f, b, p));
                assert forall|k: int| 0 <= k < uses.len() implies available(f, #[trigger] uses[k], b, p)
                    == available(g, uses[k], b, p) by {}
            },
        }
    }
    assert forall|b: int|
        #![trigger terminator_available(f, b)]
        #![trigger terminator_available(g, b)]
        terminator_available(f, b) == terminator_available(g, b) by {}
    assert forall|b: int, p: int|
        #![trigger is_site(f, b, p)]
        #![trigger is_site(g, b, p)]
        is_site(f, b, p) == is_site(g, b, p) by {}
    assert forall|a: int|
        #![trigger edge(f, a, entry_index(f))]
        #![trigger edge(g, a, entry_index(g))]
        edge(f, a, entry_index(f)) == edge(g, a, entry_index(g)) by {}
}

/// `g` is `f` with its value-type table listed in the order `p`.
pub open spec fn table_reordered(f: Function, g: Function, p: Seq<int>, q: Seq<int>) -> bool {
    &&& f.name == g.name
    &&& f.params == g.params
    &&& f.ret_ty == g.ret_ty
    &&& f.blocks == g.blocks
    &&& f.entry == g.entry
    &&& is_reordering(p, q, f.value_types@.len() as int)
    &&& g.value_types@ == reordered(f.value_types@, p)
}

proof fn lemma_distinct_agree(f: Function, g: Function, p: Seq<int>, q: Seq<int>)
    requires
        table_reordered(f, g, p, q),
    ensures
        table_distinct(f) == table_distinct(g),
{
    let t = f.value_types@;
    let u = g.value_types@;
    assert forall|i: int| 0 <= i < t.len() implies #[trigger] u[q[i]] == t[i] by {}
    if table_distinct(f) {
        assert forall|i: int, j: int| 0 <= i < j < u.len() implies #[trigger] u[i].0 != #[trigger] u[j].0 by {
            assert(u[i] == t[p[i]] && u[j] == t[p[j]]);
            assert(p[i] != p[j]);
            if p[i] < p[j] {
                assert(t[p[i]].0 != t[p[j]].0);
            } else {
                assert(t[p[j]].0 != t[p[i]].0);
            }
        }
    }
    if table_distinct(g) {
        assert forall|i: int, j: int| 0 <= i < j < t.len() implies #[trigger] t[i].0 != #[trigger] t[j].0 by {
            assert(t[i] == u[q[i]] && t[j] == u[q[j]]);
            assert(q[i] != q[j]);
            if q[i] < q[j] {
                assert(u[q[i]].0 != u[q[j]].0);
            } else {
                assert(u[q[j]].0 != u[q[i]].0);
            }
        }
    }
}

/// With distinct entries, the reordered table records the same types.
proof fn lemma_reordered_same(f: Function, g: Function, p: Seq<int>, q: Seq<int>)
    requires
        table_reordered(f, g, p, q),
        table_distinct(f),
    ensures
        same_but_table(f, g),
{
    assert forall|v: ValueId|
        #![trigger type_of(f, v)]
        #![trigger type_of(g, v)]
        type_of(f, v) == type_of(g, v) by {
        lemma_value_table_order(f.value_types@, p, q, v);
    }
}

proof fn lemma_table_agree(f: Function, g: Function, p: Seq<int>, q: Seq<int>)
    requires
        table_reordered(f, g, p, q),
        table_distinct(f),
    ensures
        value_types_ok(f) == value_types_ok(g),
{
    lemma_distinct_agree(f, g, p, q);
    lemma_reordered_same(f, g, p, q);
    lemma_values_agree(f, g);
    let t = f.value_types@;
    let u = g.value_types@;
    assert forall|i: int| 0 <= i < t.len() implies #[trigger] u[q[i]] == t[i] by {}
    assert(defs_typed(f) == defs_typed(g)) by {
        assert forall|b: int, p: int|
            #![trigger ins_at(f, b, p)]
            #![trigger ins_at(g, b, p)]
            is_site(f, b, p) == is_site(g, b, p) && ins_at(f, b, p) == ins_at(g, b, p) by {}
    }
    assert(table_entries_defined(f) == table_entries_defined(g)) by {
        if table_entries_defined(f) {
            assert forall|i: int| 0 <= i < u.len() implies is_defined(g, #[trigger] u[i].0) by {
                assert(u[i] == t[p[i]]);
                assert(is_defined(f, t[p[i]].0));
            }
        }
        if table_entries_defined(g) {
            assert forall|i: int| 0 <= i < t.len() implies is_defined(f, #[trigger] t[i].0) by {
                assert(is_defined(g, u[q[i]].0));
            }
        }
    }
}

/// Metadata-order law: a function whose value-type table lists the same
/// entries in another order is valid exactly when the function is.
pub proof fn lemma_function_table_order(m: Module, f: Function, g: Function, p: Seq<int>, q: Seq<int>)
    requires
        table_reordered(f, g, p, q),
    ensures
        function_valid(m, f) == function_valid(m, g),
{
    lemma_distinct_agree(f, g, p, q);
    if table_distinct(f) {
        lemma_reordered_same(f, g, p, q);
        lemma_structure_agree(f, g);
        lemma_blocks_agree(f, g);
        lemma_table_agree(f, g, p, q);
        assert(locals_consts_ok(m, f) == locals_consts_ok(m, g));
        if distinct_blocks(f) && has_block(f, f.entry) {
            lemma_cfg_agree(f, g);
        }
        if distinct_defs(f) {
            lemma_operands_agree(f, g);
        }
    }
}

/// Metadata-order law for modules: reordering the value-type table of one
/// function leaves the verdict on the whole module unchanged.
pub proof fn lemma_module_table_order(m1: Module, m2: Module, i: int, p: Seq<int>, q: Seq<int>)
    requires
        0 <= i < m1.functions@.len(),
        m2.target == m1.target,
        m2.datalayout == m1.datalayout,
        m2.globals == m1.globals,
        m2.functions@ == m1.functions@.update(i, m2.functions@[i]),
        table_reordered(m1.functions@[i], m2.functions@[i], p, q),
    ensures
        module_valid(m1) == module_valid(m2),
{
    lemma_function_table_order(m1, m1.functions@[i], m2.functions@[i], p, q);
    assert forall|j: int|
        #![trigger m1.functions@[j]]
        #![trigger m2.functions@[j]]
        0 <= j < m1.functions@.len() implies function_valid(m1, m1.functions@[j]) == function_valid(
        m2,
        m2.functions@[j],
    ) && m1.functions@[j].name == m2.functions@[j].name by {
        if j != i {
            assert(m2.functions@[j] == m1.functions@[j]);
        }
    }
    assert(m1.functions@.len() == m2.functions@.len());
}

} // verus!
