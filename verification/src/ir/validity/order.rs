//! Constants are resolved by identity: the order in which a module stores its
//! constant globals, or a list stores its declarations, decides nothing.
use vstd::prelude::*;
use crate::ir::const_expr::{ConstBinding, ConstRef, lookup_spec, references_spec};
use crate::ir::module::{Module, value_type_spec};
use crate::ir::types::{Type, ValueId};
use crate::ir::validity::{function_valid, globals_ok, module_valid};
use crate::ir::validity::constants::{
    ConstDef, acyclic, consts_ok, def_binding, defs_distinct, defs_types_match, depends,
    evaluations_match, full_env, global_defs, global_env, globals_consts_ok, has_id, is_def_id,
    is_ranking, lemma_eval_env_agree, lemma_lookup_concat, lemma_lookup_none, lemma_lookup_unique,
    locals_consts_ok, refs_known,
};

verus! {

/// `p` lists the positions `0..n` in a new order, and `q` undoes it.
pub open spec fn is_reordering(p: Seq<int>, q: Seq<int>, n: int) -> bool {
    &&& p.len() == n
    &&& q.len() == n
    &&& forall|i: int| 0 <= i < n ==> 0 <= #[trigger] p[i] < n && q[p[i]] == i
    &&& forall|i: int| 0 <= i < n ==> 0 <= #[trigger] q[i] < n && p[q[i]] == i
}

/// The items of `s` at the positions `p`, in that order.
pub open spec fn reordered<T>(s: Seq<T>, p: Seq<int>) -> Seq<T> {
    Seq::new(p.len(), |i: int| s[p[i]])
}

/// No identity is bound twice.
pub open spec fn ids_unique<'a>(env: Seq<ConstBinding<'a>>) -> bool {
    forall|i: int, j: int|
        #![trigger env[i], env[j]]
        0 <= i < env.len() && 0 <= j < env.len() && i != j ==> env[i].id != env[j].id
}

/// Two environments find the same binding for every identity.
pub open spec fn same_lookups<'a>(a: Seq<ConstBinding<'a>>, b: Seq<ConstBinding<'a>>) -> bool {
    forall|id: ConstRef| #[trigger] lookup_spec(a, id) == lookup_spec(b, id)
}

pub proof fn lemma_reorder_lookup<'a>(env: Seq<ConstBinding<'a>>, p: Seq<int>, q: Seq<int>)
    requires
        is_reordering(p, q, env.len() as int),
        ids_unique(env),
    ensures
        same_lookups(reordered(env, p), env),
{
    let env2 = reordered(env, p);
    assert forall|id: ConstRef| #[trigger] lookup_spec(env2, id) == lookup_spec(env, id) by {
        if has_id(env, id) {
            let k = choose|k: int| 0 <= k < env.len() && #[trigger] env[k].id == id;
            let j = q[k];
            assert(env2[j] == env[k]);
            lemma_lookup_unique(env, id, k);
            assert forall|x: int| 0 <= x < env2.len() && x != j implies #[trigger] env2[x].id != id by {
                assert(env2[x] == env[p[x]]);
                if p[x] == k {
                    assert(q[p[x]] == x);
                }
            }
            lemma_lookup_unique(env2, id, j);
        } else {
            lemma_lookup_none(env, id);
            if has_id(env2, id) {
                let x = choose|x: int| 0 <= x < env2.len() && #[trigger] env2[x].id == id;
                assert(env[p[x]].id == id);
            }
            lemma_lookup_none(env2, id);
        }
    }
}

pub proof fn lemma_concat_lookups<'a>(
    base: Seq<ConstBinding<'a>>,
    a: Seq<ConstBinding<'a>>,
    b: Seq<ConstBinding<'a>>,
)
    requires
        same_lookups(a, b),
    ensures
        same_lookups(base + a, base + b),
{
    assert forall|id: ConstRef| #[trigger] lookup_spec(base + a, id) == lookup_spec(base + b, id) by {
        lemma_lookup_concat(base, a, id);
        lemma_lookup_concat(base, b, id);
    }
}

proof fn lemma_prefix_lookups<'a>(
    a: Seq<ConstBinding<'a>>,
    b: Seq<ConstBinding<'a>>,
    rest: Seq<ConstBinding<'a>>,
)
    requires
        same_lookups(a, b),
    ensures
        same_lookups(a + rest, b + rest),
{
    assert forall|id: ConstRef| #[trigger] lookup_spec(a + rest, id) == lookup_spec(b + rest, id) by {
        lemma_lookup_concat(a, rest, id);
        lemma_lookup_concat(b, rest, id);
        lemma_lookup_none(a, id);
        lemma_lookup_none(b, id);
        assert(lookup_spec(a, id) == lookup_spec(b, id));
    }
}

/// Checking declarations reads the resolved constants only through lookups.
pub proof fn lemma_consts_same_base<'a>(
    b1: Seq<ConstBinding<'a>>,
    b2: Seq<ConstBinding<'a>>,
    defs: Seq<ConstDef<'a>>,
)
    requires
        same_lookups(b1, b2),
        consts_ok(b1, defs),
    ensures
        consts_ok(b2, defs),
{
    assert forall|id: ConstRef| has_id(b1, id) <==> has_id(b2, id) by {
        lemma_lookup_none(b1, id);
        lemma_lookup_none(b2, id);
        assert(lookup_spec(b1, id) == lookup_spec(b2, id));
    }
    let bindings = defs.map_values(|d: ConstDef<'a>| def_binding(d));
    lemma_prefix_lookups(b1, b2, bindings);
    assert(full_env(b1, defs) == b1 + bindings);
    assert(full_env(b2, defs) == b2 + bindings);
    assert forall|i: int| 0 <= i < defs.len() implies #[trigger] eval_at(defs, i, b2) == eval_at(defs, i, b1) by {
        lemma_eval_env_agree(defs[i].expression@, full_env(b2, defs), full_env(b1, defs));
    }
    assert(refs_known(b2, defs));
    assert(defs_distinct(b2, defs));
    assert(evaluations_match(b2, defs)) by {
        assert forall|i: int| 0 <= i < defs.len() implies crate::ir::const_expr::eval_spec(
            (#[trigger] defs[i]).expression@,
            full_env(b2, defs),
        ) == Ok::<crate::ir::types::ConstValue, crate::ir::const_expr::ConstEvalError>(defs[i].result) by {
            assert(eval_at(defs, i, b2) == eval_at(defs, i, b1));
        }
    }
}

pub open spec fn eval_at<'a>(defs: Seq<ConstDef<'a>>, i: int, base: Seq<ConstBinding<'a>>) -> Result<
    crate::ir::types::ConstValue,
    crate::ir::const_expr::ConstEvalError,
> {
    crate::ir::const_expr::eval_spec(defs[i].expression@, full_env(base, defs))
}

/// Checking declarations does not depend on the order in which they are listed.
pub proof fn lemma_consts_reorder<'a>(
    base: Seq<ConstBinding<'a>>,
    defs: Seq<ConstDef<'a>>,
    p: Seq<int>,
    q: Seq<int>,
)
    requires
        is_reordering(p, q, defs.len() as int),
        consts_ok(base, defs),
    ensures
        consts_ok(base, reordered(defs, p)),
{
    let n = defs.len() as int;
    let d2 = reordered(defs, p);
    assert forall|i: int, j: int|
        0 <= i < d2.len() && 0 <= j < d2.len() && i != j implies #[trigger] d2[i].id != #[trigger] d2[j].id by {
        assert(d2[i] == defs[p[i]] && d2[j] == defs[p[j]]);
        if p[i] == p[j] {
            assert(q[p[i]] == i && q[p[j]] == j);
        }
    }
    assert forall|i: int| 0 <= i < d2.len() implies !has_id(base, #[trigger] d2[i].id) by {
        assert(d2[i] == defs[p[i]]);
    }
    assert(defs_distinct(base, d2));
    assert forall|i: int| 0 <= i < d2.len() implies (#[trigger] d2[i]).ty@ == d2[i].expression.ty@ by {
        assert(d2[i] == defs[p[i]]);
    }
    assert(defs_types_match(d2));
    assert forall|i: int, k: int|
        0 <= i < d2.len() && 0 <= k < references_spec(d2[i].expression@).len() implies {
            let r = #[trigger] references_spec(d2[i].expression@)[k];
            has_id(base, r) || is_def_id(d2, r)
        } by {
        assert(d2[i] == defs[p[i]]);
        let r = references_spec(d2[i].expression@)[k];
        assert(references_spec(defs[p[i]].expression@)[k] == r);
        if is_def_id(defs, r) {
            let x = choose|x: int| 0 <= x < defs.len() && #[trigger] defs[x].id == r;
            assert(d2[q[x]] == defs[x]);
        }
    }
    assert(refs_known(base, d2));
    let rank = choose|rank: Seq<nat>| #[trigger] is_ranking(defs, rank);
    let rank2 = Seq::new(n as nat, |i: int| rank[p[i]]);
    assert forall|i: int, j: int|
        0 <= i < d2.len() && 0 <= j < d2.len() && #[trigger] depends(d2, i, j) implies rank2[j] < rank2[i] by {
        assert(d2[i] == defs[p[i]] && d2[j] == defs[p[j]]);
        assert(depends(defs, p[i], p[j]));
    }
    assert(is_ranking(d2, rank2));
    assert(acyclic(d2));
    let bindings = defs.map_values(|d: ConstDef<'a>| def_binding(d));
    let bindings2 = d2.map_values(|d: ConstDef<'a>| def_binding(d));
    assert(bindings2 =~= reordered(bindings, p));
    assert forall|i: int, j: int|
        #![trigger bindings[i], bindings[j]]
        0 <= i < bindings.len() && 0 <= j < bindings.len() && i != j implies bindings[i].id != bindings[j].id by {
        assert(defs[i].id != defs[j].id);
    }
    lemma_reorder_lookup(bindings, p, q);
    lemma_concat_lookups(base, bindings2, bindings);
    assert(full_env(base, d2) == base + bindings2);
    assert(full_env(base, defs) == base + bindings);
    assert forall|i: int| 0 <= i < d2.len() implies crate::ir::const_expr::eval_spec(
        (#[trigger] d2[i]).expression@,
        full_env(base, d2),
    ) == Ok::<crate::ir::types::ConstValue, crate::ir::const_expr::ConstEvalError>(d2[i].result) by {
        assert(d2[i] == defs[p[i]]);
        lemma_eval_env_agree(d2[i].expression@, full_env(base, d2), full_env(base, defs));
        assert(eval_at(defs, p[i], base) == Ok::<crate::ir::types::ConstValue, crate::ir::const_expr::ConstEvalError>(
            defs[p[i]].result,
        ));
    }
    assert(evaluations_match(base, d2));
}

/// A module whose constant globals are those of `m1` stored in another order.
pub open spec fn globals_reordered(m1: Module, m2: Module, p: Seq<int>, q: Seq<int>) -> bool {
    &&& m2.target == m1.target
    &&& m2.datalayout == m1.datalayout
    &&& m2.functions == m1.functions
    &&& is_reordering(p, q, m1.globals@.len() as int)
    &&& m2.globals@ == reordered(m1.globals@, p)
}

proof fn lemma_valid_reorder(m1: Module, m2: Module, p: Seq<int>, q: Seq<int>)
    requires
        globals_reordered(m1, m2, p, q),
        module_valid(m1),
    ensures
        module_valid(m2),
{
    let g1 = m1.globals@;
    let g2 = m2.globals@;
    assert forall|i: int, j: int| 0 <= i < j < g2.len() implies #[trigger] g2[i].name@ != #[trigger] g2[j].name@ by {
        assert(g2[i] == g1[p[i]] && g2[j] == g1[p[j]]);
        if p[i] == p[j] {
            assert(q[p[i]] == i && q[p[j]] == j);
        } else if p[i] < p[j] {
            assert(g1[p[i]].name@ != g1[p[j]].name@);
        } else {
            assert(g1[p[j]].name@ != g1[p[i]].name@);
        }
    }
    assert forall|i: int| 0 <= i < g2.len() implies crate::ir::constant::valid_constant_spec(
        (#[trigger] g2[i]).ty@,
        g2[i].init,
    ) && crate::ir::validity::operands::is_power_of_two(g2[i].align) by {
        assert(g2[i] == g1[p[i]]);
    }
    assert(globals_ok(m2));
    assert(global_defs(g2) =~= reordered(global_defs(g1), p));
    lemma_consts_reorder(Seq::empty(), global_defs(g1), p, q);
    assert(globals_consts_ok(m2));
    let e1 = global_env(g1);
    let e2 = global_env(g2);
    assert(e2 =~= reordered(e1, p));
    assert forall|i: int, j: int|
        #![trigger e1[i], e1[j]]
        0 <= i < e1.len() && 0 <= j < e1.len() && i != j implies e1[i].id != e1[j].id by {
        assert(global_defs(g1)[i].id == e1[i].id && global_defs(g1)[j].id == e1[j].id);
    }
    lemma_reorder_lookup(e1, p, q);
    assert forall|k: int| 0 <= k < m2.functions@.len() implies function_valid(m2, #[trigger] m2.functions@[k]) by {
        let f = m2.functions@[k];
        assert(function_valid(m1, f));
        let lits = crate::ir::validity::constants::function_literals(f.blocks@);
        lemma_prefix_lookups(e1, e2, lits);
        lemma_consts_same_base(e1 + lits, e2 + lits, crate::ir::validity::constants::function_decls(f.blocks@));
        assert(locals_consts_ok(m2, f));
    }
}

/// Storage-order law: verification resolves module constants by identity,
/// so storing them in any other order gives the same verdict.
pub proof fn lemma_global_storage_order(m1: Module, m2: Module, p: Seq<int>, q: Seq<int>)
    requires
        globals_reordered(m1, m2, p, q),
    ensures
        module_valid(m1) <==> module_valid(m2),
{
    assert(m1.globals@ =~= reordered(m2.globals@, q));
    assert(is_reordering(q, p, m2.globals@.len() as int));
    if module_valid(m1) {
        lemma_valid_reorder(m1, m2, p, q);
    }
    if module_valid(m2) {
        lemma_valid_reorder(m2, m1, q, p);
    }
}

proof fn lemma_type_at(t: Seq<(ValueId, Type)>, v: ValueId, k: int)
    requires
        0 <= k < t.len(),
        t[k].0 == v,
        forall|j: int| 0 <= j < t.len() && j != k ==> (#[trigger] t[j]).0 != v,
    ensures
        value_type_spec(t, v) == Some(t[k].1),
    decreases t.len(),
{
    if k > 0 {
        assert(t[0].0 != v);
        assert forall|j: int| 0 <= j < t.len() - 1 && j != k - 1 implies (#[trigger] t.drop_first()[j]).0 != v by {
            assert(t.drop_first()[j] == t[j + 1]);
        }
        lemma_type_at(t.drop_first(), v, k - 1);
    }
}

proof fn lemma_type_none(t: Seq<(ValueId, Type)>, v: ValueId)
    requires
        forall|j: int| 0 <= j < t.len() ==> (#[trigger] t[j]).0 != v,
    ensures
        value_type_spec(t, v) is None,
    decreases t.len(),
{
    if t.len() > 0 {
        assert forall|j: int| 0 <= j < t.len() - 1 implies (#[trigger] t.drop_first()[j]).0 != v by {
            assert(t.drop_first()[j] == t[j + 1]);
        }
        lemma_type_none(t.drop_first(), v);
    }
}

/// Type-table law: in a table that records each value at most once, the type
/// recorded for a value does not depend on the order of the entries.
pub proof fn lemma_value_table_order(t: Seq<(ValueId, Type)>, p: Seq<int>, q: Seq<int>, v: ValueId)
    requires
        is_reordering(p, q, t.len() as int),
        forall|i: int, j: int| 0 <= i < j < t.len() ==> #[trigger] t[i].0 != #[trigger] t[j].0,
    ensures
        value_type_spec(reordered(t, p), v) == value_type_spec(t, v),
{
    let t2 = reordered(t, p);
    if exists|k: int| 0 <= k < t.len() && #[trigger] t[k].0 == v {
        let k = choose|k: int| 0 <= k < t.len() && #[trigger] t[k].0 == v;
        assert forall|j: int| 0 <= j < t.len() && j != k implies (#[trigger] t[j]).0 != v by {
            if j < k {
                assert(t[j].0 != t[k].0);
            } else {
                assert(t[k].0 != t[j].0);
            }
        }
        lemma_type_at(t, v, k);
        let j = q[k];
        assert(t2[j] == t[k]);
        assert forall|x: int| 0 <= x < t2.len() && x != j implies (#[trigger] t2[x]).0 != v by {
            assert(t2[x] == t[p[x]]);
            if p[x] == k {
                assert(q[p[x]] == x);
            }
        }
        lemma_type_at(t2, v, j);
    } else {
        lemma_type_none(t, v);
        assert forall|x: int| 0 <= x < t2.len() implies (#[trigger] t2[x]).0 != v by {
            assert(t2[x] == t[p[x]]);
        }
        lemma_type_none(t2, v);
    }
}

} // verus!
