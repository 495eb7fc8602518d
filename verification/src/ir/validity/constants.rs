//! Named compile-time constants: identities, declared types, references,
//! acyclic dependencies and the cached results of their expressions.
use vstd::prelude::*;
use crate::ir::const_expr::{
    ConstBinding, ConstEvalError, ConstExpr, ConstRef, ExprKindModel, ExprModel, eval_spec, lookup,
    lookup_spec, references_spec,
};
use crate::ir::module::{BasicBlock, Function, Global, Instruction, Module};
use crate::ir::types::{ConstValue, Type, types_equal};
use crate::ir::validity::VerifyError;

use crate::ir::validity::{blamed, error_sound};

verus! {

/// A constant declaration to check: its identity, declared type, preserved
/// expression and cached result.
pub struct ConstDef<'a> {
    pub id: ConstRef,
    pub ty: &'a Type,
    pub expression: &'a ConstExpr,
    pub result: ConstValue,
}

/// What a declaration contributes once checked.
pub open spec fn def_binding<'a>(d: ConstDef<'a>) -> ConstBinding<'a> {
    ConstBinding { id: d.id, ty: d.ty, value: d.result }
}

/// The resolved constants, followed by every declaration with its cached result.
pub open spec fn full_env<'a>(base: Seq<ConstBinding<'a>>, defs: Seq<ConstDef<'a>>) -> Seq<
    ConstBinding<'a>,
> {
    base + defs.map_values(|d: ConstDef<'a>| def_binding(d))
}

pub open spec fn has_id(env: Seq<ConstBinding>, id: ConstRef) -> bool {
    exists|i: int| 0 <= i < env.len() && #[trigger] env[i].id == id
}

pub open spec fn is_def_id(defs: Seq<ConstDef>, id: ConstRef) -> bool {
    exists|j: int| 0 <= j < defs.len() && #[trigger] defs[j].id == id
}

/// The expression of declaration `i` references declaration `j`.
pub open spec fn depends(defs: Seq<ConstDef>, i: int, j: int) -> bool {
    references_spec(defs[i].expression@).contains(defs[j].id)
}

/// Declarations have distinct identities, none of which is already resolved.
pub open spec fn defs_distinct(base: Seq<ConstBinding>, defs: Seq<ConstDef>) -> bool {
    &&& forall|i: int, j: int|
        0 <= i < defs.len() && 0 <= j < defs.len() && i != j ==> #[trigger] defs[i].id
            != #[trigger] defs[j].id
    &&& forall|i: int| 0 <= i < defs.len() ==> !has_id(base, #[trigger] defs[i].id)
}

/// Each declared type is the type of its expression.
pub open spec fn defs_types_match(defs: Seq<ConstDef>) -> bool {
    forall|i: int| 0 <= i < defs.len() ==> (#[trigger] defs[i]).ty@ == defs[i].expression.ty@
}

/// Every reference names a resolved constant or a declaration.
pub open spec fn refs_known(base: Seq<ConstBinding>, defs: Seq<ConstDef>) -> bool {
    forall|i: int, k: int|
        0 <= i < defs.len() && 0 <= k < references_spec(defs[i].expression@).len() ==> {
            let r = #[trigger] references_spec(defs[i].expression@)[k];
            has_id(base, r) || is_def_id(defs, r)
        }
}

/// `rank` orders the declarations so that each comes after those it references.
pub open spec fn is_ranking(defs: Seq<ConstDef>, rank: Seq<nat>) -> bool {
    &&& rank.len() == defs.len()
    &&& forall|i: int, j: int|
        0 <= i < defs.len() && 0 <= j < defs.len() && #[trigger] depends(defs, i, j) ==> rank[j]
            < rank[i]
}

/// No declaration depends on itself, directly or through others.
pub open spec fn acyclic(defs: Seq<ConstDef>) -> bool {
    exists|rank: Seq<nat>| #[trigger] is_ranking(defs, rank)
}

/// Each expression evaluates, against every cached result, to its own cached result.
pub open spec fn evaluations_match(base: Seq<ConstBinding>, defs: Seq<ConstDef>) -> bool {
    forall|i: int|
        0 <= i < defs.len() ==> eval_spec((#[trigger] defs[i]).expression@, full_env(base, defs))
            == Ok::<ConstValue, ConstEvalError>(defs[i].result)
}

/// Every expression evaluates against the cached results, whatever it gives.
pub open spec fn evaluations_succeed(base: Seq<ConstBinding>, defs: Seq<ConstDef>) -> bool {
    forall|i: int| 0 <= i < defs.len() ==> eval_spec((#[trigger] defs[i]).expression@, full_env(base, defs)) is Ok
}

/// The declarations are well formed and every expression evaluates: only a
/// cached result can still disagree.
pub open spec fn only_results_open(base: Seq<ConstBinding>, defs: Seq<ConstDef>) -> bool {
    &&& defs_distinct(base, defs)
    &&& defs_types_match(defs)
    &&& refs_known(base, defs)
    &&& acyclic(defs)
    &&& evaluations_succeed(base, defs)
}

/// The declarations are consistent with each other and with the resolved constants.
pub open spec fn consts_ok(base: Seq<ConstBinding>, defs: Seq<ConstDef>) -> bool {
    &&& defs_distinct(base, defs)
    &&& defs_types_match(defs)
    &&& refs_known(base, defs)
    &&& acyclic(defs)
    &&& evaluations_match(base, defs)
}

pub proof fn lemma_lookup_concat<'a>(a: Seq<ConstBinding<'a>>, b: Seq<ConstBinding<'a>>, id: ConstRef)
    ensures
        lookup_spec(a + b, id) == if has_id(a, id) {
            lookup_spec(a, id)
        } else {
            lookup_spec(b, id)
        },
    decreases a.len(),
{
    if a.len() == 0 {
        assert(a + b =~= b);
    } else {
        assert((a + b).drop_first() =~= a.drop_first() + b);
        lemma_lookup_concat(a.drop_first(), b, id);
        if a[0].id != id {
            assert(has_id(a, id) <==> has_id(a.drop_first(), id)) by {
                if has_id(a, id) {
                    let i = choose|i: int| 0 <= i < a.len() && #[trigger] a[i].id == id;
                    assert(a.drop_first()[i - 1].id == id);
                }
                if has_id(a.drop_first(), id) {
                    let i = choose|i: int| 0 <= i < a.len() - 1 && #[trigger] a.drop_first()[i].id == id;
                    assert(a[i + 1].id == id);
                }
            }
        } else {
            assert(a[0].id == id);
        }
    }
}

pub proof fn lemma_lookup_none<'a>(env: Seq<ConstBinding<'a>>, id: ConstRef)
    ensures
        lookup_spec(env, id) is None <==> !has_id(env, id),
    decreases env.len(),
{
    if env.len() > 0 {
        lemma_lookup_none(env.drop_first(), id);
        if env[0].id != id {
            if has_id(env, id) {
                let i = choose|i: int| 0 <= i < env.len() && #[trigger] env[i].id == id;
                assert(env.drop_first()[i - 1].id == id);
            }
            if has_id(env.drop_first(), id) {
                let i = choose|i: int| 0 <= i < env.len() - 1 && #[trigger] env.drop_first()[i].id == id;
                assert(env[i + 1].id == id);
            }
        }
    }
}

/// With exactly one binding of `id`, lookup finds it.
pub proof fn lemma_lookup_unique<'a>(env: Seq<ConstBinding<'a>>, id: ConstRef, k: int)
    requires
        0 <= k < env.len(),
        env[k].id == id,
        forall|j: int| 0 <= j < env.len() && j != k ==> #[trigger] env[j].id != id,
    ensures
        lookup_spec(env, id) == Some(env[k]),
    decreases env.len(),
{
    if k > 0 {
        assert(env[0].id != id);
        lemma_lookup_unique(env.drop_first(), id, k - 1);
    }
}

/// Evaluation reads the environment only through the expression's references.
pub proof fn lemma_eval_env_agree<'a>(e: ExprModel, env1: Seq<ConstBinding<'a>>, env2: Seq<ConstBinding<'a>>)
    requires
        forall|k: int|
            0 <= k < references_spec(e).len() ==> lookup_spec(env1, #[trigger] references_spec(e)[k])
                == lookup_spec(env2, references_spec(e)[k]),
    ensures
        eval_spec(e, env1) == eval_spec(e, env2),
    decreases e,
{
    match e.kind {
        ExprKindModel::Literal(_) => {},
        ExprKindModel::Reference(id) => {
            assert(references_spec(e)[0] == id);
        },
        ExprKindModel::Binary { left, right, .. } | ExprKindModel::Compare { left, right, .. } => {
            let rl = references_spec(*left);
            let rr = references_spec(*right);
            assert(references_spec(e) == rl + rr);
            assert forall|k: int| 0 <= k < rl.len() implies lookup_spec(env1, #[trigger] rl[k])
                == lookup_spec(env2, rl[k]) by {
                assert(references_spec(e)[k] == rl[k]);
            }
            assert forall|k: int| 0 <= k < rr.len() implies lookup_spec(env1, #[trigger] rr[k])
                == lookup_spec(env2, rr[k]) by {
                assert(references_spec(e)[rl.len() + k] == rr[k]);
            }
            lemma_eval_env_agree(*left, env1, env2);
            lemma_eval_env_agree(*right, env1, env2);
        },
    }
}

/// Entries of `s` that are still `false`.
pub open spec fn count_pending(s: Seq<bool>) -> nat
    decreases s.len(),
{
    if s.len() == 0 {
        0
    } else {
        count_pending(s.drop_last()) + if s.last() {
            0nat
        } else {
            1nat
        }
    }
}

pub proof fn lemma_pending_update(s: Seq<bool>, i: int)
    requires
        0 <= i < s.len(),
        !s[i],
    ensures
        count_pending(s.update(i, true)) + 1 == count_pending(s),
    decreases s.len(),
{
    if i == s.len() - 1 {
        assert(s.update(i, true).drop_last() =~= s.drop_last());
    } else {
        lemma_pending_update(s.drop_last(), i);
        assert(s.update(i, true).drop_last() =~= s.drop_last().update(i, true));
    }
}

/// A declaration that is not done references a declaration that is not done either.
spec fn stuck(defs: Seq<ConstDef>, done: Seq<bool>) -> bool {
    forall|i: int|
        0 <= i < defs.len() && !done[i] ==> exists|j: int|
            0 <= j < defs.len() && !done[j] && #[trigger] depends(defs, i, j)
}

/// With a ranking, a stuck set of unfinished declarations is empty.
proof fn lemma_ranked_all_done(defs: Seq<ConstDef>, done: Seq<bool>, rank: Seq<nat>, n: nat)
    requires
        done.len() == defs.len(),
        is_ranking(defs, rank),
        stuck(defs, done),
    ensures
        forall|i: int| 0 <= i < defs.len() && rank[i] <= n ==> done[i],
    decreases n,
{
    if n > 0 {
        lemma_ranked_all_done(defs, done, rank, (n - 1) as nat);
    }
    assert forall|i: int| 0 <= i < defs.len() && rank[i] <= n implies done[i] by {
        if !done[i] {
            let j = choose|j: int| 0 <= j < defs.len() && !done[j] && #[trigger] depends(defs, i, j);
            assert(rank[j] < rank[i]);
        }
    }
}

/// The state of resolution: `order` lists the finished declarations in the
/// order they were resolved; `env` holds the resolved constants and then them.
spec fn resolution_inv<'a>(
    base: Seq<ConstBinding<'a>>,
    defs: Seq<ConstDef<'a>>,
    done: Seq<bool>,
    env: Seq<ConstBinding<'a>>,
    order: Seq<int>,
) -> bool {
    &&& done.len() == defs.len()
    &&& defs_distinct(base, defs)
    &&& defs_types_match(defs)
    &&& refs_known(base, defs)
    &&& env == base + order.map_values(|j: int| def_binding(defs[j]))
    &&& forall|k: int| 0 <= k < order.len() ==> 0 <= #[trigger] order[k] < defs.len()
    &&& forall|k1: int, k2: int|
        0 <= k1 < order.len() && 0 <= k2 < order.len() && k1 != k2 ==> #[trigger] order[k1]
            != #[trigger] order[k2]
    &&& forall|j: int| 0 <= j < defs.len() ==> (#[trigger] done[j] <==> order.contains(j))
    &&& forall|k: int|
        0 <= k < order.len() ==> eval_spec(defs[#[trigger] order[k]].expression@, full_env(base, defs))
            == Ok::<ConstValue, ConstEvalError>(defs[order[k]].result)
    &&& forall|k: int, j: int|
        0 <= k < order.len() && 0 <= j < defs.len() && #[trigger] depends(defs, order[k], j)
            ==> exists|k2: int| 0 <= k2 < k && #[trigger] order[k2] == j
}

/// Every reference of declaration `i` resolves in `env`.
spec fn all_resolved<'a>(env: Seq<ConstBinding<'a>>, defs: Seq<ConstDef<'a>>, i: int) -> bool {
    forall|k: int|
        0 <= k < references_spec(defs[i].expression@).len() ==> lookup_spec(
            env,
            #[trigger] references_spec(defs[i].expression@)[k],
        ) is Some
}

fn refs_resolved<'a>(env: &Vec<ConstBinding<'a>>, e: &ConstExpr) -> (r: bool)
    ensures
        r == forall|k: int|
            0 <= k < references_spec(e@).len() ==> lookup_spec(env@, #[trigger] references_spec(e@)[k]) is Some,
{
    let refs = e.references();
    let mut k: usize = 0;
    while k < refs.len()
        invariant
            0 <= k <= refs.len(),
            refs@ == references_spec(e@),
            forall|c: int| 0 <= c < k ==> lookup_spec(env@, #[trigger] refs@[c]) is Some,
        decreases refs.len() - k,
    {
        if lookup(env, refs[k]).is_none() {
            return false;
        }
        k += 1;
    }
    true
}

/// The first entry that is still `false`.
fn first_pending(done: &Vec<bool>) -> (r: Option<usize>)
    ensures
        match r {
            Some(i) => i < done@.len() && !done@[i as int],
            None => forall|a: int| 0 <= a < done@.len() ==> done@[a],
        },
{
    let mut i: usize = 0;
    while i < done.len()
        invariant
            0 <= i <= done@.len(),
            forall|a: int| 0 <= a < i ==> done@[a],
        decreases done.len() - i,
    {
        if !done[i] {
            return Some(i);
        }
        i += 1;
    }
    None
}

/// The first unfinished declaration whose references all resolve in `env`.
fn find_ready<'a>(defs: &Vec<ConstDef<'a>>, done: &Vec<bool>, env: &Vec<ConstBinding<'a>>) -> (r:
    Option<usize>)
    requires
        done@.len() == defs@.len(),
    ensures
        match r {
            Some(i) => i < defs@.len() && !done@[i as int] && all_resolved(env@, defs@, i as int),
            None => forall|i: int|
                0 <= i < defs@.len() && !done@[i] ==> !all_resolved(env@, defs@, i),
        },
{
    let mut i: usize = 0;
    while i < defs.len()
        invariant
            done@.len() == defs@.len(),
            0 <= i <= defs@.len(),
            forall|a: int| 0 <= a < i && !done@[a] ==> !all_resolved(env@, defs@, a),
        decreases defs.len() - i,
    {
        if !done[i] && refs_resolved(env, defs[i].expression) {
            return Some(i);
        }
        i += 1;
    }
    None
}

proof fn lemma_tail_lookup<'a>(defs: Seq<ConstDef<'a>>, order: Seq<int>, j: int, k: int)
    requires
        0 <= k < order.len(),
        order[k] == j,
        0 <= j < defs.len(),
        forall|a: int| 0 <= a < order.len() ==> 0 <= #[trigger] order[a] < defs.len(),
        forall|k1: int, k2: int|
            0 <= k1 < order.len() && 0 <= k2 < order.len() && k1 != k2 ==> #[trigger] order[k1]
                != #[trigger] order[k2],
        forall|a: int, b: int|
            0 <= a < defs.len() && 0 <= b < defs.len() && a != b ==> #[trigger] defs[a].id
                != #[trigger] defs[b].id,
    ensures
        lookup_spec(order.map_values(|x: int| def_binding(defs[x])), defs[j].id) == Some(
            def_binding(defs[j]),
        ),
        lookup_spec(defs.map_values(|d: ConstDef<'a>| def_binding(d)), defs[j].id) == Some(
            def_binding(defs[j]),
        ),
{
    let t = order.map_values(|x: int| def_binding(defs[x]));
    assert forall|a: int| 0 <= a < t.len() && a != k implies #[trigger] t[a].id != defs[j].id by {
        assert(order[a] != order[k]);
    }
    lemma_lookup_unique(t, defs[j].id, k);
    let d = defs.map_values(|d: ConstDef<'a>| def_binding(d));
    assert forall|a: int| 0 <= a < d.len() && a != j implies #[trigger] d[a].id != defs[j].id by {}
    lemma_lookup_unique(d, defs[j].id, j);
}

/// A reference that resolves in the working environment resolves to the same
/// binding in the full one.
proof fn lemma_env_agree<'a>(
    base: Seq<ConstBinding<'a>>,
    defs: Seq<ConstDef<'a>>,
    done: Seq<bool>,
    env: Seq<ConstBinding<'a>>,
    order: Seq<int>,
    r: ConstRef,
)
    requires
        resolution_inv(base, defs, done, env, order),
        lookup_spec(env, r) is Some,
    ensures
        lookup_spec(env, r) == lookup_spec(full_env(base, defs), r),
{
    let t = order.map_values(|x: int| def_binding(defs[x]));
    let d = defs.map_values(|x: ConstDef<'a>| def_binding(x));
    lemma_lookup_concat(base, t, r);
    lemma_lookup_concat(base, d, r);
    if !has_id(base, r) {
        lemma_lookup_none(t, r);
        let k = choose|k: int| 0 <= k < t.len() && #[trigger] t[k].id == r;
        let j = order[k];
        assert(defs[j].id == r);
        lemma_tail_lookup(defs, order, j, k);
    }
}

/// Evaluating a ready declaration in the working environment gives its value in the full one.
proof fn lemma_ready_eval<'a>(
    base: Seq<ConstBinding<'a>>,
    defs: Seq<ConstDef<'a>>,
    done: Seq<bool>,
    env: Seq<ConstBinding<'a>>,
    order: Seq<int>,
    i: int,
)
    requires
        resolution_inv(base, defs, done, env, order),
        0 <= i < defs.len(),
        all_resolved(env, defs, i),
    ensures
        eval_spec(defs[i].expression@, env) == eval_spec(defs[i].expression@, full_env(base, defs)),
{
    let e = defs[i].expression@;
    assert forall|k: int| 0 <= k < references_spec(e).len() implies lookup_spec(
        env,
        #[trigger] references_spec(e)[k],
    ) == lookup_spec(full_env(base, defs), references_spec(e)[k]) by {
        lemma_env_agree(base, defs, done, env, order, references_spec(e)[k]);
    }
    lemma_eval_env_agree(e, env, full_env(base, defs));
}

/// When no unfinished declaration is ready, each depends on another unfinished one.
proof fn lemma_none_ready_is_stuck<'a>(
    base: Seq<ConstBinding<'a>>,
    defs: Seq<ConstDef<'a>>,
    done: Seq<bool>,
    env: Seq<ConstBinding<'a>>,
    order: Seq<int>,
)
    requires
        resolution_inv(base, defs, done, env, order),
        forall|i: int| 0 <= i < defs.len() && !done[i] ==> !all_resolved(env, defs, i),
    ensures
        stuck(defs, done),
{
    let t = order.map_values(|x: int| def_binding(defs[x]));
    assert forall|i: int| 0 <= i < defs.len() && !done[i] implies exists|j: int|
        0 <= j < defs.len() && !done[j] && #[trigger] depends(defs, i, j) by {
        let refs = references_spec(defs[i].expression@);
        let k = choose|k: int| 0 <= k < refs.len() && !(lookup_spec(env, #[trigger] refs[k]) is Some);
        let r = refs[k];
        lemma_lookup_concat(base, t, r);
        lemma_lookup_none(base, r);
        lemma_lookup_none(t, r);
        assert(!has_id(base, r));
        assert(is_def_id(defs, r));
        let j = choose|j: int| 0 <= j < defs.len() && #[trigger] defs[j].id == r;
        assert(refs.contains(defs[j].id));
        assert(depends(defs, i, j));
        if done[j] {
            let k2 = choose|k2: int| 0 <= k2 < order.len() && order[k2] == j;
            assert(t[k2].id == r);
        }
    }
}

/// Appending a ready, correctly evaluated declaration keeps the invariant.
proof fn lemma_resolve_step<'a>(
    base: Seq<ConstBinding<'a>>,
    defs: Seq<ConstDef<'a>>,
    done: Seq<bool>,
    env: Seq<ConstBinding<'a>>,
    order: Seq<int>,
    i: int,
)
    requires
        resolution_inv(base, defs, done, env, order),
        0 <= i < defs.len(),
        !done[i],
        all_resolved(env, defs, i),
        eval_spec(defs[i].expression@, full_env(base, defs)) == Ok::<ConstValue, ConstEvalError>(
            defs[i].result,
        ),
    ensures
        resolution_inv(
            base,
            defs,
            done.update(i, true),
            env.push(def_binding(defs[i])),
            order.push(i),
        ),
{
    let o2 = order.push(i);
    let t = order.map_values(|x: int| def_binding(defs[x]));
    assert(o2.map_values(|x: int| def_binding(defs[x])) =~= t.push(def_binding(defs[i])));
    assert(env.push(def_binding(defs[i])) =~= base + o2.map_values(|x: int| def_binding(defs[x])));
    assert(!order.contains(i));
    assert forall|k1: int, k2: int|
        0 <= k1 < o2.len() && 0 <= k2 < o2.len() && k1 != k2 implies #[trigger] o2[k1]
        != #[trigger] o2[k2] by {
        if k1 == order.len() {
            assert(!order.contains(i));
            assert(o2[k2] == order[k2]);
        } else if k2 == order.len() {
            assert(o2[k1] == order[k1]);
        }
    }
    let d2 = done.update(i, true);
    assert forall|j: int| 0 <= j < defs.len() implies (#[trigger] d2[j] <==> o2.contains(j)) by {
        if j == i {
            assert(o2[order.len() as int] == i);
        } else {
            if order.contains(j) {
                let k = choose|k: int| 0 <= k < order.len() && order[k] == j;
                assert(o2[k] == j);
            }
            if o2.contains(j) {
                let k = choose|k: int| 0 <= k < o2.len() && o2[k] == j;
                assert(order[k] == j);
            }
        }
    }
    assert forall|k: int, j: int|
        0 <= k < o2.len() && 0 <= j < defs.len() && #[trigger] depends(defs, o2[k], j) implies exists|
        k2: int,
    | 0 <= k2 < k && #[trigger] o2[k2] == j by {
        if k < order.len() {
            let k2 = choose|k2: int| 0 <= k2 < k && #[trigger] order[k2] == j;
            assert(o2[k2] == j);
        } else {
            let refs = references_spec(defs[i].expression@);
            let c = choose|c: int| 0 <= c < refs.len() && refs[c] == defs[j].id;
            assert(lookup_spec(env, refs[c]) is Some);
            let r = defs[j].id;
            lemma_lookup_concat(base, t, r);
            lemma_lookup_none(t, r);
            assert(!has_id(base, r));
            let k2 = choose|k2: int| 0 <= k2 < t.len() && #[trigger] t[k2].id == r;
            assert(defs[order[k2]].id == defs[j].id);
            assert(order[k2] == j);
            assert(o2[k2] == j);
        }
    }
    assert forall|k: int| 0 <= k < o2.len() implies eval_spec(
        defs[#[trigger] o2[k]].expression@,
        full_env(base, defs),
    ) == Ok::<ConstValue, ConstEvalError>(defs[o2[k]].result) by {
        if k < order.len() {
            assert(o2[k] == order[k]);
        }
    }
}

/// A stuck declaration rules out every ranking.
proof fn lemma_stuck_cyclic(defs: Seq<ConstDef>, done: Seq<bool>, i: int)
    requires
        done.len() == defs.len(),
        stuck(defs, done),
        0 <= i < defs.len(),
        !done[i],
    ensures
        !acyclic(defs),
{
    if acyclic(defs) {
        let rank = choose|rank: Seq<nat>| #[trigger] is_ranking(defs, rank);
        lemma_ranked_all_done(defs, done, rank, rank[i]);
    }
}

/// When every declaration is resolved, the declarations are consistent.
proof fn lemma_all_resolved<'a>(
    base: Seq<ConstBinding<'a>>,
    defs: Seq<ConstDef<'a>>,
    done: Seq<bool>,
    env: Seq<ConstBinding<'a>>,
    order: Seq<int>,
)
    requires
        resolution_inv(base, defs, done, env, order),
        forall|a: int| 0 <= a < defs.len() ==> done[a],
    ensures
        consts_ok(base, defs),
{
    let rank = Seq::new(
        defs.len(),
        |j: int| (choose|k: int| 0 <= k < order.len() && order[k] == j) as nat,
    );
    assert forall|j: int| 0 <= j < defs.len() implies 0 <= #[trigger] rank[j] < order.len()
        && order[rank[j] as int] == j by {
        assert(done[j]);
        assert(order.contains(j));
    }
    assert forall|i: int, j: int|
        0 <= i < defs.len() && 0 <= j < defs.len() && #[trigger] depends(defs, i, j) implies rank[j]
        < rank[i] by {
        assert(0 <= rank[i] < order.len() && order[rank[i] as int] == i);
        let k = rank[i] as int;
        assert(depends(defs, order[k], j));
        let k2 = choose|k2: int| 0 <= k2 < k && #[trigger] order[k2] == j;
        assert(0 <= rank[j] < order.len() && order[rank[j] as int] == j);
        assert(rank[j] == k2);
    }
    assert(is_ranking(defs, rank));
    assert forall|i: int| 0 <= i < defs.len() implies eval_spec(
        (#[trigger] defs[i]).expression@,
        full_env(base, defs),
    ) == Ok::<ConstValue, ConstEvalError>(defs[i].result) by {
        assert(0 <= rank[i] < order.len() && order[rank[i] as int] == i);
    }
}

/// Resolve the declarations against `base`, checking identities, types,
/// references, cycles and cached results. Errors carry `scope`.
pub fn evaluate_definitions<'a>(
    scope: &String,
    defs: &Vec<ConstDef<'a>>,
    base: &Vec<ConstBinding<'a>>,
) -> (r: Result<(), VerifyError>)
    ensures
        r matches Err(e) ==> blamed(e) == Some(scope@),
        r is Ok <==> consts_ok(base@, defs@),
        r matches Err(e) ==> e matches VerifyError::InvalidConstExpression { scope: s, .. } && s@
            == scope@,
        r matches Err(e) ==> (only_results_open(base@, defs@) ==> e matches VerifyError::InvalidConstExpression {
            reason: ConstEvalError::ResultMismatch,
            ..
        }),
{
    let n = defs.len();
    // Identities and declared types, in declaration order.
    let mut i: usize = 0;
    while i < n
        invariant
            0 <= i <= n == defs.len(),
            forall|a: int, b: int|
                0 <= a < i && 0 <= b < i && a != b ==> #[trigger] defs@[a].id != #[trigger] defs@[b].id,
            forall|a: int| 0 <= a < i ==> !has_id(base@, #[trigger] defs@[a].id),
            forall|a: int| 0 <= a < i ==> (#[trigger] defs@[a]).ty@ == defs@[a].expression.ty@,
        decreases n - i,
    {
        let id = defs[i].id;
        let mut j: usize = 0;
        while j < i
            invariant
                0 <= j <= i < n == defs.len(),
                id == defs@[i as int].id,
                forall|a: int| 0 <= a < j ==> #[trigger] defs@[a].id != id,
            decreases i - j,
        {
            if defs[j].id == id {
                assert(!defs_distinct(base@, defs@)) by {
                    assert(defs@[j as int].id == defs@[i as int].id);
                }
                return Err(
                    VerifyError::InvalidConstExpression {
                        scope: scope.clone(),
                        declaration: id,
                        reason: ConstEvalError::DuplicateDefinition(id),
                    },
                );
            }
            j += 1;
        }
        if lookup(base, id).is_some() {
            proof {
                lemma_lookup_none(base@, id);
            }
            return Err(
                VerifyError::InvalidConstExpression {
                    scope: scope.clone(),
                    declaration: id,
                    reason: ConstEvalError::DuplicateDefinition(id),
                },
            );
        }
        proof {
            lemma_lookup_none(base@, id);
        }
        if !types_equal(defs[i].ty, &defs[i].expression.ty) {
            return Err(
                VerifyError::InvalidConstExpression {
                    scope: scope.clone(),
                    declaration: id,
                    reason: ConstEvalError::TypeMismatch,
                },
            );
        }
        i += 1;
    }
    // Every reference resolves to a known constant or declaration.
    let mut i: usize = 0;
    while i < n
        invariant
            0 <= i <= n == defs.len(),
            defs_distinct(base@, defs@),
            defs_types_match(defs@),
            forall|a: int, k: int|
                0 <= a < i && 0 <= k < references_spec(defs@[a].expression@).len() ==> {
                    let r = #[trigger] references_spec(defs@[a].expression@)[k];
                    has_id(base@, r) || is_def_id(defs@, r)
                },
        decreases n - i,
    {
        let refs = defs[i].expression.references();
        let mut k: usize = 0;
        while k < refs.len()
            invariant
                0 <= i < n == defs.len(),
                0 <= k <= refs.len(),
                refs@ == references_spec(defs@[i as int].expression@),
                forall|c: int|
                    0 <= c < k ==> has_id(base@, #[trigger] refs@[c]) || is_def_id(defs@, refs@[c]),
            decreases refs.len() - k,
        {
            let reference = refs[k];
            let known_base = lookup(base, reference).is_some();
            proof {
                lemma_lookup_none(base@, reference);
            }
            if !known_base {
                let mut j: usize = 0;
                while j < n && defs[j].id != reference
                    invariant
                        0 <= j <= n == defs.len(),
                        forall|a: int| 0 <= a < j ==> #[trigger] defs@[a].id != reference,
                    decreases n - j,
                {
                    j += 1;
                }
                if j == n {
                    assert(!refs_known(base@, defs@)) by {
                        assert(references_spec(defs@[i as int].expression@)[k as int] == reference);
                    }
                    return Err(
                        VerifyError::InvalidConstExpression {
                            scope: scope.clone(),
                            declaration: defs[i].id,
                            reason: ConstEvalError::UnknownReference(reference),
                        },
                    );
                }
                assert(defs@[j as int].id == reference);
            }
            k += 1;
        }
        i += 1;
    }
    // Resolve ready declarations until none is left or none can proceed.
    let mut done: Vec<bool> = Vec::new();
    let mut i: usize = 0;
    while i < n
        invariant
            0 <= i <= n,
            done@.len() == i,
            forall|a: int| 0 <= a < i ==> !done@[a],
        decreases n - i,
    {
        done.push(false);
        i += 1;
    }
    let mut env: Vec<ConstBinding<'a>> = base.clone();
    let ghost mut order: Seq<int> = Seq::empty();
    let ghost full = full_env(base@, defs@);
    assert(env@ =~= base@ + order.map_values(|j: int| def_binding(defs@[j])));
    let mut progress = true;
    while progress
        invariant
            n == defs.len() == done@.len(),
            full == full_env(base@, defs@),
            resolution_inv(base@, defs@, done@, env@, order),
            !progress ==> stuck(defs@, done@),
        decreases count_pending(done@) + if progress {
            1nat
        } else {
            0nat
        },
    {
        match find_ready(defs, &done, &env) {
            None => {
                proof {
                    lemma_none_ready_is_stuck(base@, defs@, done@, env@, order);
                }
                progress = false;
            },
            Some(i) => {
                let result = defs[i].expression.evaluate(&env);
                proof {
                    lemma_ready_eval(base@, defs@, done@, env@, order, i as int);
                }
                let value = match result {
                    Ok(v) => v,
                    Err(reason) => {
                        assert(!evaluations_match(base@, defs@)) by {
                            assert(defs@[i as int] == defs@[i as int]);
                        }
                        return Err(
                            VerifyError::InvalidConstExpression {
                                scope: scope.clone(),
                                declaration: defs[i].id,
                                reason,
                            },
                        );
                    },
                };
                if value != defs[i].result {
                    assert(!evaluations_match(base@, defs@)) by {
                        assert(defs@[i as int] == defs@[i as int]);
                    }
                    return Err(
                        VerifyError::InvalidConstExpression {
                            scope: scope.clone(),
                            declaration: defs[i].id,
                            reason: ConstEvalError::ResultMismatch,
                        },
                    );
                }
                let ghost old_done = done@;
                let ghost old_env = env@;
                let ghost old_order = order;
                env.push(ConstBinding { id: defs[i].id, ty: defs[i].ty, value: defs[i].result });
                done.set(i, true);
                proof {
                    order = order.push(i as int);
                    lemma_pending_update(old_done, i as int);
                    lemma_resolve_step(base@, defs@, old_done, old_env, old_order, i as int);
                    assert(done@ == old_done.update(i as int, true));
                    assert(env@ == old_env.push(def_binding(defs@[i as int])));
                }
            },
        }
    }
    if let Some(i) = first_pending(&done) {
        proof {
            lemma_stuck_cyclic(defs@, done@, i as int);
        }
        return Err(
            VerifyError::InvalidConstExpression {
                scope: scope.clone(),
                declaration: defs[i].id,
                reason: ConstEvalError::CyclicReference,
            },
        );
    }
    proof {
        lemma_all_resolved(base@, defs@, done@, env@, order);
    }
    Ok(())
}

/// The declarations of a module's constant globals, in storage order.
pub open spec fn global_defs<'a>(globals: Seq<Global>) -> Seq<ConstDef<'a>> {
    Seq::new(
        globals.len(),
        |i: int|
            ConstDef {
                id: ConstRef::Global(globals[i].id),
                ty: &globals[i].ty,
                expression: &globals[i].init_expr,
                result: globals[i].init,
            },
    )
}

/// The resolved globals that function-local expressions may reference.
pub open spec fn global_env<'a>(globals: Seq<Global>) -> Seq<ConstBinding<'a>> {
    Seq::new(
        globals.len(),
        |i: int|
            ConstBinding { id: ConstRef::Global(globals[i].id), ty: &globals[i].ty, value: globals[i].init },
    )
}

/// The named constant declarations of an instruction list, in order.
pub open spec fn decl_defs<'a>(ins: Seq<Instruction>) -> Seq<ConstDef<'a>>
    decreases ins.len(),
{
    if ins.len() == 0 {
        seq![]
    } else {
        decl_defs(ins.drop_last()) + match ins.last() {
            Instruction::ConstDecl { dst, expression, value, .. } => seq![
                ConstDef { id: ConstRef::Local(dst), ty: &expression.ty, expression: &expression, result: value },
            ],
            _ => seq![],
        }
    }
}

/// The literal constants of an instruction list, as bindings, in order.
pub open spec fn literal_bindings<'a>(ins: Seq<Instruction>) -> Seq<ConstBinding<'a>>
    decreases ins.len(),
{
    if ins.len() == 0 {
        seq![]
    } else {
        literal_bindings(ins.drop_last()) + match ins.last() {
            Instruction::Const { dst, ty, value } => seq![
                ConstBinding { id: ConstRef::Local(dst), ty: &ty, value },
            ],
            _ => seq![],
        }
    }
}

/// The named constant declarations of a function, block by block.
pub open spec fn function_decls<'a>(blocks: Seq<BasicBlock>) -> Seq<ConstDef<'a>>
    decreases blocks.len(),
{
    if blocks.len() == 0 {
        seq![]
    } else {
        function_decls(blocks.drop_last()) + decl_defs(blocks.last().instructions@)
    }
}

/// The literal constants of a function, block by block.
pub open spec fn function_literals<'a>(blocks: Seq<BasicBlock>) -> Seq<ConstBinding<'a>>
    decreases blocks.len(),
{
    if blocks.len() == 0 {
        seq![]
    } else {
        function_literals(blocks.drop_last()) + literal_bindings(blocks.last().instructions@)
    }
}

/// The module's constant globals are consistent.
pub open spec fn globals_consts_ok(m: Module) -> bool {
    consts_ok(Seq::empty(), global_defs(m.globals@))
}

/// A function's named constants are consistent, given the globals and its literal constants.
pub open spec fn locals_consts_ok(m: Module, f: Function) -> bool {
    consts_ok(global_env(m.globals@) + function_literals(f.blocks@), function_decls(f.blocks@))
}

/// The module's constant globals are well formed and each expression
/// evaluates: only a cached result can still disagree.
pub open spec fn globals_results_open(m: Module) -> bool {
    only_results_open(Seq::empty(), global_defs(m.globals@))
}

/// Check the module's constant globals.
pub fn verify_globals(m: &Module) -> (r: Result<(), VerifyError>)
    ensures
        r matches Err(e) ==> blamed(e) == Some("module"@),
        r is Ok <==> globals_consts_ok(*m),
        r matches Err(e) ==> e is InvalidConstExpression,
        r matches Err(e) ==> (globals_results_open(*m) ==> e matches VerifyError::InvalidConstExpression {
            reason: ConstEvalError::ResultMismatch,
            ..
        }),
{
    let mut defs: Vec<ConstDef> = Vec::new();
    let mut i: usize = 0;
    while i < m.globals.len()
        invariant
            0 <= i <= m.globals@.len(),
            defs@ =~= global_defs(m.globals@).take(i as int),
        decreases m.globals.len() - i,
    {
        let g = &m.globals[i];
        defs.push(ConstDef { id: ConstRef::Global(g.id), ty: &g.ty, expression: &g.init_expr, result: g.init });
        i += 1;
    }
    assert(defs@ =~= global_defs(m.globals@));
    let base: Vec<ConstBinding> = Vec::new();
    assert(base@ =~= Seq::<ConstBinding>::empty());
    evaluate_definitions(&String::from_str("module"), &defs, &base)
}

/// The resolved globals, as bindings.
pub fn global_bindings(m: &Module) -> (r: Vec<ConstBinding<'_>>)
    ensures
        r@ == global_env(m.globals@),
{
    let mut env: Vec<ConstBinding> = Vec::new();
    let mut i: usize = 0;
    while i < m.globals.len()
        invariant
            0 <= i <= m.globals@.len(),
            env@ =~= global_env(m.globals@).take(i as int),
        decreases m.globals.len() - i,
    {
        let g = &m.globals[i];
        env.push(ConstBinding { id: ConstRef::Global(g.id), ty: &g.ty, value: g.init });
        i += 1;
    }
    assert(env@ =~= global_env(m.globals@));
    env
}

/// Check a function's named constants against the resolved globals and its literals.
pub fn verify_locals<'a>(m: &'a Module, f: &'a Function, globals: &Vec<ConstBinding<'a>>) -> (r: Result<(), VerifyError>)
    requires
        globals@ == global_env(m.globals@),
    ensures
        r matches Err(e) ==> blamed(e) == Some(f.name@) && error_sound(*f, e),
        r is Ok <==> locals_consts_ok(*m, *f),
        r matches Err(e) ==> e is InvalidConstExpression,
{
    let mut values: Vec<ConstBinding<'a>> = globals.clone();
    let mut defs: Vec<ConstDef<'a>> = Vec::new();
    let mut b: usize = 0;
    while b < f.blocks.len()
        invariant
            0 <= b <= f.blocks@.len(),
            values@ == global_env(m.globals@) + function_literals(f.blocks@.take(b as int)),
            defs@ == function_decls(f.blocks@.take(b as int)),
        decreases f.blocks.len() - b,
    {
        let ghost lits_before = values@;
        let ghost decls_before = defs@;
        let ins = &f.blocks[b].instructions;
        let mut p: usize = 0;
        while p < ins.len()
            invariant
                0 <= p <= ins@.len(),
                values@ == lits_before + literal_bindings(ins@.take(p as int)),
                defs@ == decls_before + decl_defs(ins@.take(p as int)),
            decreases ins.len() - p,
        {
            proof {
                assert(ins@.take(p + 1).drop_last() =~= ins@.take(p as int));
            }
            match &ins[p] {
                Instruction::Const { dst, ty, value } => {
                    values.push(ConstBinding { id: ConstRef::Local(*dst), ty, value: *value });
                    assert(values@ =~= lits_before + literal_bindings(ins@.take(p + 1)));
                    assert(defs@ =~= decls_before + decl_defs(ins@.take(p + 1)));
                },
                Instruction::ConstDecl { dst, expression, value, .. } => {
                    defs.push(
                        ConstDef {
                            id: ConstRef::Local(*dst),
                            ty: &expression.ty,
                            expression,
                            result: *value,
                        },
                    );
                    assert(values@ =~= lits_before + literal_bindings(ins@.take(p + 1)));
                    assert(defs@ =~= decls_before + decl_defs(ins@.take(p + 1)));
                },
                _ => {
                    assert(values@ =~= lits_before + literal_bindings(ins@.take(p + 1)));
                    assert(defs@ =~= decls_before + decl_defs(ins@.take(p + 1)));
                },
            }
            p += 1;
        }
        proof {
            assert(ins@.take(ins@.len() as int) =~= ins@);
            assert(f.blocks@.take(b + 1).drop_last() =~= f.blocks@.take(b as int));
            assert(values@ =~= global_env(m.globals@) + function_literals(f.blocks@.take(b + 1)));
        }
        b += 1;
    }
    assert(f.blocks@.take(f.blocks@.len() as int) =~= f.blocks@);
    evaluate_definitions(&f.name, &defs, &values)
}

} // verus!

