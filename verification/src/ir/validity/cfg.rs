//! Control flow: the entry has no incoming edge, phis name exactly their
//! predecessors, and every use on a path from the entry follows its definition.
//! Reachability never removes or simplifies blocks.
use vstd::prelude::*;
use crate::ir::module::{Function, Instruction, Terminator};
use crate::ir::types::{BlockId, Type, TypeModel, ValueId};
use crate::ir::validity::VerifyError;
use crate::ir::validity::blocks::{find_block, verify_operand};
use crate::ir::validity::constants::{count_pending, lemma_pending_update};
use crate::ir::validity::operands::is_storable;
use crate::ir::validity::structure::{instr_dst, instr_uses};
use crate::ir::validity::facts::{
    defines, distinct_blocks, distinct_defs, instr_result_spec, result_id, has_block, ins_at, instr_uses_spec, is_site, is_storable_model,
    targets_spec, terminator_use_spec, typed_as,
};

use crate::ir::validity::{blamed, error_sound};

verus! {

/// The index of the entry block.
pub open spec fn entry_index(f: Function) -> int {
    choose|i: int| 0 <= i < f.blocks@.len() && f.blocks@[i].id == f.entry
}

/// Block `a` branches to block `c`.
pub open spec fn edge(f: Function, a: int, c: int) -> bool {
    targets_spec(f.blocks@[a].terminator.unwrap()).contains(f.blocks@[c].id)
}

/// `s` holds the entry (unless it is `avoid`) and every successor, other than
/// `avoid`, of a block it holds.
pub open spec fn closed(f: Function, s: Set<int>, avoid: int) -> bool {
    &&& (entry_index(f) != avoid ==> s.contains(entry_index(f)))
    &&& forall|a: int, c: int|
        0 <= a < f.blocks@.len() && 0 <= c < f.blocks@.len() && s.contains(a) && #[trigger] edge(
            f,
            a,
            c,
        ) && c != avoid ==> s.contains(c)
}

/// Some path from the entry reaches block `b` without passing through block `avoid`.
pub open spec fn reaches_avoiding(f: Function, b: int, avoid: int) -> bool {
    forall|s: Set<int>| #[trigger] closed(f, s, avoid) ==> s.contains(b)
}

/// Some path from the entry reaches block `b`.
pub open spec fn reachable(f: Function, b: int) -> bool {
    reaches_avoiding(f, b, -1)
}

/// Every path from the entry to `b` passes through `d`.
pub open spec fn dominates(f: Function, d: int, b: int) -> bool {
    d == b || !reaches_avoiding(f, b, d)
}

/// On every path from the entry, a definition of `v` comes before position
/// `pos` of block `b`: earlier in `b`, or in a block that dominates `b`.
/// Parameters are available everywhere; unreachable code is not constrained.
pub open spec fn available(f: Function, v: ValueId, b: int, pos: int) -> bool {
    reachable(f, b) ==> forall|db: int, dp: int|
        is_site(f, db, dp) && defines(#[trigger] ins_at(f, db, dp), v) ==> if db == b {
            dp < pos
        } else {
            dominates(f, db, b)
        }
}

/// One phi input: it comes from a predecessor of `b`, has the phi's type, and
/// is available at the end of that predecessor.
pub open spec fn incoming_ok(f: Function, b: int, ty: TypeModel, input: (ValueId, BlockId)) -> bool {
    exists|a: int|
        0 <= a < f.blocks@.len() && #[trigger] f.blocks@[a].id == input.1 && edge(f, a, b)
            && typed_as(f, input.0, ty) && available(
            f,
            input.0,
            a,
            f.blocks@[a].instructions@.len() as int,
        )
}

/// A phi at position `p` of block `b`: only phis precede it, it is not in the
/// entry, and it has one well-typed input for each predecessor and no other.
pub open spec fn phi_ok(f: Function, b: int, p: int, ty: Type, incomings: Seq<(ValueId, BlockId)>) -> bool {
    &&& forall|q: int| 0 <= q < p ==> #[trigger] ins_at(f, b, q) is Phi
    &&& f.blocks@[b].id != f.entry
    &&& incomings.len() > 0
    &&& is_storable_model(ty@)
    &&& forall|k: int| 0 <= k < incomings.len() ==> incoming_ok(f, b, ty@, #[trigger] incomings[k])
    &&& forall|k1: int, k2: int|
        0 <= k1 < incomings.len() && 0 <= k2 < incomings.len() && k1 != k2 ==> #[trigger] incomings[k1].1
            != #[trigger] incomings[k2].1
    &&& forall|a: int|
        0 <= a < f.blocks@.len() && #[trigger] edge(f, a, b) ==> exists|k: int|
            0 <= k < incomings.len() && #[trigger] incomings[k].1 == f.blocks@[a].id
}

/// The instruction at `(b, p)`: a phi as above, or an instruction whose
/// operands are all available where it stands.
pub open spec fn site_ok(f: Function, b: int, p: int) -> bool {
    match ins_at(f, b, p) {
        Instruction::Phi { ty, incomings, .. } => phi_ok(f, b, p, ty, incomings@),
        _ => forall|k: int|
            0 <= k < instr_uses_spec(ins_at(f, b, p)).len() ==> available(
                f,
                #[trigger] instr_uses_spec(ins_at(f, b, p))[k],
                b,
                p,
            ),
    }
}

/// What block `b`'s terminator reads is available at the end of the block.
pub open spec fn terminator_available(f: Function, b: int) -> bool {
    match terminator_use_spec(f.blocks@[b].terminator.unwrap()) {
        Some(v) => available(f, v, b, f.blocks@[b].instructions@.len() as int),
        None => true,
    }
}

/// The function's control flow and SSA form are valid.
pub open spec fn cfg_ok(f: Function) -> bool {
    &&& forall|a: int| 0 <= a < f.blocks@.len() ==> !#[trigger] edge(f, a, entry_index(f))
    &&& forall|b: int, p: int| is_site(f, b, p) ==> #[trigger] site_ok(f, b, p)
    &&& forall|b: int| 0 <= b < f.blocks@.len() ==> #[trigger] terminator_available(f, b)
}

/// What the structural checks established before the control-flow checks run.
pub open spec fn cfg_ready(f: Function) -> bool {
    &&& distinct_blocks(f)
    &&& has_block(f, f.entry)
    &&& forall|b: int| 0 <= b < f.blocks@.len() ==> (#[trigger] f.blocks@[b]).terminator is Some
    &&& forall|b: int, k: int|
        0 <= b < f.blocks@.len() && 0 <= k < targets_spec(f.blocks@[b].terminator.unwrap()).len()
            ==> has_block(f, #[trigger] targets_spec(f.blocks@[b].terminator.unwrap())[k])
}

/// `succ[a]` lists, by index, the destinations of block `a`'s terminator.
pub open spec fn successors_of(f: Function, succ: Seq<Vec<usize>>) -> bool {
    &&& succ.len() == f.blocks@.len()
    &&& forall|a: int|
        0 <= a < succ.len() ==> (#[trigger] succ[a])@.len() == targets_spec(
            f.blocks@[a].terminator.unwrap(),
        ).len()
    &&& forall|a: int, k: int|
        0 <= a < succ.len() && 0 <= k < succ[a]@.len() ==> #[trigger] succ[a]@[k] < f.blocks@.len()
            && f.blocks@[succ[a]@[k] as int].id == targets_spec(f.blocks@[a].terminator.unwrap())[k]
}

proof fn lemma_entry_index(f: Function, i: int)
    requires
        distinct_blocks(f),
        0 <= i < f.blocks@.len(),
        f.blocks@[i].id == f.entry,
    ensures
        entry_index(f) == i,
{
}

/// An edge, read through the successor lists.
proof fn lemma_edge_succ(f: Function, succ: Seq<Vec<usize>>, a: int, c: int)
    requires
        distinct_blocks(f),
        successors_of(f, succ),
        0 <= a < f.blocks@.len(),
        0 <= c < f.blocks@.len(),
    ensures
        edge(f, a, c) <==> exists|k: int| 0 <= k < succ[a]@.len() && #[trigger] succ[a]@[k] as int == c,
{
    let ts = targets_spec(f.blocks@[a].terminator.unwrap());
    if edge(f, a, c) {
        let k = choose|k: int| 0 <= k < ts.len() && ts[k] == f.blocks@[c].id;
        assert(f.blocks@[succ[a]@[k] as int].id == f.blocks@[c].id);
        assert(succ[a]@[k] as int == c);
    }
    if exists|k: int| 0 <= k < succ[a]@.len() && #[trigger] succ[a]@[k] as int == c {
        let k = choose|k: int| 0 <= k < succ[a]@.len() && #[trigger] succ[a]@[k] as int == c;
        assert(ts[k] == f.blocks@[c].id);
    }
}

/// Destinations of every block, as block indices.
fn successors(f: &Function) -> (r: Vec<Vec<usize>>)
    requires
        cfg_ready(*f),
    ensures
        successors_of(*f, r@),
{
    let mut out: Vec<Vec<usize>> = Vec::new();
    let mut a: usize = 0;
    while a < f.blocks.len()
        invariant
            0 <= a <= f.blocks@.len(),
            cfg_ready(*f),
            out@.len() == a,
            forall|x: int|
                0 <= x < a ==> (#[trigger] out@[x])@.len() == targets_spec(
                    f.blocks@[x].terminator.unwrap(),
                ).len(),
            forall|x: int, k: int|
                0 <= x < a && 0 <= k < out@[x]@.len() ==> #[trigger] out@[x]@[k] < f.blocks@.len()
                    && f.blocks@[out@[x]@[k] as int].id == targets_spec(
                    f.blocks@[x].terminator.unwrap(),
                )[k],
        decreases f.blocks.len() - a,
    {
        let t = match &f.blocks[a].terminator {
            Some(t) => t,
            None => {
                assert(f.blocks@[a as int].terminator is Some);
                return out;
            },
        };
        let ghost ts = targets_spec(*t);
        let mut ids: Vec<BlockId> = Vec::new();
        match t {
            Terminator::Br { target } => {
                ids.push(*target);
            },
            Terminator::CBr { then_bb, else_bb, .. } => {
                ids.push(*then_bb);
                ids.push(*else_bb);
            },
            Terminator::Switch { default_bb, cases, .. } => {
                ids.push(*default_bb);
                let mut i: usize = 0;
                while i < cases.len()
                    invariant
                        0 <= i <= cases.len(),
                        ids@ == seq![*default_bb] + cases@.take(i as int).map_values(
                            |c: (crate::ir::types::ConstValue, BlockId)| c.1,
                        ),
                    decreases cases.len() - i,
                {
                    ids.push(cases[i].1);
                    i += 1;
                    assert(ids@ =~= seq![*default_bb] + cases@.take(i as int).map_values(
                        |c: (crate::ir::types::ConstValue, BlockId)| c.1,
                    ));
                }
                assert(cases@.take(cases@.len() as int) =~= cases@);
            },
            Terminator::Ret { .. } | Terminator::Trap { .. } => {},
        }
        assert(ids@ =~= ts);
        let mut row: Vec<usize> = Vec::new();
        let mut k: usize = 0;
        while k < ids.len()
            invariant
                0 <= a < f.blocks@.len(),
                cfg_ready(*f),
                ids@ == ts,
                ts == targets_spec(f.blocks@[a as int].terminator.unwrap()),
                0 <= k <= ids@.len(),
                row@.len() == k,
                forall|j: int|
                    0 <= j < k ==> #[trigger] row@[j] < f.blocks@.len() && f.blocks@[row@[j] as int].id
                        == ts[j],
            decreases ids.len() - k,
        {
            assert(has_block(*f, ts[k as int]));
            match find_block(f, ids[k]) {
                Some(c) => row.push(c),
                None => {
                    return out;
                },
            }
            k += 1;
        }
        out.push(row);
        a += 1;
    }
    out
}

/// Every block from which the entry reaches, avoiding block `avoid` (if any).
fn reach(f: &Function, succ: &Vec<Vec<usize>>, entry: usize, avoid: Option<usize>) -> (r: Vec<bool>)
    requires
        cfg_ready(*f),
        successors_of(*f, succ@),
        entry == entry_index(*f),
        entry < f.blocks@.len(),
    ensures
        r@.len() == f.blocks@.len(),
        forall|b: int|
            0 <= b < f.blocks@.len() ==> (r@[b] <==> reaches_avoiding(
                *f,
                b,
                match avoid {
                    Some(d) => d as int,
                    None => -1,
                },
            )),
{
    let n = f.blocks.len();
    let ghost av: int = match avoid {
        Some(d) => d as int,
        None => -1,
    };
    let mut seen: Vec<bool> = Vec::new();
    let mut i: usize = 0;
    while i < n
        invariant
            0 <= i <= n,
            seen@.len() == i,
            forall|a: int| 0 <= a < i ==> !seen@[a],
        decreases n - i,
    {
        seen.push(false);
        i += 1;
    }
    let start_blocked = match avoid {
        Some(d) => d == entry,
        None => false,
    };
    if !start_blocked {
        seen.set(entry, true);
    }
    let mut changed = true;
    while changed
        invariant
            n == f.blocks@.len() == seen@.len(),
            cfg_ready(*f),
            successors_of(*f, succ@),
            entry == entry_index(*f),
            entry < n,
            start_blocked == (entry == av),
            !start_blocked ==> seen@[entry as int],
            av == match avoid {
                Some(d) => d as int,
                None => -1,
            },
            forall|s: Set<int>, b: int|
                #[trigger] closed(*f, s, av) && 0 <= b < n && #[trigger] seen@[b] ==> s.contains(b),
            !changed ==> forall|a: int, c: int|
                0 <= a < n && 0 <= c < n && seen@[a] && #[trigger] edge(*f, a, c) && c != av
                    ==> seen@[c],
        decreases count_pending(seen@) + if changed {
            1nat
        } else {
            0nat
        },
    {
        changed = false;
        let ghost pending_before = count_pending(seen@);
        let mut a: usize = 0;
        while a < n
            invariant
                n == f.blocks@.len() == seen@.len(),
                cfg_ready(*f),
                successors_of(*f, succ@),
                0 <= a <= n,
                entry < n,
                !start_blocked ==> seen@[entry as int],
                av == match avoid {
                    Some(d) => d as int,
                    None => -1,
                },
                forall|s: Set<int>, b: int|
                    #[trigger] closed(*f, s, av) && 0 <= b < n && #[trigger] seen@[b] ==> s.contains(b),
                changed ==> count_pending(seen@) < pending_before,
                !changed ==> count_pending(seen@) == pending_before,
                !changed ==> forall|x: int, c: int|
                    0 <= x < a && 0 <= c < n && seen@[x] && #[trigger] edge(*f, x, c) && c != av
                        ==> seen@[c],
            decreases n - a,
        {
            if seen[a] {
                let row = &succ[a];
                let mut k: usize = 0;
                while k < row.len()
                    invariant
                        n == f.blocks@.len() == seen@.len(),
                        cfg_ready(*f),
                        successors_of(*f, succ@),
                        0 <= a < n,
                        *row == succ@[a as int],
                        seen@[a as int],
                        0 <= k <= row@.len(),
                        entry < n,
                        !start_blocked ==> seen@[entry as int],
                        av == match avoid {
                            Some(d) => d as int,
                            None => -1,
                        },
                        forall|s: Set<int>, b: int|
                            #[trigger] closed(*f, s, av) && 0 <= b < n && #[trigger] seen@[b] ==> s.contains(b),
                        changed ==> count_pending(seen@) < pending_before,
                        !changed ==> count_pending(seen@) == pending_before,
                        !changed ==> forall|x: int, c: int|
                            0 <= x < a && 0 <= c < n && seen@[x] && #[trigger] edge(*f, x, c) && c != av
                                ==> seen@[c],
                        !changed ==> forall|j: int| 0 <= j < k && row@[j] as int != av ==> seen@[row@[j] as int],
                    decreases row.len() - k,
                {
                    let c = row[k];
                    let blocked = match avoid {
                        Some(d) => d == c,
                        None => false,
                    };
                    if !blocked && !seen[c] {
                        proof {
                            lemma_edge_succ(*f, succ@, a as int, c as int);
                            lemma_pending_update(seen@, c as int);
                            assert forall|s: Set<int>| #[trigger] closed(*f, s, av) implies s.contains(c as int) by {
                                assert(seen@[a as int]);
                                assert(s.contains(a as int));
                                assert(edge(*f, a as int, c as int));
                            }
                        }
                        seen.set(c, true);
                        changed = true;
                    }
                    k += 1;
                }
                proof {
                    if !changed {
                        assert forall|x: int, c: int|
                            0 <= x < a + 1 && 0 <= c < n && seen@[x] && #[trigger] edge(*f, x, c) && c != av
                                implies seen@[c] by {
                            if x == a {
                                lemma_edge_succ(*f, succ@, a as int, c);
                                let j = choose|j: int| 0 <= j < row@.len() && #[trigger] row@[j] as int == c;
                            }
                        }
                    }
                }
            }
            a += 1;
        }
    }
    proof {
        assert forall|b: int| 0 <= b < n implies (seen@[b] <==> reaches_avoiding(*f, b, av)) by {
            let s = Set::new(|x: int| 0 <= x < n && seen@[x]);
            assert(closed(*f, s, av));
            if reaches_avoiding(*f, b, av) {
                assert(s.contains(b));
            }
        }
    }
    seen
}

/// `row` lists block index `x`.
fn lists_index(row: &Vec<usize>, x: usize) -> (r: bool)
    ensures
        r == exists|k: int| 0 <= k < row@.len() && #[trigger] row@[k] as int == x as int,
{
    let mut k: usize = 0;
    while k < row.len()
        invariant
            0 <= k <= row@.len(),
            forall|j: int| 0 <= j < k ==> #[trigger] row@[j] as int != x as int,
        decreases row.len() - k,
    {
        if row[k] == x {
            return true;
        }
        k += 1;
    }
    false
}

/// The first instruction that defines `v`.
fn def_site(f: &Function, v: ValueId) -> (r: Option<(usize, usize)>)
    ensures
        match r {
            Some((b, p)) => is_site(*f, b as int, p as int) && defines(ins_at(*f, b as int, p as int), v),
            None => forall|b: int, p: int| is_site(*f, b, p) ==> !defines(#[trigger] ins_at(*f, b, p), v),
        },
{
    let mut b: usize = 0;
    while b < f.blocks.len()
        invariant
            0 <= b <= f.blocks@.len(),
            forall|b1: int, p1: int| is_site(*f, b1, p1) && b1 < b ==> !defines(#[trigger] ins_at(*f, b1, p1), v),
        decreases f.blocks.len() - b,
    {
        let mut p: usize = 0;
        while p < f.blocks[b].instructions.len()
            invariant
                0 <= b < f.blocks@.len(),
                0 <= p <= f.blocks@[b as int].instructions@.len(),
                forall|b1: int, p1: int|
                    is_site(*f, b1, p1) && (b1 < b || (b1 == b && p1 < p)) ==> !defines(#[trigger] ins_at(*f, b1, p1), v),
            decreases f.blocks@[b as int].instructions@.len() - p,
        {
            if instr_dst(&f.blocks[b].instructions[p]) == Some(v) {
                return Some((b, p));
            }
            p += 1;
        }
        b += 1;
    }
    None
}

/// The checks of [`available`] for `v` at position `pos` of block `b`.
fn check_available(
    f: &Function,
    succ: &Vec<Vec<usize>>,
    entry: usize,
    live: &Vec<bool>,
    v: ValueId,
    b: usize,
    pos: usize,
) -> (r: Result<(), VerifyError>)
    requires
        cfg_ready(*f),
        distinct_defs(*f),
        successors_of(*f, succ@),
        entry == entry_index(*f),
        entry < f.blocks@.len(),
        live@.len() == f.blocks@.len(),
        forall|x: int| 0 <= x < f.blocks@.len() ==> (live@[x] <==> reachable(*f, x)),
        b < f.blocks@.len(),
    ensures
        r matches Err(e) ==> blamed(e) == Some(f.name@) && error_sound(*f, e),
        r is Ok <==> available(*f, v, b as int, pos as int),
        r matches Err(e) ==> e matches VerifyError::NonDominatingValue { value, block, .. } && value
            == v && block == f.blocks@[b as int].id,
{
    if !live[b] {
        return Ok(());
    }
    match def_site(f, v) {
        None => Ok(()),
        Some((db, dp)) => {
            proof {
                assert forall|b1: int, p1: int|
                    is_site(*f, b1, p1) && defines(#[trigger] ins_at(*f, b1, p1), v) implies b1 == db && p1
                        == dp by {
                    if b1 != db || p1 != dp {
                        assert(instr_result_spec(ins_at(*f, db as int, dp as int)) is Some);
                        assert(result_id(ins_at(*f, db as int, dp as int)) == v);
                    }
                }
            }
            let ok = if db == b {
                dp < pos
            } else {
                let others = reach(f, succ, entry, Some(db));
                !others[b]
            };
            if ok {
                Ok(())
            } else {
                proof {
                    assert(defines(ins_at(*f, db as int, dp as int), v));
                }
                Err(VerifyError::NonDominatingValue { func: f.name.clone(), value: v, block: f.blocks[b].id })
            }
        },
    }
}

fn invalid_phi(f: &Function, b: usize, dst: ValueId, reason: &'static str) -> (r: VerifyError)
    requires
        b < f.blocks@.len(),
    ensures
        r matches VerifyError::InvalidPhi { block, value, .. } && block == f.blocks@[b as int].id
            && value == dst,
        blamed(r) == Some(f.name@),
{
    VerifyError::InvalidPhi { func: f.name.clone(), block: f.blocks[b].id, value: dst, reason }
}

/// The checks of [`phi_ok`] other than its position, input by input.
fn check_phi(
    f: &Function,
    succ: &Vec<Vec<usize>>,
    entry: usize,
    live: &Vec<bool>,
    b: usize,
    p: usize,
    dst: ValueId,
    ty: &Type,
    incomings: &Vec<(ValueId, BlockId)>,
) -> (r: Result<(), VerifyError>)
    requires
        cfg_ready(*f),
        distinct_defs(*f),
        successors_of(*f, succ@),
        entry == entry_index(*f),
        entry < f.blocks@.len(),
        live@.len() == f.blocks@.len(),
        forall|x: int| 0 <= x < f.blocks@.len() ==> (live@[x] <==> reachable(*f, x)),
        is_site(*f, b as int, p as int),
        forall|q: int| 0 <= q < p ==> #[trigger] ins_at(*f, b as int, q) is Phi,
    ensures
        r matches Err(e) ==> blamed(e) == Some(f.name@) && error_sound(*f, e),
        r is Ok <==> phi_ok(*f, b as int, p as int, *ty, incomings@),
{
    let n = f.blocks.len();
    if f.blocks[b].id == f.entry {
        return Err(invalid_phi(f, b, dst, "function entry has no incoming SSA value"));
    }
    if incomings.len() == 0 {
        return Err(invalid_phi(f, b, dst, "phi requires incoming values"));
    }
    if !is_storable(ty) {
        return Err(
            VerifyError::InvalidInstructionType { func: f.name.clone(), operation: "phi", ty: ty.clone() },
        );
    }
    let mut k: usize = 0;
    while k < incomings.len()
        invariant
            n == f.blocks@.len(),
            cfg_ready(*f),
            distinct_defs(*f),
            successors_of(*f, succ@),
            entry == entry_index(*f),
            entry < n,
            live@.len() == n,
            forall|x: int| 0 <= x < n ==> (live@[x] <==> reachable(*f, x)),
            b < n,
            0 <= k <= incomings@.len(),
            forall|j: int| 0 <= j < k ==> incoming_ok(*f, b as int, ty@, #[trigger] incomings@[j]),
            forall|j1: int, j2: int|
                0 <= j1 < k && 0 <= j2 < k && j1 != j2 ==> #[trigger] incomings@[j1].1
                    != #[trigger] incomings@[j2].1,
        decreases incomings.len() - k,
    {
        let (value, pred) = incomings[k];
        let a = match find_block(f, pred) {
            Some(a) => a,
            None => {
                return Err(invalid_phi(f, b, dst, "phi names an unknown predecessor"));
            },
        };
        proof {
            assert forall|a2: int| 0 <= a2 < n && #[trigger] f.blocks@[a2].id == pred implies a2 == a by {}
        }
        if !lists_index(&succ[a], b) {
            proof {
                lemma_edge_succ(*f, succ@, a as int, b as int);
            }
            return Err(invalid_phi(f, b, dst, "phi input is not a predecessor"));
        }
        proof {
            lemma_edge_succ(*f, succ@, a as int, b as int);
        }
        let mut j: usize = 0;
        while j < k
            invariant
                0 <= j <= k < incomings@.len(),
                b < f.blocks@.len(),
                pred == incomings@[k as int].1,
                forall|i: int| 0 <= i < j ==> #[trigger] incomings@[i].1 != pred,
            decreases k - j,
        {
            if incomings[j].1 == pred {
                return Err(invalid_phi(f, b, dst, "duplicate phi predecessor"));
            }
            j += 1;
        }
        verify_operand(f, value, ty)?;
        check_available(f, succ, entry, live, value, a, f.blocks[a].instructions.len())?;
        k += 1;
    }
    let mut a: usize = 0;
    while a < n
        invariant
            n == f.blocks@.len(),
            cfg_ready(*f),
            successors_of(*f, succ@),
            b < n,
            0 <= a <= n,
            forall|x: int|
                0 <= x < a && #[trigger] edge(*f, x, b as int) ==> exists|k: int|
                    0 <= k < incomings@.len() && #[trigger] incomings@[k].1 == f.blocks@[x].id,
        decreases n - a,
    {
        proof {
            lemma_edge_succ(*f, succ@, a as int, b as int);
        }
        if lists_index(&succ[a], b) {
            let id = f.blocks[a].id;
            let mut k: usize = 0;
            while k < incomings.len() && incomings[k].1 != id
                invariant
                    0 <= k <= incomings@.len(),
                    forall|i: int| 0 <= i < k ==> #[trigger] incomings@[i].1 != id,
                decreases incomings.len() - k,
            {
                k += 1;
            }
            if k == incomings.len() {
                return Err(invalid_phi(f, b, dst, "phi is missing a predecessor"));
            }
        }
        a += 1;
    }
    Ok(())
}

/// The control-flow and SSA checks of [`cfg_ok`]: the entry's incoming
/// edges, then each block's instructions in order, then its terminator.
pub fn verify_cfg(f: &Function) -> (r: Result<(), VerifyError>)
    requires
        cfg_ready(*f),
        distinct_defs(*f),
    ensures
        r matches Err(e) ==> blamed(e) == Some(f.name@) && error_sound(*f, e),
        r is Ok <==> cfg_ok(*f),
        (exists|a: int| 0 <= a < f.blocks@.len() && #[trigger] edge(*f, a, entry_index(*f))) ==> (exists|a: int|
            0 <= a < f.blocks@.len() && (r matches Err(VerifyError::EntryHasPredecessor { entry, predecessor, .. })
                && entry == f.entry && predecessor == f.blocks@[a].id) && edge(*f, a, entry_index(*f)) && forall|x: int|
                0 <= x < a ==> !#[trigger] edge(*f, x, entry_index(*f))),
{
    let n = f.blocks.len();
    let succ = successors(f);
    let entry = match find_block(f, f.entry) {
        Some(e) => e,
        None => {
            return Err(VerifyError::InvalidEntryBlock { func: f.name.clone(), entry: f.entry });
        },
    };
    proof {
        lemma_entry_index(*f, entry as int);
    }
    let mut a: usize = 0;
    while a < n
        invariant
            n == f.blocks@.len(),
            cfg_ready(*f),
            successors_of(*f, succ@),
            entry == entry_index(*f),
            entry < n,
            0 <= a <= n,
            forall|x: int| 0 <= x < a ==> !#[trigger] edge(*f, x, entry as int),
        decreases n - a,
    {
        proof {
            lemma_edge_succ(*f, succ@, a as int, entry as int);
        }
        if lists_index(&succ[a], entry) {
            return Err(
                VerifyError::EntryHasPredecessor {
                    func: f.name.clone(),
                    entry: f.entry,
                    predecessor: f.blocks[a].id,
                },
            );
        }
        a += 1;
    }
    let live = reach(f, &succ, entry, None);
    let mut b: usize = 0;
    while b < n
        invariant
            n == f.blocks@.len(),
            cfg_ready(*f),
            distinct_defs(*f),
            successors_of(*f, succ@),
            entry == entry_index(*f),
            entry < n,
            live@.len() == n,
            forall|x: int| 0 <= x < n ==> (live@[x] <==> reachable(*f, x)),
            forall|x: int| 0 <= x < n ==> !#[trigger] edge(*f, x, entry as int),
            0 <= b <= n,
            forall|b1: int, p1: int| is_site(*f, b1, p1) && b1 < b ==> #[trigger] site_ok(*f, b1, p1),
            forall|b1: int| 0 <= b1 < b ==> #[trigger] terminator_available(*f, b1),
        decreases n - b,
    {
        let instructions = &f.blocks[b].instructions;
        let mut past_phi = false;
        let mut p: usize = 0;
        while p < instructions.len()
            invariant
                n == f.blocks@.len(),
                cfg_ready(*f),
                distinct_defs(*f),
                successors_of(*f, succ@),
                entry == entry_index(*f),
                entry < n,
                live@.len() == n,
                forall|x: int| 0 <= x < n ==> (live@[x] <==> reachable(*f, x)),
                0 <= b < n,
                forall|x: int| 0 <= x < n ==> !#[trigger] edge(*f, x, entry as int),
                *instructions == f.blocks@[b as int].instructions,
                0 <= p <= instructions@.len(),
                !past_phi ==> forall|q: int| 0 <= q < p ==> #[trigger] ins_at(*f, b as int, q) is Phi,
                past_phi ==> exists|q: int| 0 <= q < p && !(#[trigger] ins_at(*f, b as int, q) is Phi),
                forall|b1: int, p1: int|
                    is_site(*f, b1, p1) && (b1 < b || (b1 == b && p1 < p)) ==> #[trigger] site_ok(*f, b1, p1),
            decreases instructions.len() - p,
        {
            let ins = &instructions[p];
            assert(*ins == ins_at(*f, b as int, p as int));
            match ins {
                Instruction::Phi { dst, ty, incomings } => {
                    if past_phi {
                        assert(!site_ok(*f, b as int, p as int));
                        return Err(invalid_phi(f, b, *dst, "phi must precede non-phi instructions"));
                    }
                    let checked = check_phi(f, &succ, entry, &live, b, p, *dst, ty, incomings);
                    if checked.is_err() {
                        assert(!site_ok(*f, b as int, p as int));
                        return checked;
                    }
                },
                _ => {
                    past_phi = true;
                    let uses = instr_uses(ins);
                    let mut k: usize = 0;
                    while k < uses.len()
                        invariant
                            n == f.blocks@.len(),
                            cfg_ready(*f),
                            distinct_defs(*f),
                            successors_of(*f, succ@),
                            entry == entry_index(*f),
                            entry < n,
                            live@.len() == n,
                            forall|x: int| 0 <= x < n ==> (live@[x] <==> reachable(*f, x)),
                            0 <= b < n,
                            forall|x: int| 0 <= x < n ==> !#[trigger] edge(*f, x, entry as int),
                            is_site(*f, b as int, p as int),
                            *ins == ins_at(*f, b as int, p as int),
                            !(*ins is Phi),
                            uses@ == instr_uses_spec(*ins),
                            0 <= k <= uses@.len(),
                            forall|j: int| 0 <= j < k ==> available(*f, #[trigger] uses@[j], b as int, p as int),
                        decreases uses.len() - k,
                    {
                        let checked = check_available(f, &succ, entry, &live, uses[k], b, p);
                        if checked.is_err() {
                            assert(!site_ok(*f, b as int, p as int));
                            return checked;
                        }
                        k += 1;
                    }
                },
            }
            p += 1;
        }
        let used = match &f.blocks[b].terminator {
            Some(Terminator::CBr { cond, .. }) => Some(*cond),
            Some(Terminator::Switch { value, .. }) => Some(*value),
            Some(Terminator::Ret { value, .. }) => *value,
            _ => None,
        };
        assert(f.blocks@[b as int].terminator is Some);
        assert(used == terminator_use_spec(f.blocks@[b as int].terminator.unwrap()));
        if let Some(v) = used {
            let checked = check_available(f, &succ, entry, &live, v, b, instructions.len());
            if checked.is_err() {
                assert(!terminator_available(*f, b as int));
                return checked;
            }
        }
        b += 1;
    }
    Ok(())
}

} // verus!
