//! How many arithmetic, comparison and constant-declaration instructions a
//! function's blocks hold.
use vstd::prelude::*;
use crate::ir::module::{BasicBlock, Instruction};

verus! {

/// Three counts: arithmetic instructions, comparisons, constant declarations.
pub type Census = (nat, nat, nat);

pub open spec fn plus3(a: Census, b: Census) -> Census {
    (a.0 + b.0, a.1 + b.1, a.2 + b.2)
}

/// What one instruction adds to a census.
pub open spec fn weight(i: Instruction) -> Census {
    match i {
        Instruction::Bin { .. } => (1, 0, 0),
        Instruction::Cmp { .. } => (0, 1, 0),
        Instruction::ConstDecl { .. } => (0, 0, 1),
        _ => (0, 0, 0),
    }
}

/// The census of a sequence of instructions.
pub open spec fn census_of(s: Seq<Instruction>) -> Census
    decreases s.len(),
{
    if s.len() == 0 {
        (0, 0, 0)
    } else {
        plus3(census_of(s.drop_last()), weight(s.last()))
    }
}

/// The census of all instructions of all blocks.
pub open spec fn census(bs: Seq<BasicBlock>) -> Census
    decreases bs.len(),
{
    if bs.len() == 0 {
        (0, 0, 0)
    } else {
        plus3(census(bs.drop_last()), census_of(bs.last().instructions@))
    }
}

pub proof fn lemma_census_of_push(s: Seq<Instruction>, x: Instruction)
    ensures
        census_of(s.push(x)) == plus3(census_of(s), weight(x)),
{
    assert(s.push(x).drop_last() =~= s);
}

pub proof fn lemma_census_push(bs: Seq<BasicBlock>, b: BasicBlock)
    ensures
        census(bs.push(b)) == plus3(census(bs), census_of(b.instructions@)),
{
    assert(bs.push(b).drop_last() =~= bs);
}

/// Replacing block `i` trades its instructions' census for the new block's.
pub proof fn lemma_census_update(bs: Seq<BasicBlock>, i: int, b: BasicBlock)
    requires
        0 <= i < bs.len(),
    ensures
        plus3(census(bs.update(i, b)), census_of(bs[i].instructions@)) == plus3(
            census(bs),
            census_of(b.instructions@),
        ),
    decreases bs.len(),
{
    let u = bs.update(i, b);
    if i == bs.len() - 1 {
        assert(u.drop_last() =~= bs.drop_last());
    } else {
        assert(u.drop_last() =~= bs.drop_last().update(i, b));
        lemma_census_update(bs.drop_last(), i, b);
    }
}

/// Appending `x` to block `i` adds the weight of `x`.
pub proof fn lemma_census_append(bs: Seq<BasicBlock>, i: int, b: BasicBlock, x: Instruction)
    requires
        0 <= i < bs.len(),
        b.instructions@ == bs[i].instructions@.push(x),
    ensures
        census(bs.update(i, b)) == plus3(census(bs), weight(x)),
{
    lemma_census_update(bs, i, b);
    lemma_census_of_push(bs[i].instructions@, x);
}

/// Replacing block `i` by one with the same instructions keeps the census.
pub proof fn lemma_census_same(bs: Seq<BasicBlock>, i: int, b: BasicBlock)
    requires
        0 <= i < bs.len(),
        b.instructions@ == bs[i].instructions@,
    ensures
        census(bs.update(i, b)) == census(bs),
{
    lemma_census_update(bs, i, b);
}

} // verus!
