//! The early word-level IR: a flat list of instructions built from the
//! statements of a source program.
pub mod builder;
pub mod instruction;
pub mod source;
pub mod value;

use vstd::prelude::*;
use crate::wir::instruction::Instruction;

verus! {

pub struct WIRModule {
    pub instructions: Vec<Instruction>,
}

impl WIRModule {
    pub fn new() -> (r: Self)
        ensures
            r.instructions@.len() == 0,
    {
        Self { instructions: Vec::new() }
    }

    pub fn push(&mut self, instr: Instruction)
        ensures
            final(self).instructions@ == old(self).instructions@.push(instr),
    {
        self.instructions.push(instr);
    }

    pub fn get(&self) -> (r: &Vec<Instruction>)
        ensures
            r@ == self.instructions@,
    {
        &self.instructions
    }
}

} // verus!
