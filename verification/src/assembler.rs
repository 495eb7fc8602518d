//! What the assembler produces: sections with relocations, and symbols.
use vstd::prelude::*;

verus! {

/// Assembled sections and symbols.
pub struct AssemblerOutput {
    pub sections: Vec<AsmSection>,
    pub symbols: Vec<AsmSymbol>,
}

pub struct AsmSection {
    pub name: String,
    pub data: Vec<u8>,
    /// Unbacked zero storage, used by .bss instead of allocating bytes.
    pub zero_fill: u64,
    pub relocs: Vec<Relocation>,
}

pub struct AsmSymbol {
    pub name: String,
    pub section_index: Option<usize>,
    pub offset: u64,
    pub is_global: bool,
}

#[derive(Debug)]
pub struct Relocation {
    pub offset: usize,
    pub symbol: String,
    pub kind: RelocKind,
    pub addend: i64,
}

#[derive(Debug, Clone, Copy)]
pub enum RelocKind {
    Absolute64,
    Absolute32,
    /// A PC-relative data/address reference, independent of symbol definition.
    Relative32,
    /// A near control transfer; an undefined target may require a PLT entry.
    Branch32,
    Relative8,
}

} // verus!
