//! Relocatable objects: sections, symbols and the target identity.
use vstd::prelude::*;
use crate::target::{ObjectFormat, ObjectTarget, Target, target_object};
use crate::text::{push_decimal, push_quoted, quoted};

verus! {

#[derive(Clone, Copy, Debug, PartialEq, Eq, Structural)]
pub enum SectionKind {
    Text,
    Data,
    Bss,
    ReadOnlyData,
}

/// A section: its payload, and for BSS a count of zero bytes that take no file space.
#[derive(Debug)]
pub struct Section {
    pub name: String,
    pub kind: SectionKind,
    pub data: Vec<u8>,
    /// Additional zero-filled memory without file payload; only valid for BSS.
    pub zero_fill: u64,
    /// Zero (no constraint) or a power of two. ELF serializes zero as one.
    pub align: u64,
}

/// A section whose memory extent is well defined: only BSS reserves zero
/// bytes, BSS payload bytes are all zero, and the extent fits in 64 bits.
pub open spec fn section_sized(s: Section) -> bool {
    &&& (s.kind != SectionKind::Bss ==> s.zero_fill == 0)
    &&& (s.kind == SectionKind::Bss ==> forall|i: int| 0 <= i < s.data@.len() ==> s.data@[i] == 0)
    &&& s.data@.len() + s.zero_fill <= u64::MAX
}

/// Bytes the section occupies in the file.
pub open spec fn file_size_spec(s: Section) -> nat {
    if s.kind == SectionKind::Bss {
        0
    } else {
        s.data@.len()
    }
}

/// The error text of a section that has no well-defined memory extent.
pub open spec fn section_error(s: Section) -> Seq<char> {
    if s.kind != SectionKind::Bss && s.zero_fill != 0 {
        "section "@ + quoted(s.name@) + ": zero_fill is only valid for BSS"@
    } else if s.kind == SectionKind::Bss && exists|i: int| 0 <= i < s.data@.len() && s.data@[i] != 0 {
        "BSS section "@ + quoted(s.name@) + " has a nonzero initializer"@
    } else {
        "section "@ + quoted(s.name@) + ": memory size overflow"@
    }
}

fn section_message(prefix: &str, name: &String, suffix: &str) -> (r: String)
    ensures
        r@ == prefix@ + quoted(name@) + suffix@,
{
    let mut m = String::from_str(prefix);
    push_quoted(&mut m, name.as_str());
    m.append(suffix);
    m
}

impl Section {
    /// Logical memory extent: payload bytes plus reserved zero bytes.
    /// Legacy zero-valued BSS data remains accepted.
    pub fn memory_size(&self) -> (r: Result<u64, String>)
        ensures
            r is Ok <==> section_sized(*self),
            r matches Ok(n) ==> n == self.data@.len() + self.zero_fill,
            r matches Err(e) ==> e@ == section_error(*self),
    {
        if self.kind != SectionKind::Bss && self.zero_fill != 0 {
            return Err(section_message("section ", &self.name, ": zero_fill is only valid for BSS"));
        }
        if self.kind == SectionKind::Bss {
            let mut i: usize = 0;
            while i < self.data.len()
                invariant
                    0 <= i <= self.data@.len(),
                    self.kind == SectionKind::Bss,
                    forall|k: int| 0 <= k < i ==> self.data@[k] == 0,
                decreases self.data.len() - i,
            {
                if self.data[i] != 0 {
                    return Err(
                        section_message("BSS section ", &self.name, " has a nonzero initializer"),
                    );
                }
                i += 1;
            }
        }
        let len = self.data.len() as u64;
        match len.checked_add(self.zero_fill) {
            Some(n) => Ok(n),
            None => Err(section_message("section ", &self.name, ": memory size overflow")),
        }
    }

    /// Bytes the section occupies in the file: none for BSS.
    pub fn file_size(&self) -> (r: u64)
        ensures
            r == file_size_spec(*self),
    {
        if self.kind == SectionKind::Bss {
            0
        } else {
            self.data.len() as u64
        }
    }
}

#[derive(Clone, Copy, Debug, PartialEq, Eq, Structural)]
pub enum SymbolBinding {
    Local,
    Global,
    Weak,
}

#[derive(Clone, Copy, Debug, PartialEq, Eq, Structural)]
pub enum SymbolVisibility {
    Default,
    Hidden,
    Protected,
}

/// A symbol: defined in a section at `value` with `size` bytes, or undefined.
#[derive(Debug)]
pub struct ObjectSymbol {
    pub name: String,
    pub section_index: Option<usize>,
    pub value: u64,
    pub size: u64,
    pub binding: SymbolBinding,
    pub visibility: SymbolVisibility,
}

/// An object with an explicit target identity. Writers and link consumers
/// validate that identity.
#[derive(Debug)]
pub struct ObjectFile {
    pub target: ObjectTarget,
    pub sections: Vec<Section>,
    pub symbols: Vec<ObjectSymbol>,
}

impl ObjectFile {
    /// An AMD64 little-endian object in the requested format.
    pub fn new(format: ObjectFormat) -> (r: Self)
        ensures
            r.target == (ObjectTarget { format, ..target_object(Target::X86_64WhaleLinux) }),
            r.sections@.len() == 0,
            r.symbols@.len() == 0,
    {
        let t = Target::X86_64WhaleLinux.object_target();
        Self::with_target(ObjectTarget { format, ..t })
    }

    /// An empty object with the given identity.
    pub fn with_target(target: ObjectTarget) -> (r: Self)
        ensures
            r.target == target,
            r.sections@.len() == 0,
            r.symbols@.len() == 0,
    {
        Self { target, sections: Vec::new(), symbols: Vec::new() }
    }

    /// Append an empty section and return its index.
    pub fn add_section(&mut self, name: &str, kind: SectionKind, align: u64) -> (r: usize)
        requires
            old(self).sections@.len() < usize::MAX,
        ensures
            r == old(self).sections@.len(),
            final(self).sections@.len() == old(self).sections@.len() + 1,
            final(self).sections@.drop_last() == old(self).sections@,
            final(self).sections@[r as int].name@ == name@,
            final(self).sections@[r as int].kind == kind,
            final(self).sections@[r as int].data@.len() == 0,
            final(self).sections@[r as int].zero_fill == 0,
            final(self).sections@[r as int].align == align,
            final(self).target == old(self).target,
            final(self).symbols == old(self).symbols,
    {
        self.sections.push(
            Section { name: String::from_str(name), kind, data: Vec::new(), zero_fill: 0, align },
        );
        proof {
            assert(self.sections@.drop_last() =~= old(self).sections@);
        }
        self.sections.len() - 1
    }
}

} // verus!
