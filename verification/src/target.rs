//! Output target contracts, independent of the build host and code generation.
use vstd::prelude::*;
use vstd::string::*;
use crate::text::{dec_text, push_decimal, push_quoted, quoted};

verus! {

/// Byte order of an output target.
#[derive(Clone, Copy, Debug, PartialEq, Eq, Structural)]
pub enum Endian {
    Little,
    Big,
}

/// Pointer width and byte order that code for a target is laid out with.
#[derive(Clone, Copy, Debug, PartialEq, Eq, Structural)]
pub struct DataLayout {
    pub ptr_bits: u32,
    pub endian: Endian,
}

/// The layout of the one supported output target.
pub open spec fn amd64_layout() -> DataLayout {
    DataLayout { ptr_bits: 64, endian: Endian::Little }
}

impl DataLayout {
    /// The initial AMD64 output layout, regardless of the build host.
    pub fn default_64bit_le() -> (r: Self)
        ensures
            r == amd64_layout(),
    {
        Target::X86_64WhaleLinux.data_layout()
    }
}

#[derive(Clone, Copy, Debug, PartialEq, Eq, Structural)]
pub enum ObjectFormat {
    ELF64,
}

/// Machine identity is not a promise that an encoder exists for that machine.
#[derive(Clone, Copy, Debug, PartialEq, Eq, Structural)]
pub enum Machine {
    X86_64,
    AArch64,
    RiscV64,
}

/// Identity of an object file: format, machine, byte order and address width.
#[derive(Clone, Copy, Debug, PartialEq, Eq, Structural)]
pub struct ObjectTarget {
    pub format: ObjectFormat,
    pub machine: Machine,
    pub endian: Endian,
    pub address_bits: u32,
}

/// The object identity of the one supported output target.
pub open spec fn amd64_object_target() -> ObjectTarget {
    ObjectTarget {
        format: ObjectFormat::ELF64,
        machine: Machine::X86_64,
        endian: Endian::Little,
        address_bits: 64,
    }
}

/// ELF `e_machine` code of AMD64.
pub open spec fn em_x86_64() -> u16 {
    62
}

impl ObjectTarget {
    /// Reject unsupported combinations before interpreting relocation kinds or bytes.
    pub fn validate(self) -> (r: Result<(), TargetError>)
        ensures
            r is Ok <==> self == amd64_object_target(),
            r matches Err(e) ==> e == TargetError::UnsupportedObjectTarget(self),
    {
        if self == Target::X86_64WhaleLinux.object_target() {
            Ok(())
        } else {
            Err(TargetError::UnsupportedObjectTarget(self))
        }
    }

    /// Return an ELF machine code only for a supported ELF encoding contract.
    pub fn elf_machine(self) -> (r: Result<u16, TargetError>)
        ensures
            self == amd64_object_target() ==> r == Ok::<u16, TargetError>(em_x86_64()),
            self != amd64_object_target() ==> r == Err::<u16, TargetError>(
                TargetError::UnsupportedObjectTarget(self),
            ),
    {
        self.validate()?;
        match self.machine {
            Machine::X86_64 => Ok(62),
            _ => Err(TargetError::UnsupportedObjectTarget(self)),
        }
    }
}

/// A supported output target.
#[derive(Clone, Copy, Debug, PartialEq, Eq, Structural)]
pub enum Target {
    X86_64WhaleLinux,
}

/// The name under which a target is looked up.
pub open spec fn target_name(t: Target) -> Seq<char> {
    match t {
        Target::X86_64WhaleLinux => "x86_64-whale-linux"@,
    }
}

/// The data layout of a target.
pub open spec fn target_layout(t: Target) -> DataLayout {
    match t {
        Target::X86_64WhaleLinux => amd64_layout(),
    }
}

/// The object identity of a target.
pub open spec fn target_object(t: Target) -> ObjectTarget {
    match t {
        Target::X86_64WhaleLinux => amd64_object_target(),
    }
}

impl Target {
    /// Find the supported target with this name.
    pub fn lookup(name: &str) -> (r: Result<Self, TargetError>)
        ensures
            r matches Ok(t) ==> target_name(t) == name@,
            r is Ok <==> name@ == "x86_64-whale-linux"@,
            r matches Err(e) ==> e matches TargetError::UnsupportedTarget(n) && n@ == name@,
    {
        let wanted = String::from_str(name);
        let known = String::from_str(Target::X86_64WhaleLinux.name());
        if wanted == known {
            Ok(Target::X86_64WhaleLinux)
        } else {
            Err(TargetError::UnsupportedTarget(wanted))
        }
    }

    pub fn name(self) -> (r: &'static str)
        ensures
            r@ == target_name(self),
    {
        match self {
            Self::X86_64WhaleLinux => "x86_64-whale-linux",
        }
    }

    pub fn data_layout(self) -> (r: DataLayout)
        ensures
            r == target_layout(self),
    {
        match self {
            Self::X86_64WhaleLinux => DataLayout { ptr_bits: 64, endian: Endian::Little },
        }
    }

    pub fn object_target(self) -> (r: ObjectTarget)
        ensures
            r == target_object(self),
            r.address_bits == target_layout(self).ptr_bits,
            r.endian == target_layout(self).endian,
    {
        match self {
            Self::X86_64WhaleLinux => ObjectTarget {
                format: ObjectFormat::ELF64,
                machine: Machine::X86_64,
                endian: Endian::Little,
                address_bits: self.data_layout().ptr_bits,
            },
        }
    }

    /// Accept only the target's own data layout.
    pub fn validate_layout(self, actual: DataLayout) -> (r: Result<(), TargetError>)
        ensures
            r is Ok <==> actual == target_layout(self),
            r matches Err(e) ==> e == (TargetError::LayoutMismatch { target: self, actual }),
    {
        if actual == self.data_layout() {
            Ok(())
        } else {
            Err(TargetError::LayoutMismatch { target: self, actual })
        }
    }
}

#[derive(Clone, Debug)]
pub enum TargetError {
    UnsupportedTarget(String),
    LayoutMismatch { target: Target, actual: DataLayout },
    UnsupportedObjectTarget(ObjectTarget),
}

/// The debug form of a byte order.
pub open spec fn endian_text(e: Endian) -> Seq<char> {
    match e {
        Endian::Little => "Little"@,
        Endian::Big => "Big"@,
    }
}

/// The debug form of a machine.
pub open spec fn machine_text(m: Machine) -> Seq<char> {
    match m {
        Machine::X86_64 => "X86_64"@,
        Machine::AArch64 => "AArch64"@,
        Machine::RiscV64 => "RiscV64"@,
    }
}

/// The debug form of a data layout.
pub open spec fn layout_text(l: DataLayout) -> Seq<char> {
    "DataLayout { ptr_bits: "@ + dec_text(l.ptr_bits as nat) + ", endian: "@ + endian_text(l.endian) + " }"@
}

/// The debug form of an object identity.
pub open spec fn object_target_text(t: ObjectTarget) -> Seq<char> {
    "ObjectTarget { format: ELF64, machine: "@ + machine_text(t.machine) + ", endian: "@ + endian_text(t.endian)
        + ", address_bits: "@ + dec_text(t.address_bits as nat) + " }"@
}

/// The message of a target error.
pub open spec fn target_error_text(e: TargetError) -> Seq<char> {
    match e {
        TargetError::UnsupportedTarget(name) => "unsupported target "@ + quoted(name@) + "; supported targets: "@
            + target_name(Target::X86_64WhaleLinux),
        TargetError::LayoutMismatch { target, actual } => "data layout "@ + layout_text(actual)
            + " does not match target "@ + target_name(target) + " (expected "@ + layout_text(target_layout(target))
            + ")"@,
        TargetError::UnsupportedObjectTarget(t) => "unsupported object target "@ + object_target_text(t)
            + "; supported object target: "@ + object_target_text(amd64_object_target()),
    }
}

fn push_endian(out: &mut String, e: Endian)
    ensures
        final(out)@ == old(out)@ + endian_text(e),
{
    match e {
        Endian::Little => out.append("Little"),
        Endian::Big => out.append("Big"),
    }
}

fn push_layout(out: &mut String, l: DataLayout)
    ensures
        final(out)@ == old(out)@ + layout_text(l),
{
    let ghost start = old(out)@;
    out.append("DataLayout { ptr_bits: ");
    push_decimal(out, l.ptr_bits as u128);
    out.append(", endian: ");
    push_endian(out, l.endian);
    out.append(" }");
    proof {
        assert(out@ =~= start + layout_text(l));
    }
}

fn push_object_target(out: &mut String, t: ObjectTarget)
    ensures
        final(out)@ == old(out)@ + object_target_text(t),
{
    let ghost start = old(out)@;
    out.append("ObjectTarget { format: ELF64, machine: ");
    match t.machine {
        Machine::X86_64 => out.append("X86_64"),
        Machine::AArch64 => out.append("AArch64"),
        Machine::RiscV64 => out.append("RiscV64"),
    }
    out.append(", endian: ");
    push_endian(out, t.endian);
    out.append(", address_bits: ");
    push_decimal(out, t.address_bits as u128);
    out.append(" }");
    proof {
        assert(out@ =~= start + object_target_text(t));
    }
}

impl TargetError {
    /// The message of the error, as it is displayed.
    pub fn to_string(&self) -> (r: String)
        ensures
            r@ == target_error_text(*self),
    {
        let mut out = String::new();
        match self {
            TargetError::UnsupportedTarget(name) => {
                out.append("unsupported target ");
                push_quoted(&mut out, name.as_str());
                out.append("; supported targets: ");
                out.append(Target::X86_64WhaleLinux.name());
            },
            TargetError::LayoutMismatch { target, actual } => {
                out.append("data layout ");
                push_layout(&mut out, *actual);
                out.append(" does not match target ");
                out.append(target.name());
                out.append(" (expected ");
                push_layout(&mut out, target.data_layout());
                out.append(")");
            },
            TargetError::UnsupportedObjectTarget(t) => {
                out.append("unsupported object target ");
                push_object_target(&mut out, *t);
                out.append("; supported object target: ");
                push_object_target(&mut out, Target::X86_64WhaleLinux.object_target());
            },
        }
        proof {
            assert(out@ =~= target_error_text(*self));
        }
        out
    }
}

} // verus!
