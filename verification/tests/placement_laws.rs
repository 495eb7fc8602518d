use whale::ir::{layout_of, DataLayout, Endian, FloatBits, LayoutError, Machine, ObjectTarget, Target, TargetError, Type};
use whale::linker::layout::Layout;
use whale::linker::symbol_table::{SymbolKey, SymbolTable};
use whale::object::{ObjectFile, ObjectSymbol, Section, SectionKind, SymbolBinding, SymbolVisibility};
use whale::target::ObjectFormat;

#[test]
fn sizes_are_multiples_of_alignment_and_arrays_use_the_size_as_stride() {
    let cases = [
        Type::Struct(vec![Type::U8, Type::U32, Type::U8]),
        Type::Tuple(vec![Type::U16, Type::U8]),
        Type::Array(Box::new(Type::Struct(vec![Type::U64, Type::U8])), 3),
        Type::Struct(vec![]),
        Type::I128,
    ];
    for ty in cases {
        let layout = layout_of(&ty, Target::X86_64WhaleLinux).unwrap();
        assert!(layout.align >= 1);
        assert_eq!(layout.size % layout.align as u64, 0, "{ty:?}");
    }
    let record = Type::Struct(vec![Type::U8, Type::U32, Type::U8]);
    let layout = layout_of(&record, Target::X86_64WhaleLinux).unwrap();
    assert_eq!((layout.size, layout.align), (12, 4));
    assert_eq!(layout.field_offsets, [0, 4, 8]);
    let array = layout_of(&Type::Array(Box::new(record), 5), Target::X86_64WhaleLinux).unwrap();
    assert_eq!(array.element_stride, Some(12));
    assert_eq!(array.size, 60);
}

#[test]
fn fields_never_overlap_and_start_aligned() {
    let fields = vec![Type::U8, Type::U16, Type::U8, Type::U64, Type::Bool, Type::U32];
    let sizes = [1u64, 2, 1, 8, 1, 4];
    let layout = layout_of(&Type::Struct(fields), Target::X86_64WhaleLinux).unwrap();
    assert_eq!(layout.field_offsets, [0, 2, 4, 8, 16, 20]);
    for i in 0..sizes.len() {
        assert_eq!(layout.field_offsets[i] % sizes[i], 0);
        assert!(layout.field_offsets[i] + sizes[i] <= layout.size);
        if i + 1 < sizes.len() {
            assert!(layout.field_offsets[i] + sizes[i] <= layout.field_offsets[i + 1]);
        }
    }
    assert_eq!(layout.size, 24);
}

#[test]
fn placed_sections_are_aligned_and_disjoint() {
    let mut a = ObjectFile::new(ObjectFormat::ELF64);
    let t = a.add_section(".text", SectionKind::Text, 4);
    a.sections[t].data = vec![0x90; 5];
    let b = a.add_section(".bss", SectionKind::Bss, 64);
    a.sections[b].zero_fill = 7;
    let d = a.add_section(".data", SectionKind::Data, 8);
    a.sections[d].data = vec![1; 9];
    let mut c = ObjectFile::new(ObjectFormat::ELF64);
    let r = c.add_section(".rodata", SectionKind::ReadOnlyData, 2);
    c.sections[r].data = vec![2; 3];
    let layout = Layout::compute(&[a, c], 0x2001).unwrap();
    let ps = &layout.sections;
    assert_eq!(ps.len(), 4);
    for (i, p) in ps.iter().enumerate() {
        assert_eq!(p.memory_address % p.align, 0);
        assert_eq!(p.file_offset % p.align, 0);
        assert!(p.memory_address >= 0x2001);
        assert!(p.memory_address + p.memory_size <= 0x2001 + layout.memory_size);
        for q in &ps[i + 1..] {
            assert!(p.memory_address + p.memory_size <= q.memory_address);
            if p.kind != SectionKind::Bss && q.kind != SectionKind::Bss {
                assert!(p.file_offset + p.file_size <= q.file_offset);
            }
        }
    }
    let addresses: Vec<u64> = ps.iter().map(|p| p.memory_address).collect();
    assert_eq!(addresses, [0x2004, 0x2040, 0x2048, 0x2052]);
    assert_eq!((layout.file_size, layout.memory_size), (0x15, 0x54));
}

#[test]
fn memory_size_adds_reserved_zero_bytes_only_for_bss() {
    let bss = Section { name: ".bss".into(), kind: SectionKind::Bss, data: vec![0, 0, 0], zero_fill: 5, align: 1 };
    assert_eq!(bss.memory_size(), Ok(8));
    assert_eq!(bss.file_size(), 0);
    let text = Section { name: ".text".into(), kind: SectionKind::Text, data: vec![1, 2, 3], zero_fill: 5, align: 1 };
    assert!(text.memory_size().is_err());
    let data = Section { name: ".data".into(), kind: SectionKind::Data, data: vec![1, 2, 3], zero_fill: 0, align: 1 };
    assert_eq!((data.memory_size(), data.file_size()), (Ok(3), 3));
    let dirty = Section { name: ".bss".into(), kind: SectionKind::Bss, data: vec![0, 9], zero_fill: 0, align: 1 };
    assert!(dirty.memory_size().is_err());
}

fn defining(name: &str, binding: SymbolBinding) -> ObjectFile {
    let mut object = ObjectFile::new(ObjectFormat::ELF64);
    object.add_section(".text", SectionKind::Text, 1);
    object.sections[0].data = vec![0xc3];
    object.symbols.push(ObjectSymbol {
        name: name.into(),
        section_index: Some(0),
        value: 0,
        size: 1,
        binding,
        visibility: SymbolVisibility::Default,
    });
    object
}

#[test]
fn every_resolved_symbol_sits_under_its_own_key() {
    let objects = [
        defining("f", SymbolBinding::Local),
        defining("f", SymbolBinding::Global),
        defining("f", SymbolBinding::Local),
        defining("g", SymbolBinding::Weak),
    ];
    let mut table = SymbolTable::new();
    table.resolve(&objects).unwrap();
    assert_eq!(table.symbols.len(), 4);
    for (key, symbol) in &table.symbols {
        match key {
            SymbolKey::Local { object_index, name } => {
                assert_eq!(symbol.object_index, Some(*object_index));
                assert_eq!(&symbol.name, name);
                assert_eq!(symbol.binding, SymbolBinding::Local);
            },
            SymbolKey::Global(name) => {
                assert_eq!(&symbol.name, name);
                assert_ne!(symbol.binding, SymbolBinding::Local);
            },
        }
    }
    let strong_twice = [defining("h", SymbolBinding::Global), defining("h", SymbolBinding::Global)];
    assert!(table.resolve(&strong_twice).is_err());
    assert!(table.symbols.is_empty());
    let weak_then_strong = [defining("h", SymbolBinding::Weak), defining("h", SymbolBinding::Global)];
    assert!(table.resolve(&weak_then_strong).is_err());
    let strong_then_weak = [defining("h", SymbolBinding::Global), defining("h", SymbolBinding::Weak)];
    table.resolve(&strong_then_weak).unwrap();
    assert_eq!(table.symbols[0].1.object_index, Some(1));
}

#[test]
fn float_text_round_trips_for_every_width() {
    for f in [FloatBits::F16(0x8000), FloatBits::F32(0x7fc0_0001), FloatBits::F64(0x3ff0_0000_0000_0000)] {
        let text = f.to_string();
        assert_eq!(FloatBits::parse(f.width(), &text), Ok(f));
    }
    assert_eq!(FloatBits::F32(0x8000_0000).to_string(), "0x80000000");
    assert!(FloatBits::parse(32, "0x8000").is_err());
    assert!(FloatBits::parse(24, "0x00000000").is_err());
    assert!(FloatBits::parse(16, "8000").is_err());
}

#[test]
fn memory_size_errors_name_the_section_and_the_rule() {
    let data = Section { name: "data".into(), kind: SectionKind::Data, data: vec![1], zero_fill: 2, align: 1 };
    assert_eq!(data.memory_size().unwrap_err(), "section \"data\": zero_fill is only valid for BSS");
    let bss = Section { name: "bss".into(), kind: SectionKind::Bss, data: vec![0, 7], zero_fill: 0, align: 1 };
    assert_eq!(bss.memory_size().unwrap_err(), "BSS section \"bss\" has a nonzero initializer");
    let huge = Section { name: "big".into(), kind: SectionKind::Bss, data: vec![0], zero_fill: u64::MAX, align: 1 };
    assert_eq!(huge.memory_size().unwrap_err(), "section \"big\": memory size overflow");
}

#[test]
fn error_texts_name_what_went_wrong() {
    assert_eq!(LayoutError::Void.to_string(), "void has no storage layout");
    assert_eq!(LayoutError::DepthLimit.to_string(), "type layout nesting limit exceeded");
    let unknown = Target::lookup("tab\there\"").unwrap_err();
    assert_eq!(
        unknown.to_string(),
        "unsupported target \"tab\\there\\\"\"; supported targets: x86_64-whale-linux"
    );
    let mismatch = Target::X86_64WhaleLinux
        .validate_layout(DataLayout { ptr_bits: 32, endian: Endian::Big })
        .unwrap_err();
    assert_eq!(
        mismatch.to_string(),
        "data layout DataLayout { ptr_bits: 32, endian: Big } does not match target x86_64-whale-linux \
         (expected DataLayout { ptr_bits: 64, endian: Little })"
    );
    let arm = ObjectTarget { format: ObjectFormat::ELF64, machine: Machine::AArch64, endian: Endian::Little, address_bits: 64 };
    assert_eq!(
        TargetError::UnsupportedObjectTarget(arm).to_string(),
        format!("unsupported object target {arm:?}; supported object target: {:?}", Target::X86_64WhaleLinux.object_target())
    );
    assert_eq!(format!("{:?}", DataLayout { ptr_bits: 32, endian: Endian::Big }), "DataLayout { ptr_bits: 32, endian: Big }");
}

#[test]
fn placement_errors_name_the_input_and_section() {
    let mut obj = ObjectFile::new(ObjectFormat::ELF64);
    obj.add_section("odd\n", SectionKind::Data, 3);
    let err = Layout::compute(&[obj], 0).unwrap_err();
    assert_eq!(err, format!("input 0 section 0 {:?}: alignment must be zero or a power of two", "odd\n"));
}
