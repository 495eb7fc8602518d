//! Deterministic placement of input sections in memory and in the file.
use vstd::prelude::*;
use crate::object::{ObjectFile, Section, SectionKind, file_size_spec, section_sized};
use crate::target::amd64_object_target;
use crate::text::{dec_text, push_decimal, push_quoted, quoted};

verus! {

/// Where one input section lands.
#[derive(Clone, Copy, Debug, PartialEq, Eq, Structural)]
pub struct SectionPlacement {
    pub object_index: usize,
    pub section_index: usize,
    pub kind: SectionKind,
    pub align: u64,
    pub file_offset: u64,
    pub memory_address: u64,
    pub file_size: u64,
    pub memory_size: u64,
}

#[derive(Debug)]
pub struct Layout {
    /// Memory addresses indexed by input object and section.
    pub section_offsets: Vec<Vec<u64>>,
    /// Logical sizes in input object/section order.
    pub section_sizes: Vec<u64>,
    pub sections: Vec<SectionPlacement>,
    pub base_address: u64,
    /// Payload region sizes, excluding executable headers and segment construction.
    pub file_size: u64,
    pub memory_size: u64,
}

/// The first multiple of `align` at or after `value`.
pub open spec fn align_up_spec(value: int, align: int) -> int {
    if value % align == 0 {
        value
    } else {
        value + (align - value % align)
    }
}

/// `a` is a power of two.
pub open spec fn is_power_of_two_u64(a: u64) -> bool {
    exists|k: u64| k < 64 && a == #[trigger] (1u64 << k)
}

/// A section's alignment, with zero meaning one.
pub open spec fn effective_align(s: Section) -> u64 {
    if s.align == 0 {
        1
    } else {
        s.align
    }
}

/// The placement of section `i` of object `o` after the memory cursor `mem`
/// and the file cursor `file`, with the cursors after it; `None` when its
/// alignment is invalid, its extent is invalid, or a position overflows.
/// BSS consumes memory but never advances the file cursor.
pub open spec fn place(mem: int, file: int, s: Section, o: int, i: int) -> Option<(SectionPlacement, int, int)> {
    let a = effective_align(s);
    let msize = s.data@.len() + s.zero_fill;
    let fsize = file_size_spec(s);
    let addr = align_up_spec(mem, a as int);
    let fo = align_up_spec(file, a as int);
    if !is_power_of_two_u64(a) || !section_sized(s) || addr + msize > u64::MAX || fo > u64::MAX || (
    s.kind != SectionKind::Bss && fo + fsize > u64::MAX) {
        None
    } else {
        Some(
            (
                SectionPlacement {
                    object_index: o as usize,
                    section_index: i as usize,
                    kind: s.kind,
                    align: a,
                    file_offset: fo as u64,
                    memory_address: addr as u64,
                    file_size: fsize as u64,
                    memory_size: msize as u64,
                },
                addr + msize,
                if s.kind != SectionKind::Bss {
                    fo + fsize
                } else {
                    file
                },
            ),
        )
    }
}

/// The first `n` sections of object `o`, placed from the given cursors.
pub open spec fn place_sections(secs: Seq<Section>, o: int, n: int, mem: int, file: int) -> Option<
    (Seq<SectionPlacement>, int, int),
>
    decreases n,
{
    if n <= 0 {
        Some((seq![], mem, file))
    } else {
        match place_sections(secs, o, n - 1, mem, file) {
            None => None,
            Some((ps, m, f)) => match place(m, f, secs[n - 1], o, n - 1) {
                None => None,
                Some((p, m2, f2)) => Some((ps.push(p), m2, f2)),
            },
        }
    }
}

/// The addresses of a list of placements.
pub open spec fn addresses(ps: Seq<SectionPlacement>) -> Seq<u64> {
    ps.map_values(|p: SectionPlacement| p.memory_address)
}

/// The first `n` objects placed from `base`: every placement in order, each
/// object's addresses, and the final memory and file cursors. `None` when an
/// object's target is unsupported or a section cannot be placed.
pub open spec fn place_objects(objs: Seq<ObjectFile>, n: int, base: int) -> Option<
    (Seq<SectionPlacement>, Seq<Seq<u64>>, int, int),
>
    decreases n,
{
    if n <= 0 {
        Some((seq![], seq![], base, 0))
    } else {
        match place_objects(objs, n - 1, base) {
            None => None,
            Some((ps, offs, m, f)) => if objs[n - 1].target != amd64_object_target() {
                None
            } else {
                match place_sections(objs[n - 1].sections@, n - 1, objs[n - 1].sections@.len() as int, m, f) {
                    None => None,
                    Some((qs, m2, f2)) => Some((ps + qs, offs.push(addresses(qs)), m2, f2)),
                }
            },
        }
    }
}

/// Placements in input order inside the memory range from `base` to `m` and
/// the file range before `f`: each at an address and a file offset that its
/// alignment divides, none overlapping an earlier one in memory, and no file
/// payload overlapping an earlier one.
pub open spec fn placed_in_order(ps: Seq<SectionPlacement>, base: int, m: int, f: int) -> bool {
    &&& forall|i: int|
        0 <= i < ps.len() ==> {
            &&& base <= (#[trigger] ps[i]).memory_address
            &&& ps[i].memory_address + ps[i].memory_size <= m
            &&& ps[i].align >= 1
            &&& ps[i].memory_address as int % (ps[i].align as int) == 0
            &&& ps[i].file_offset as int % (ps[i].align as int) == 0
            &&& (ps[i].kind != SectionKind::Bss ==> ps[i].file_offset + ps[i].file_size <= f)
        }
    &&& forall|i: int, j: int|
        #![trigger ps[i], ps[j]]
        0 <= i < j < ps.len() ==> ps[i].memory_address + ps[i].memory_size <= ps[j].memory_address
    &&& forall|i: int, j: int|
        #![trigger ps[i], ps[j]]
        0 <= i < j < ps.len() && ps[i].kind != SectionKind::Bss && ps[j].kind != SectionKind::Bss
            ==> ps[i].file_offset + ps[i].file_size <= ps[j].file_offset
}

proof fn lemma_shift_positive(k: u64)
    requires
        k < 64,
    ensures
        (1u64 << k) >= 1,
{
    assert((1u64 << k) >= 1) by (bit_vector)
        requires
            k < 64,
    ;
}

proof fn lemma_align_up(v: int, a: int)
    requires
        v >= 0,
        a >= 1,
    ensures
        align_up_spec(v, a) >= v,
        align_up_spec(v, a) % a == 0,
{
    if v % a != 0 {
        assert((v + (a - v % a)) % a == 0) by (nonlinear_arith)
            requires
                v >= 0,
                a >= 1,
        {
            vstd::arithmetic::div_mod::lemma_fundamental_div_mod(v, a);
            vstd::arithmetic::div_mod::lemma_mod_multiples_basic(v / a + 1, a);
            assert(v + (a - v % a) == (v / a + 1) * a);
        }
    }
}

proof fn lemma_place_step(
    ps: Seq<SectionPlacement>,
    base: int,
    mem: int,
    file: int,
    s: Section,
    o: int,
    i: int,
)
    requires
        placed_in_order(ps, base, mem, file),
        0 <= base <= mem,
        0 <= file,
        place(mem, file, s, o, i) is Some,
    ensures
        ({
            let (p, m2, f2) = place(mem, file, s, o, i).unwrap();
            placed_in_order(ps.push(p), base, m2, f2) && mem <= m2 && file <= f2
        }),
{
    let a = effective_align(s);
    let k = choose|k: u64| k < 64 && a == #[trigger] (1u64 << k);
    lemma_shift_positive(k);
    lemma_align_up(mem, a as int);
    lemma_align_up(file, a as int);
    let (p, m2, f2) = place(mem, file, s, o, i).unwrap();
    let qs = ps.push(p);
    assert forall|x: int, y: int|
        #![trigger qs[x], qs[y]]
        0 <= x < y < qs.len() implies qs[x].memory_address + qs[x].memory_size <= qs[y].memory_address by {
        if y == ps.len() {
            assert(qs[x] == ps[x]);
        } else {
            assert(qs[x] == ps[x] && qs[y] == ps[y]);
        }
    }
    assert forall|x: int, y: int|
        #![trigger qs[x], qs[y]]
        0 <= x < y < qs.len() && qs[x].kind != SectionKind::Bss && qs[y].kind != SectionKind::Bss
            implies qs[x].file_offset + qs[x].file_size <= qs[y].file_offset by {
        if y == ps.len() {
            assert(qs[x] == ps[x]);
        } else {
            assert(qs[x] == ps[x] && qs[y] == ps[y]);
        }
    }
    assert forall|x: int| 0 <= x < qs.len() implies {
        &&& base <= (#[trigger] qs[x]).memory_address
        &&& qs[x].memory_address + qs[x].memory_size <= m2
        &&& qs[x].align >= 1
        &&& qs[x].memory_address as int % (qs[x].align as int) == 0
        &&& qs[x].file_offset as int % (qs[x].align as int) == 0
        &&& (qs[x].kind != SectionKind::Bss ==> qs[x].file_offset + qs[x].file_size <= f2)
    } by {
        if x < ps.len() {
            assert(qs[x] == ps[x]);
        }
    }
}

proof fn lemma_sections_in_order(
    ps: Seq<SectionPlacement>,
    base: int,
    secs: Seq<Section>,
    o: int,
    n: int,
    mem: int,
    file: int,
)
    requires
        placed_in_order(ps, base, mem, file),
        0 <= base <= mem,
        0 <= file,
        place_sections(secs, o, n, mem, file) is Some,
    ensures
        ({
            let (qs, m2, f2) = place_sections(secs, o, n, mem, file).unwrap();
            placed_in_order(ps + qs, base, m2, f2) && mem <= m2 && file <= f2
        }),
    decreases n,
{
    if n <= 0 {
        assert(ps + seq![] =~= ps);
    } else {
        lemma_sections_in_order(ps, base, secs, o, n - 1, mem, file);
        let (qs, m1, f1) = place_sections(secs, o, n - 1, mem, file).unwrap();
        lemma_place_step(ps + qs, base, m1, f1, secs[n - 1], o, n - 1);
        let (p, m2, f2) = place(m1, f1, secs[n - 1], o, n - 1).unwrap();
        assert(ps + qs.push(p) =~= (ps + qs).push(p));
    }
}

/// Layout law: input sections land in input order, each at a memory address
/// and a file offset that its alignment divides, inside the range from the
/// base address to the end of memory; no two overlap in memory, and no two
/// file payloads overlap, since BSS takes memory but no file space.
pub proof fn lemma_layout_in_order(objs: Seq<ObjectFile>, base: int)
    requires
        0 <= base,
        place_objects(objs, objs.len() as int, base) is Some,
    ensures
        ({
            let (ps, offs, m, f) = place_objects(objs, objs.len() as int, base).unwrap();
            placed_in_order(ps, base, m, f)
        }),
{
    lemma_objects_in_order(objs, objs.len() as int, base);
}

proof fn lemma_objects_in_order(objs: Seq<ObjectFile>, n: int, base: int)
    requires
        0 <= base,
        place_objects(objs, n, base) is Some,
    ensures
        ({
            let (ps, offs, m, f) = place_objects(objs, n, base).unwrap();
            placed_in_order(ps, base, m, f) && base <= m && 0 <= f
        }),
    decreases n,
{
    if n > 0 {
        lemma_objects_in_order(objs, n - 1, base);
        let (ps, offs, m, f) = place_objects(objs, n - 1, base).unwrap();
        let secs = objs[n - 1].sections@;
        lemma_sections_in_order(ps, base, secs, n - 1, secs.len() as int, m, f);
    }
}

proof fn lemma_sections_stay_failed(secs: Seq<Section>, o: int, n: int, m: int, mem: int, file: int)
    requires
        0 <= n <= m,
        place_sections(secs, o, n, mem, file) is None,
    ensures
        place_sections(secs, o, m, mem, file) is None,
    decreases m,
{
    if m > n {
        lemma_sections_stay_failed(secs, o, n, m - 1, mem, file);
    }
}

proof fn lemma_objects_stay_failed(objs: Seq<ObjectFile>, k: int, m: int, base: int)
    requires
        0 <= k <= m,
        place_objects(objs, k, base) is None,
    ensures
        place_objects(objs, m, base) is None,
    decreases m,
{
    if m > k {
        lemma_objects_stay_failed(objs, k, m - 1, base);
    }
}

/// A section that cannot be placed makes the whole layout fail.
proof fn lemma_section_fails(
    objs: Seq<ObjectFile>,
    o: int,
    i: int,
    base: int,
    start: (Seq<SectionPlacement>, Seq<Seq<u64>>, int, int),
    prefix: (Seq<SectionPlacement>, int, int),
)
    requires
        0 <= o < objs.len(),
        0 <= i < objs[o].sections@.len(),
        place_objects(objs, o, base) == Some(start),
        objs[o].target == amd64_object_target(),
        place_sections(objs[o].sections@, o, i, start.2, start.3) == Some(prefix),
        place(prefix.1, prefix.2, objs[o].sections@[i], o, i) is None,
    ensures
        place_objects(objs, objs.len() as int, base) is None,
{
    let secs = objs[o].sections@;
    lemma_sections_stay_failed(secs, o, i + 1, secs.len() as int, start.2, start.3);
    assert(place_objects(objs, o + 1, base) is None);
    lemma_objects_stay_failed(objs, o + 1, objs.len() as int, base);
}

fn power_of_two_u64(a: u64) -> (r: bool)
    ensures
        r == is_power_of_two_u64(a),
{
    let mut k: u64 = 0;
    while k < 64
        invariant
            0 <= k <= 64,
            forall|j: u64| j < k ==> a != #[trigger] (1u64 << j),
        decreases 64 - k,
    {
        if a == (1u64 << k) {
            return true;
        }
        k += 1;
    }
    false
}

fn align_up(value: u64, align: u64) -> (r: Option<u64>)
    requires
        align > 0,
    ensures
        align_up_spec(value as int, align as int) <= u64::MAX ==> r == Some(
            align_up_spec(value as int, align as int) as u64,
        ),
        align_up_spec(value as int, align as int) > u64::MAX ==> r is None,
{
    let rem = value % align;
    if rem == 0 {
        Some(value)
    } else {
        value.checked_add(align - rem)
    }
}

/// The message of a placement failure: which input, which section, and why.
fn context(object_index: usize, section_index: usize, name: &String, what: &str) -> (r: String)
    ensures
        r@ == "input "@ + dec_text(object_index as nat) + " section "@ + dec_text(section_index as nat) + " "@
            + quoted(name@) + ": "@ + what@,
{
    let mut m = String::from_str("input ");
    push_decimal(&mut m, object_index as u128);
    m.append(" section ");
    push_decimal(&mut m, section_index as u128);
    m.append(" ");
    push_quoted(&mut m, name.as_str());
    m.append(": ");
    m.append(what);
    proof {
        assert(m@ =~= "input "@ + dec_text(object_index as nat) + " section "@ + dec_text(section_index as nat)
            + " "@ + quoted(name@) + ": "@ + what@);
    }
    m
}

impl Layout {
    /// Compute deterministic section placement. Zero object alignment means one.
    /// BSS consumes memory but never advances the file cursor.
    /// ELF program headers and load-segment permissions are a later writer step.
    pub fn compute(objects: &[ObjectFile], base_address: u64) -> (r: Result<Self, String>)
        ensures
            r is Ok <==> place_objects(objects@, objects@.len() as int, base_address as int) is Some,
            r matches Ok(l) ==> {
                let (ps, offs, m, f) = place_objects(
                    objects@,
                    objects@.len() as int,
                    base_address as int,
                ).unwrap();
                &&& l.sections@ == ps
                &&& l.section_offsets@.map_values(|v: Vec<u64>| v@) == offs
                &&& l.section_sizes@ == ps.map_values(|p: SectionPlacement| p.memory_size)
                &&& l.base_address == base_address
                &&& l.file_size == f
                &&& l.memory_size == m - base_address
            },
    {
        let mut sections: Vec<SectionPlacement> = Vec::new();
        let mut section_offsets: Vec<Vec<u64>> = Vec::new();
        let mut section_sizes: Vec<u64> = Vec::new();
        let mut memory_end: u64 = base_address;
        let mut file_size: u64 = 0;
        let ghost base = base_address as int;
        assert(section_offsets@.map_values(|v: Vec<u64>| v@) =~= Seq::<Seq<u64>>::empty());
        assert(section_sizes@ =~= sections@.map_values(|p: SectionPlacement| p.memory_size));
        let mut o: usize = 0;
        while o < objects.len()
            invariant
                0 <= o <= objects@.len(),
                base == base_address as int,
                base_address <= memory_end,
                place_objects(objects@, o as int, base) == Some(
                    (
                        sections@,
                        section_offsets@.map_values(|v: Vec<u64>| v@),
                        memory_end as int,
                        file_size as int,
                    ),
                ),
                section_sizes@ == sections@.map_values(|p: SectionPlacement| p.memory_size),
            decreases objects.len() - o,
        {
            let obj = &objects[o];
            if let Err(e) = obj.target.validate() {
                proof {
                    assert(place_objects(objects@, o + 1, base) is None);
                    lemma_objects_stay_failed(objects@, o + 1, objects@.len() as int, base);
                }
                let mut m = String::from_str("link input ");
                push_decimal(&mut m, o as u128);
                m.append(": ");
                m.append(e.to_string().as_str());
                return Err(m);
            }
            let ghost start = (
                sections@,
                section_offsets@.map_values(|v: Vec<u64>| v@),
                memory_end as int,
                file_size as int,
            );
            let secs = &obj.sections;
            let mut placed: Vec<SectionPlacement> = Vec::new();
            let mut offsets: Vec<u64> = Vec::new();
            let mut i: usize = 0;
            while i < secs.len()
                invariant
                    0 <= o < objects@.len(),
                    base == base_address as int,
                    *secs == objects@[o as int].sections,
                    objects@[o as int].target == amd64_object_target(),
                    place_objects(objects@, o as int, base) == Some(start),
                    start.2 >= base,
                    0 <= i <= secs@.len(),
                    base_address <= memory_end,
                    place_sections(secs@, o as int, i as int, start.2, start.3) == Some(
                        (placed@, memory_end as int, file_size as int),
                    ),
                    offsets@ == addresses(placed@),
                decreases secs.len() - i,
            {
                let sec = &secs[i];
                let ghost prefix = (placed@, memory_end as int, file_size as int);
                let ghost spec_step = place(memory_end as int, file_size as int, *sec, o as int, i as int);
                let align = if sec.align == 0 {
                    1
                } else {
                    sec.align
                };
                if !power_of_two_u64(align) {
                    proof {
                        lemma_section_fails(objects@, o as int, i as int, base, start, prefix);
                    }
                    return Err(context(o, i, &sec.name, "alignment must be zero or a power of two"));
                }
                let memory_size = match sec.memory_size() {
                    Ok(n) => n,
                    Err(e) => {
                        proof {
                            lemma_section_fails(objects@, o as int, i as int, base, start, prefix);
                        }
                        return Err(e);
                    },
                };
                let sec_file_size = sec.file_size();
                let memory_address = match align_up(memory_end, align) {
                    Some(a) => a,
                    None => {
                        proof {
                            lemma_section_fails(objects@, o as int, i as int, base, start, prefix);
                        }
                        return Err(context(o, i, &sec.name, "memory alignment overflow"));
                    },
                };
                let new_end = match memory_address.checked_add(memory_size) {
                    Some(e) => e,
                    None => {
                        proof {
                            lemma_section_fails(objects@, o as int, i as int, base, start, prefix);
                        }
                        return Err(context(o, i, &sec.name, "memory size overflow"));
                    },
                };
                let file_offset = match align_up(file_size, align) {
                    Some(a) => a,
                    None => {
                        proof {
                            lemma_section_fails(objects@, o as int, i as int, base, start, prefix);
                        }
                        return Err(context(o, i, &sec.name, "file alignment overflow"));
                    },
                };
                let new_file = if sec.kind != SectionKind::Bss {
                    match file_offset.checked_add(sec_file_size) {
                        Some(e) => e,
                        None => {
                            proof {
                                lemma_section_fails(objects@, o as int, i as int, base, start, prefix);
                            }
                            return Err(context(o, i, &sec.name, "file size overflow"));
                        },
                    }
                } else {
                    file_size
                };
                let placement = SectionPlacement {
                    object_index: o,
                    section_index: i,
                    kind: sec.kind,
                    align,
                    file_offset,
                    memory_address,
                    file_size: sec_file_size,
                    memory_size,
                };
                assert(spec_step == Some((placement, new_end as int, new_file as int)));
                memory_end = new_end;
                file_size = new_file;
                placed.push(placement);
                offsets.push(memory_address);
                proof {
                    assert(offsets@ =~= addresses(placed@));
                }
                i += 1;
            }
            proof {
                assert(place_objects(objects@, o + 1, base) == Some(
                    (start.0 + placed@, start.1.push(addresses(placed@)), memory_end as int, file_size as int),
                ));
            }
            let ghost before_sections = sections@;
            let ghost before_offsets = section_offsets@;
            let mut k: usize = 0;
            while k < placed.len()
                invariant
                    0 <= k <= placed@.len(),
                    sections@ == before_sections + placed@.take(k as int),
                    section_sizes@ == sections@.map_values(|p: SectionPlacement| p.memory_size),
                    section_offsets@ == before_offsets,
                decreases placed.len() - k,
            {
                sections.push(placed[k]);
                section_sizes.push(placed[k].memory_size);
                proof {
                    assert(placed@.take(k + 1) =~= placed@.take(k as int).push(placed@[k as int]));
                    assert(section_sizes@ =~= sections@.map_values(|p: SectionPlacement| p.memory_size));
                }
                k += 1;
            }
            section_offsets.push(offsets);
            proof {
                assert(placed@.take(placed@.len() as int) =~= placed@);
                assert(section_offsets@.map_values(|v: Vec<u64>| v@) =~= start.1.push(addresses(placed@)));
                assert(section_sizes@ =~= sections@.map_values(|p: SectionPlacement| p.memory_size));
            }
            o += 1;
        }
        Ok(
            Layout {
                section_offsets,
                section_sizes,
                sections,
                base_address,
                file_size,
                memory_size: memory_end - base_address,
            },
        )
    }
}

} // verus!
