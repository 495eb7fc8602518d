//! Storage layout for an explicit output target; no host `size_of`/`align_of`.
use vstd::prelude::*;
use crate::ir::types::{Type, TypeModel};
use crate::target::Target;

verus! {

/// Natural type layout in bytes. Tail padding is included in `size`.
#[derive(Clone, Debug, PartialEq, Eq)]
pub struct TypeLayout {
    pub size: u64,
    pub align: u32,
    /// Struct/tuple field offsets in declaration order; empty for other types.
    pub field_offsets: Vec<u64>,
    /// Distance between array elements, including each element's tail padding.
    pub element_stride: Option<u64>,
}

/// The value of a [`TypeLayout`].
pub struct LayoutModel {
    pub size: u64,
    pub align: u32,
    pub field_offsets: Seq<u64>,
    pub element_stride: Option<u64>,
}

impl View for TypeLayout {
    type V = LayoutModel;

    open spec fn view(&self) -> LayoutModel {
        LayoutModel {
            size: self.size,
            align: self.align,
            field_offsets: self.field_offsets@,
            element_stride: self.element_stride,
        }
    }
}

#[derive(Clone, Copy, Debug, PartialEq, Eq, Structural)]
pub enum LayoutError {
    Void,
    Overflow,
    DepthLimit,
    ZeroSizedPointerArithmetic,
}

/// The message of a layout error.
pub open spec fn layout_error_text(e: LayoutError) -> Seq<char> {
    match e {
        LayoutError::Void => "void has no storage layout"@,
        LayoutError::Overflow => "type layout exceeds the target address space"@,
        LayoutError::DepthLimit => "type layout nesting limit exceeded"@,
        LayoutError::ZeroSizedPointerArithmetic => "zero-sized pointee arithmetic is unsupported"@,
    }
}

impl LayoutError {
    /// The message of the error, as it is displayed.
    pub fn to_string(&self) -> (r: String)
        ensures
            r@ == layout_error_text(*self),
    {
        String::from_str(
            match self {
                LayoutError::Void => "void has no storage layout",
                LayoutError::Overflow => "type layout exceeds the target address space",
                LayoutError::DepthLimit => "type layout nesting limit exceeded",
                LayoutError::ZeroSizedPointerArithmetic => "zero-sized pointee arithmetic is unsupported",
            },
        )
    }
}

/// Nesting budget of [`layout_of`].
pub open spec fn default_depth() -> nat {
    128
}

pub open spec fn scalar_model(size: u64, align: u32) -> LayoutModel {
    LayoutModel { size, align, field_offsets: seq![], element_stride: None }
}

/// The least multiple of `align` that is at least `size`, if it fits in 64 bits.
pub open spec fn align_up_spec(size: nat, align: nat) -> Option<u64> {
    let up = if size % align == 0 {
        size
    } else {
        (size - size % align + align) as nat
    };
    if up <= u64::MAX {
        Some(up as u64)
    } else {
        None
    }
}

/// Natural AMD64 layout of a type, with `depth` nested aggregate levels allowed.
pub open spec fn layout_spec(t: TypeModel, depth: nat) -> Result<LayoutModel, LayoutError>
    decreases depth, 0nat, 0nat,
{
    match t {
        TypeModel::Void => Err(LayoutError::Void),
        TypeModel::Bool | TypeModel::I1 | TypeModel::U1 | TypeModel::I8 | TypeModel::U8 => Ok(
            scalar_model(1, 1),
        ),
        TypeModel::I16 | TypeModel::U16 | TypeModel::F16 => Ok(scalar_model(2, 2)),
        TypeModel::I32 | TypeModel::U32 | TypeModel::F32 => Ok(scalar_model(4, 4)),
        TypeModel::I64 | TypeModel::U64 | TypeModel::F64 => Ok(scalar_model(8, 8)),
        TypeModel::I128 | TypeModel::U128 => Ok(scalar_model(16, 16)),
        TypeModel::Ptr(_) => Ok(scalar_model(8, 8)),
        TypeModel::Array(element, count) => if depth == 0 {
            Err(LayoutError::DepthLimit)
        } else {
            match layout_spec(*element, (depth - 1) as nat) {
                Err(e) => Err(e),
                Ok(el) => if el.size * count > u64::MAX {
                    Err(LayoutError::Overflow)
                } else {
                    Ok(
                        LayoutModel {
                            size: (el.size * count) as u64,
                            align: el.align,
                            field_offsets: seq![],
                            element_stride: Some(el.size),
                        },
                    )
                },
            }
        },
        TypeModel::Struct(fields) | TypeModel::Tuple(fields) => if depth == 0 {
            Err(LayoutError::DepthLimit)
        } else {
            match fields_layout(fields, fields.len(), (depth - 1) as nat) {
                Err(e) => Err(e),
                Ok(acc) => match align_up_spec(acc.size as nat, acc.align as nat) {
                    None => Err(LayoutError::Overflow),
                    Some(size) => Ok(
                        LayoutModel {
                            size,
                            align: acc.align,
                            field_offsets: acc.field_offsets,
                            element_stride: None,
                        },
                    ),
                },
            }
        },
    }
}

/// Layout of the first `k` fields before tail padding: each field at its aligned
/// offset, the aggregate aligned to the largest field alignment.
pub open spec fn fields_layout(fields: Seq<TypeModel>, k: nat, depth: nat) -> Result<
    LayoutModel,
    LayoutError,
>
    decreases depth, 1nat, k,
{
    if k == 0 || k > fields.len() {
        Ok(scalar_model(0, 1))
    } else {
        match fields_layout(fields, (k - 1) as nat, depth) {
            Err(e) => Err(e),
            Ok(acc) => match layout_spec(fields[k - 1], depth) {
                Err(e) => Err(e),
                Ok(field) => match align_up_spec(acc.size as nat, field.align as nat) {
                    None => Err(LayoutError::Overflow),
                    Some(offset) => if offset + field.size > u64::MAX {
                        Err(LayoutError::Overflow)
                    } else {
                        Ok(
                            LayoutModel {
                                size: (offset + field.size) as u64,
                                align: if acc.align >= field.align {
                                    acc.align
                                } else {
                                    field.align
                                },
                                field_offsets: acc.field_offsets.push(offset),
                                element_stride: None,
                            },
                        )
                    },
                },
            },
        }
    }
}

/// Once a prefix of the fields fails, every longer prefix fails the same way.
pub proof fn lemma_fields_error_persists(fields: Seq<TypeModel>, k: nat, m: nat, depth: nat)
    requires
        1 <= k <= m <= fields.len(),
        fields_layout(fields, k, depth) is Err,
    ensures
        fields_layout(fields, m, depth) == fields_layout(fields, k, depth),
    decreases m,
{
    if m > k {
        lemma_fields_error_persists(fields, k, (m - 1) as nat, depth);
    }
}

/// An aggregate whose first `k` fields fail to lay out fails with the same error.
pub proof fn lemma_aggregate_error(t: TypeModel, fields: Seq<TypeModel>, k: nat, depth: nat)
    requires
        t == TypeModel::Struct(fields) || t == TypeModel::Tuple(fields),
        1 <= k <= fields.len(),
        depth >= 1,
        fields_layout(fields, k, (depth - 1) as nat) is Err,
    ensures
        layout_spec(t, depth) == fields_layout(fields, k, (depth - 1) as nat),
{
    lemma_fields_error_persists(fields, k, fields.len(), (depth - 1) as nat);
}

/// Alignments produced by the layout rules: powers of two up to 16.
pub open spec fn valid_align(a: u32) -> bool {
    a == 1 || a == 2 || a == 4 || a == 8 || a == 16
}

pub proof fn lemma_layout_align(t: TypeModel, depth: nat)
    ensures
        layout_spec(t, depth) matches Ok(l) ==> valid_align(l.align),
    decreases depth, 0nat, 0nat,
{
    match t {
        TypeModel::Array(element, count) => {
            if depth > 0 {
                lemma_layout_align(*element, (depth - 1) as nat);
            }
        },
        TypeModel::Struct(fields) | TypeModel::Tuple(fields) => {
            if depth > 0 {
                lemma_fields_align(fields, fields.len(), (depth - 1) as nat);
            }
        },
        _ => {},
    }
}

pub proof fn lemma_fields_align(fields: Seq<TypeModel>, k: nat, depth: nat)
    ensures
        fields_layout(fields, k, depth) matches Ok(l) ==> valid_align(l.align),
    decreases depth, 1nat, k,
{
    if k > 0 && k <= fields.len() {
        lemma_fields_align(fields, (k - 1) as nat, depth);
        lemma_layout_align(fields[k - 1], depth);
    }
}

proof fn lemma_align_up_multiple(size: nat, align: nat)
    requires
        align >= 1,
        align_up_spec(size, align) is Some,
    ensures
        align_up_spec(size, align)->Some_0 >= size,
        align_up_spec(size, align)->Some_0 as int % (align as int) == 0,
{
    if size % align != 0 {
        assert((size - size % align + align) % (align as int) == 0) by (nonlinear_arith)
            requires
                align >= 1,
        {
            vstd::arithmetic::div_mod::lemma_fundamental_div_mod(size as int, align as int);
            vstd::arithmetic::div_mod::lemma_mod_multiples_basic(size as int / align as int + 1, align as int);
            assert(size - size % align + align == (size as int / align as int + 1) * align);
        }
    }
}

proof fn lemma_product_multiple(z: int, c: int, a: int)
    requires
        a >= 1,
        z % a == 0,
        c >= 0,
    ensures
        (z * c) % a == 0,
{
    assert((z * c) % a == 0) by (nonlinear_arith)
        requires
            a >= 1,
            z % a == 0,
            c >= 0,
    {
        vstd::arithmetic::div_mod::lemma_fundamental_div_mod(z, a);
        vstd::arithmetic::div_mod::lemma_mod_multiples_basic((z / a) * c, a);
        assert(z * c == ((z / a) * c) * a);
    }
}

/// Layout law: a laid-out type's size is a multiple of its alignment, tail
/// padding included, so consecutive array elements, each one stride apart,
/// all stay aligned.
#[verifier::spinoff_prover]
pub proof fn lemma_size_multiple_of_align(t: TypeModel, depth: nat)
    ensures
        layout_spec(t, depth) matches Ok(l) ==> l.align >= 1 && l.size as int % (l.align as int) == 0,
    decreases depth,
{
    lemma_layout_align(t, depth);
    match t {
        TypeModel::Array(element, count) => {
            if depth > 0 {
                lemma_size_multiple_of_align(*element, (depth - 1) as nat);
                match layout_spec(*element, (depth - 1) as nat) {
                    Ok(el) => {
                        lemma_layout_align(*element, (depth - 1) as nat);
                        lemma_product_multiple(el.size as int, count as int, el.align as int);
                    },
                    Err(_) => {},
                }
            }
        },
        TypeModel::Struct(fields) | TypeModel::Tuple(fields) => {
            if depth > 0 {
                lemma_fields_align(fields, fields.len(), (depth - 1) as nat);
                if let Ok(acc) = fields_layout(fields, fields.len(), (depth - 1) as nat) {
                    if align_up_spec(acc.size as nat, acc.align as nat) is Some {
                        lemma_align_up_multiple(acc.size as nat, acc.align as nat);
                        let l = layout_spec(t, depth)->Ok_0;
                        assert(l.size as int % (l.align as int) == 0);
                    }
                }
            }
        },
        _ => {},
    }
}

/// The layout of field `i`.
pub open spec fn field_layout(fields: Seq<TypeModel>, i: int, depth: nat) -> LayoutModel {
    layout_spec(fields[i], depth)->Ok_0
}

/// Field law: each field of a laid-out aggregate starts at an offset that its
/// alignment divides, at or after the end of every field before it, and ends
/// within the fields' extent.
pub proof fn lemma_fields_in_order(fields: Seq<TypeModel>, k: nat, depth: nat)
    requires
        k <= fields.len(),
        fields_layout(fields, k, depth) is Ok,
    ensures
        ({
            let acc = fields_layout(fields, k, depth)->Ok_0;
            &&& acc.field_offsets.len() == k
            &&& forall|i: int| 0 <= i < k ==> #[trigger] layout_spec(fields[i], depth) is Ok
            &&& forall|i: int|
                0 <= i < k ==> {
                    &&& #[trigger] acc.field_offsets[i] as int % (field_layout(fields, i, depth).align as int) == 0
                    &&& acc.field_offsets[i] + field_layout(fields, i, depth).size <= acc.size
                }
            &&& forall|i: int, j: int|
                #![trigger acc.field_offsets[i], acc.field_offsets[j]]
                0 <= i < j < k ==> acc.field_offsets[i] + field_layout(fields, i, depth).size
                    <= acc.field_offsets[j]
        }),
    decreases k,
{
    if k > 0 {
        lemma_fields_in_order(fields, (k - 1) as nat, depth);
        let prev = fields_layout(fields, (k - 1) as nat, depth)->Ok_0;
        let field = layout_spec(fields[k - 1], depth)->Ok_0;
        lemma_layout_align(fields[k - 1], depth);
        lemma_align_up_multiple(prev.size as nat, field.align as nat);
        let acc = fields_layout(fields, k, depth)->Ok_0;
        assert(acc.field_offsets == prev.field_offsets.push(align_up_spec(prev.size as nat, field.align as nat)->Some_0));
        assert forall|i: int| 0 <= i < k implies #[trigger] layout_spec(fields[i], depth) is Ok by {
            if i < k - 1 {
                assert(layout_spec(fields[i], depth) is Ok);
            }
        }
        assert forall|i: int| 0 <= i < k implies {
            &&& #[trigger] acc.field_offsets[i] as int % (field_layout(fields, i, depth).align as int) == 0
            &&& acc.field_offsets[i] + field_layout(fields, i, depth).size <= acc.size
        } by {
            if i < k - 1 {
                assert(acc.field_offsets[i] == prev.field_offsets[i]);
            }
        }
        assert forall|i: int, j: int|
            #![trigger acc.field_offsets[i], acc.field_offsets[j]]
            0 <= i < j < k implies acc.field_offsets[i] + field_layout(fields, i, depth).size
                <= acc.field_offsets[j] by {
            assert(acc.field_offsets[i] == prev.field_offsets[i]);
            if j < k - 1 {
                assert(acc.field_offsets[j] == prev.field_offsets[j]);
            }
        }
    }
}

/// Round `size` up to a multiple of `align`.
fn align_up(size: u64, align: u32) -> (r: Result<u64, LayoutError>)
    requires
        align >= 1,
    ensures
        match align_up_spec(size as nat, align as nat) {
            Some(v) => r == Ok::<u64, LayoutError>(v),
            None => r == Err::<u64, LayoutError>(LayoutError::Overflow),
        },
{
    let align = align as u64;
    let rem = size % align;
    if rem == 0 {
        Ok(size)
    } else {
        match size.checked_add(align - rem) {
            Some(v) => Ok(v),
            None => Err(LayoutError::Overflow),
        }
    }
}

/// Compute natural storage layout, with at most 128 nested aggregate levels.
pub fn layout_of(ty: &Type, target: Target) -> (r: Result<TypeLayout, LayoutError>)
    ensures
        match layout_spec(ty@, default_depth()) {
            Ok(l) => r matches Ok(x) && x@ == l,
            Err(e) => r == Err::<TypeLayout, LayoutError>(e),
        },
{
    layout_of_with_limit(ty, target, 128)
}

/// Override the aggregate nesting budget. Pointers do not lay out their pointee.
pub fn layout_of_with_limit(ty: &Type, target: Target, max_depth: usize) -> (r: Result<
    TypeLayout,
    LayoutError,
>)
    ensures
        match layout_spec(ty@, max_depth as nat) {
            Ok(l) => r matches Ok(x) && x@ == l,
            Err(e) => r == Err::<TypeLayout, LayoutError>(e),
        },
    decreases max_depth,
{
    proof {
        crate::ir::types::lemma_model_shape(*ty);
    }
    // A new target must select its own rules rather than inheriting host layout.
    match target {
        Target::X86_64WhaleLinux => {},
    }
    match ty {
        Type::Void => Err(LayoutError::Void),
        Type::Bool | Type::I1 | Type::U1 | Type::I8 | Type::U8 => Ok(scalar(1, 1)),
        Type::I16 | Type::U16 | Type::F16 => Ok(scalar(2, 2)),
        Type::I32 | Type::U32 | Type::F32 => Ok(scalar(4, 4)),
        Type::I64 | Type::U64 | Type::F64 => Ok(scalar(8, 8)),
        Type::I128 | Type::U128 => Ok(scalar(16, 16)),
        Type::Ptr(_) => {
            let bytes = target.data_layout().ptr_bits / 8;
            Ok(scalar(bytes as u64, bytes))
        },
        Type::Array(element, count) => {
            if max_depth == 0 {
                return Err(LayoutError::DepthLimit);
            }
            let element = layout_of_with_limit(element, target, max_depth - 1)?;
            match element.size.checked_mul(*count) {
                Some(size) => Ok(
                    TypeLayout {
                        size,
                        align: element.align,
                        field_offsets: Vec::new(),
                        element_stride: Some(element.size),
                    },
                ),
                None => Err(LayoutError::Overflow),
            }
        },
        Type::Struct(fields) | Type::Tuple(fields) => {
            if max_depth == 0 {
                return Err(LayoutError::DepthLimit);
            }
            let remaining = max_depth - 1;
            let ghost models = crate::ir::types::types_model(*fields);
            proof {
                if ty is Struct {
                    assert(models =~= ty@->Struct_0);
                } else {
                    assert(models =~= ty@->Tuple_0);
                }
            }
            let mut result = scalar(0, 1);
            let mut i: usize = 0;
            while i < fields.len()
                invariant
                    0 <= i <= fields.len(),
                    remaining < max_depth,
                    remaining == max_depth - 1,
                    ty@ == TypeModel::Struct(models) || ty@ == TypeModel::Tuple(models),
                    models == crate::ir::types::types_model(*fields),
                    fields_layout(models, i as nat, remaining as nat) == Ok::<
                        LayoutModel,
                        LayoutError,
                    >(result@),
                    valid_align(result.align),
                    result.element_stride is None,
                decreases fields.len() - i,
            {
                let field = match layout_of_with_limit(&fields[i], target, remaining) {
                    Ok(field) => field,
                    Err(e) => {
                        proof {
                            assert(models[i as int] == fields@[i as int]@);
                            assert(((i + 1) as nat - 1) as nat == i as nat);
                            assert(fields_layout(models, (i + 1) as nat, remaining as nat) == Err::<
                                LayoutModel,
                                LayoutError,
                            >(e));
                            lemma_aggregate_error(ty@, models, (i + 1) as nat, max_depth as nat);
                        }
                        return Err(e);
                    },
                };
                proof {
                    assert(models[i as int] == fields@[i as int]@);
                    lemma_layout_align(fields@[i as int]@, remaining as nat);
                }
                let offset = match align_up(result.size, field.align) {
                    Ok(offset) => offset,
                    Err(e) => {
                        proof {
                            assert(((i + 1) as nat - 1) as nat == i as nat);
                            assert(fields_layout(models, (i + 1) as nat, remaining as nat) == Err::<
                                LayoutModel,
                                LayoutError,
                            >(e));
                            lemma_aggregate_error(ty@, models, (i + 1) as nat, max_depth as nat);
                        }
                        return Err(e);
                    },
                };
                let size = match offset.checked_add(field.size) {
                    Some(size) => size,
                    None => {
                        proof {
                            assert(((i + 1) as nat - 1) as nat == i as nat);
                            assert(fields_layout(models, (i + 1) as nat, remaining as nat)
                                is Err);
                            lemma_aggregate_error(ty@, models, (i + 1) as nat, max_depth as nat);
                        }
                        return Err(LayoutError::Overflow);
                    },
                };
                result.align = if result.align >= field.align {
                    result.align
                } else {
                    field.align
                };
                result.field_offsets.push(offset);
                result.size = size;
                i += 1;
            }
            result.size = align_up(result.size, result.align)?;
            Ok(result)
        },
    }
}

fn scalar(size: u64, align: u32) -> (r: TypeLayout)
    ensures
        r@ == scalar_model(size, align),
{
    let r = TypeLayout { size, align, field_offsets: Vec::new(), element_stride: None };
    assert(r@.field_offsets =~= Seq::<u64>::empty());
    r
}

/// Alignment for a standalone local/global object, not a field or array element.
/// SysV AMD64 gives arrays of at least 16 bytes at least 16-byte placement alignment.
pub open spec fn allocation_align_spec(t: TypeModel) -> Result<u32, LayoutError> {
    match layout_spec(t, default_depth()) {
        Err(e) => Err(e),
        Ok(l) => Ok(
            if t is Array && l.size >= 16 && l.align < 16 {
                16
            } else {
                l.align
            },
        ),
    }
}

pub fn allocation_align(ty: &Type, target: Target) -> (r: Result<u32, LayoutError>)
    ensures
        r == allocation_align_spec(ty@),
{
    proof {
        crate::ir::types::lemma_model_shape(*ty);
    }
    let layout = layout_of(ty, target)?;
    Ok(
        if matches!(ty, Type::Array(..)) && layout.size >= 16 && layout.align < 16 {
            16
        } else {
            layout.align
        },
    )
}

/// Scale for the first native GEP index; a zero-sized pointee cannot be stepped.
pub fn pointer_stride(pointee: &Type, target: Target) -> (r: Result<u64, LayoutError>)
    ensures
        match layout_spec(pointee@, default_depth()) {
            Err(e) => r == Err::<u64, LayoutError>(e),
            Ok(l) => if l.size == 0 {
                r == Err::<u64, LayoutError>(LayoutError::ZeroSizedPointerArithmetic)
            } else {
                r == Ok::<u64, LayoutError>(l.size)
            },
        },
{
    let size = layout_of(pointee, target)?.size;
    if size == 0 {
        Err(LayoutError::ZeroSizedPointerArithmetic)
    } else {
        Ok(size)
    }
}

} // verus!
