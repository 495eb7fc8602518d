//! The textual form of a module. Every instruction, block and constant
//! expression is printed; nothing is simplified.
use vstd::prelude::*;
use crate::ir::const_expr::{
    ConstBinaryOp, ConstCompareOp, ConstExpr, ConstExprKind, ConstRef, ExprKindModel, ExprModel,
};
use crate::ir::float::float_text;
use crate::ir::module::{
    BasicBlock, BinOp, Callee, CastOp, CheckedOp, CmpOp, FCmpPred, Function, Global, ICmpPred,
    Instruction, Module, Terminator,
};
use crate::ir::types::{BlockId, ConstValue, GlobalId, Type, TypeModel, ValueId};
use crate::target::Endian;
use crate::text::{dec_text, push_decimal, push_signed, signed_text};

verus! {

broadcast use vstd::std_specs::vec::axiom_vec_index_decreases;

/// `", "` before every item but the first.
pub open spec fn sep(i: int) -> Seq<char> {
    if i == 0 {
        seq![]
    } else {
        ", "@
    }
}

fn push(out: &mut String, s: &str)
    ensures
        final(out)@ == old(out)@ + s@,
{
    out.append(s);
}

fn push_sep(out: &mut String, i: usize)
    ensures
        final(out)@ == old(out)@ + sep(i as int),
{
    if i > 0 {
        push(out, ", ");
    } else {
        assert(old(out)@ + sep(0) =~= old(out)@);
    }
}

// ---------------------------------------------------------------- names

pub open spec fn scalar_name(t: TypeModel) -> Seq<char> {
    match t {
        TypeModel::Void => "void"@,
        TypeModel::Bool => "bool"@,
        TypeModel::I1 => "i1"@,
        TypeModel::I8 => "i8"@,
        TypeModel::I16 => "i16"@,
        TypeModel::I32 => "i32"@,
        TypeModel::I64 => "i64"@,
        TypeModel::I128 => "i128"@,
        TypeModel::U1 => "u1"@,
        TypeModel::U8 => "u8"@,
        TypeModel::U16 => "u16"@,
        TypeModel::U32 => "u32"@,
        TypeModel::U64 => "u64"@,
        TypeModel::U128 => "u128"@,
        TypeModel::F16 => "f16"@,
        TypeModel::F32 => "f32"@,
        TypeModel::F64 => "f64"@,
        _ => seq![],
    }
}

pub open spec fn binop_name(op: BinOp) -> Seq<char> {
    match op {
        BinOp::Add => "add"@,
        BinOp::Sub => "sub"@,
        BinOp::Mul => "mul"@,
        BinOp::SDiv => "sdiv"@,
        BinOp::UDiv => "udiv"@,
        BinOp::SRem => "srem"@,
        BinOp::URem => "urem"@,
        BinOp::And => "and"@,
        BinOp::Or => "or"@,
        BinOp::Xor => "xor"@,
        BinOp::Shl => "shl"@,
        BinOp::LShr => "lshr"@,
        BinOp::AShr => "ashr"@,
        BinOp::FAdd => "fadd"@,
        BinOp::FSub => "fsub"@,
        BinOp::FMul => "fmul"@,
        BinOp::FDiv => "fdiv"@,
        BinOp::FRem => "frem"@,
    }
}

fn binop_str(op: BinOp) -> (r: &'static str)
    ensures
        r@ == binop_name(op),
{
    match op {
        BinOp::Add => "add",
        BinOp::Sub => "sub",
        BinOp::Mul => "mul",
        BinOp::SDiv => "sdiv",
        BinOp::UDiv => "udiv",
        BinOp::SRem => "srem",
        BinOp::URem => "urem",
        BinOp::And => "and",
        BinOp::Or => "or",
        BinOp::Xor => "xor",
        BinOp::Shl => "shl",
        BinOp::LShr => "lshr",
        BinOp::AShr => "ashr",
        BinOp::FAdd => "fadd",
        BinOp::FSub => "fsub",
        BinOp::FMul => "fmul",
        BinOp::FDiv => "fdiv",
        BinOp::FRem => "frem",
    }
}

pub open spec fn compare_name(op: CmpOp) -> Seq<char> {
    match op {
        CmpOp::Eq => "eq"@,
        CmpOp::Ne => "ne"@,
        CmpOp::SLt => "slt"@,
        CmpOp::SLe => "sle"@,
        CmpOp::SGt => "sgt"@,
        CmpOp::SGe => "sge"@,
        CmpOp::ULt => "ult"@,
        CmpOp::ULe => "ule"@,
        CmpOp::UGt => "ugt"@,
        CmpOp::UGe => "uge"@,
        CmpOp::FEq => "feq"@,
        CmpOp::FNe => "fne"@,
        CmpOp::FLt => "flt"@,
        CmpOp::FLe => "fle"@,
        CmpOp::FGt => "fgt"@,
        CmpOp::FGe => "fge"@,
    }
}

fn compare_str(op: CmpOp) -> (r: &'static str)
    ensures
        r@ == compare_name(op),
{
    match op {
        CmpOp::Eq => "eq",
        CmpOp::Ne => "ne",
        CmpOp::SLt => "slt",
        CmpOp::SLe => "sle",
        CmpOp::SGt => "sgt",
        CmpOp::SGe => "sge",
        CmpOp::ULt => "ult",
        CmpOp::ULe => "ule",
        CmpOp::UGt => "ugt",
        CmpOp::UGe => "uge",
        CmpOp::FEq => "feq",
        CmpOp::FNe => "fne",
        CmpOp::FLt => "flt",
        CmpOp::FLe => "fle",
        CmpOp::FGt => "fgt",
        CmpOp::FGe => "fge",
    }
}

pub open spec fn int_pred_name(p: ICmpPred) -> Seq<char> {
    match p {
        ICmpPred::Eq => "eq"@,
        ICmpPred::Ne => "ne"@,
        ICmpPred::Slt => "slt"@,
        ICmpPred::Sle => "sle"@,
        ICmpPred::Sgt => "sgt"@,
        ICmpPred::Sge => "sge"@,
        ICmpPred::Ult => "ult"@,
        ICmpPred::Ule => "ule"@,
        ICmpPred::Ugt => "ugt"@,
        ICmpPred::Uge => "uge"@,
    }
}

fn int_pred_str(p: ICmpPred) -> (r: &'static str)
    ensures
        r@ == int_pred_name(p),
{
    match p {
        ICmpPred::Eq => "eq",
        ICmpPred::Ne => "ne",
        ICmpPred::Slt => "slt",
        ICmpPred::Sle => "sle",
        ICmpPred::Sgt => "sgt",
        ICmpPred::Sge => "sge",
        ICmpPred::Ult => "ult",
        ICmpPred::Ule => "ule",
        ICmpPred::Ugt => "ugt",
        ICmpPred::Uge => "uge",
    }
}

pub open spec fn float_pred_name(p: FCmpPred) -> Seq<char> {
    match p {
        FCmpPred::Oeq => "oeq"@,
        FCmpPred::One => "one"@,
        FCmpPred::Olt => "olt"@,
        FCmpPred::Ole => "ole"@,
        FCmpPred::Ogt => "ogt"@,
        FCmpPred::Oge => "oge"@,
        FCmpPred::Ueq => "ueq"@,
        FCmpPred::Une => "une"@,
        FCmpPred::Ult => "ult"@,
        FCmpPred::Ule => "ule"@,
        FCmpPred::Ugt => "ugt"@,
        FCmpPred::Uge => "uge"@,
    }
}

fn float_pred_str(p: FCmpPred) -> (r: &'static str)
    ensures
        r@ == float_pred_name(p),
{
    match p {
        FCmpPred::Oeq => "oeq",
        FCmpPred::One => "one",
        FCmpPred::Olt => "olt",
        FCmpPred::Ole => "ole",
        FCmpPred::Ogt => "ogt",
        FCmpPred::Oge => "oge",
        FCmpPred::Ueq => "ueq",
        FCmpPred::Une => "une",
        FCmpPred::Ult => "ult",
        FCmpPred::Ule => "ule",
        FCmpPred::Ugt => "ugt",
        FCmpPred::Uge => "uge",
    }
}

pub open spec fn checked_name(op: CheckedOp) -> Seq<char> {
    match op {
        CheckedOp::SAdd => "sadd"@,
        CheckedOp::UAdd => "uadd"@,
        CheckedOp::SSub => "ssub"@,
        CheckedOp::USub => "usub"@,
        CheckedOp::SMul => "smul"@,
        CheckedOp::UMul => "umul"@,
    }
}

fn checked_str(op: CheckedOp) -> (r: &'static str)
    ensures
        r@ == checked_name(op),
{
    match op {
        CheckedOp::SAdd => "sadd",
        CheckedOp::UAdd => "uadd",
        CheckedOp::SSub => "ssub",
        CheckedOp::USub => "usub",
        CheckedOp::SMul => "smul",
        CheckedOp::UMul => "umul",
    }
}

pub open spec fn cast_name(op: CastOp) -> Seq<char> {
    match op {
        CastOp::Trunc => "trunc"@,
        CastOp::ZExt => "zext"@,
        CastOp::SExt => "sext"@,
        CastOp::FpTrunc => "fptrunc"@,
        CastOp::FpExt => "fpext"@,
        CastOp::FpToSi => "fptosi"@,
        CastOp::FpToUi => "fptoui"@,
        CastOp::SiToFp => "sitofp"@,
        CastOp::UiToFp => "uitofp"@,
        CastOp::PtrToInt => "ptrtoint"@,
        CastOp::IntToPtr => "inttoptr"@,
        CastOp::Bitcast => "bitcast"@,
    }
}

fn cast_str(op: CastOp) -> (r: &'static str)
    ensures
        r@ == cast_name(op),
{
    match op {
        CastOp::Trunc => "trunc",
        CastOp::ZExt => "zext",
        CastOp::SExt => "sext",
        CastOp::FpTrunc => "fptrunc",
        CastOp::FpExt => "fpext",
        CastOp::FpToSi => "fptosi",
        CastOp::FpToUi => "fptoui",
        CastOp::SiToFp => "sitofp",
        CastOp::UiToFp => "uitofp",
        CastOp::PtrToInt => "ptrtoint",
        CastOp::IntToPtr => "inttoptr",
        CastOp::Bitcast => "bitcast",
    }
}

pub open spec fn const_binop_name(op: ConstBinaryOp) -> Seq<char> {
    match op {
        ConstBinaryOp::Add => "add"@,
        ConstBinaryOp::Sub => "sub"@,
        ConstBinaryOp::Mul => "mul"@,
    }
}

fn const_binop_str(op: ConstBinaryOp) -> (r: &'static str)
    ensures
        r@ == const_binop_name(op),
{
    match op {
        ConstBinaryOp::Add => "add",
        ConstBinaryOp::Sub => "sub",
        ConstBinaryOp::Mul => "mul",
    }
}

pub open spec fn const_compare_name(op: ConstCompareOp) -> Seq<char> {
    match op {
        ConstCompareOp::Eq => "eq"@,
        ConstCompareOp::Ne => "ne"@,
        ConstCompareOp::Lt => "lt"@,
        ConstCompareOp::Le => "le"@,
        ConstCompareOp::Gt => "gt"@,
        ConstCompareOp::Ge => "ge"@,
    }
}

fn const_compare_str(op: ConstCompareOp) -> (r: &'static str)
    ensures
        r@ == const_compare_name(op),
{
    match op {
        ConstCompareOp::Eq => "eq",
        ConstCompareOp::Ne => "ne",
        ConstCompareOp::Lt => "lt",
        ConstCompareOp::Le => "le",
        ConstCompareOp::Gt => "gt",
        ConstCompareOp::Ge => "ge",
    }
}

// ---------------------------------------------------------------- types and values

/// The text of a type: scalars by name, `ptr<T>`, `array<T, N>`,
/// `struct{T, U}` and `tuple(T, U)`.
pub open spec fn type_text(t: TypeModel) -> Seq<char>
    decreases t, 1nat,
{
    match t {
        TypeModel::Ptr(p) => "ptr<"@ + type_text(*p) + ">"@,
        TypeModel::Array(e, n) => "array<"@ + type_text(*e) + ", "@ + dec_text(n as nat) + ">"@,
        TypeModel::Struct(fs) => "struct{"@ + types_text(fs) + "}"@,
        TypeModel::Tuple(fs) => "tuple("@ + types_text(fs) + ")"@,
        _ => scalar_name(t),
    }
}

/// The texts of a list of types, comma separated.
pub open spec fn types_text(fs: Seq<TypeModel>) -> Seq<char>
    decreases fs, 0nat,
{
    if fs.len() == 0 {
        seq![]
    } else {
        types_text(fs.drop_last()) + sep(fs.len() - 1) + type_text(fs.last())
    }
}

fn scalar_str(ty: &Type) -> (r: &'static str)
    ensures
        r@ == scalar_name(ty@),
{
    proof {
        crate::ir::types::lemma_model_shape(*ty);
    }
    match ty {
        Type::Void => "void",
        Type::Bool => "bool",
        Type::I1 => "i1",
        Type::I8 => "i8",
        Type::I16 => "i16",
        Type::I32 => "i32",
        Type::I64 => "i64",
        Type::I128 => "i128",
        Type::U1 => "u1",
        Type::U8 => "u8",
        Type::U16 => "u16",
        Type::U32 => "u32",
        Type::U64 => "u64",
        Type::U128 => "u128",
        Type::F16 => "f16",
        Type::F32 => "f32",
        Type::F64 => "f64",
        _ => {
            proof {
                reveal_strlit("");
            }
            assert(scalar_name(ty@) =~= Seq::<char>::empty());
            ""
        },
    }
}

pub fn write_type(out: &mut String, ty: &Type)
    ensures
        final(out)@ == old(out)@ + type_text(ty@),
    decreases ty, 1nat,
{
    proof {
        crate::ir::types::lemma_model_shape(*ty);
    }
    match ty {
        Type::Ptr(p) => {
            push(out, "ptr<");
            write_type(out, p);
            push(out, ">");
            assert(final(out)@ =~= old(out)@ + type_text(ty@));
        },
        Type::Array(e, n) => {
            push(out, "array<");
            write_type(out, e);
            push(out, ", ");
            push_decimal(out, *n as u128);
            push(out, ">");
            assert(final(out)@ =~= old(out)@ + type_text(ty@));
        },
        Type::Struct(fields) => {
            push(out, "struct{");
            write_types(out, ty, fields);
            push(out, "}");
            assert(ty@->Struct_0 =~= Seq::new(fields@.len(), |i: int| fields@[i]@));
            assert(final(out)@ =~= old(out)@ + type_text(ty@));
        },
        Type::Tuple(fields) => {
            push(out, "tuple(");
            write_types(out, ty, fields);
            push(out, ")");
            assert(ty@->Tuple_0 =~= Seq::new(fields@.len(), |i: int| fields@[i]@));
            assert(final(out)@ =~= old(out)@ + type_text(ty@));
        },
        _ => {
            push(out, scalar_str(ty));
        },
    }
}

fn write_types(out: &mut String, parent: &Type, fields: &Vec<Type>)
    requires
        *parent == Type::Struct(*fields) || *parent == Type::Tuple(*fields),
    ensures
        final(out)@ == old(out)@ + types_text(Seq::new(fields@.len(), |i: int| fields@[i]@)),
    decreases parent, 0nat,
{
    let ghost ms = Seq::new(fields@.len(), |i: int| fields@[i]@);
    let mut i: usize = 0;
    assert(ms.take(0) =~= Seq::<TypeModel>::empty());
    while i < fields.len()
        invariant
            0 <= i <= fields.len(),
            ms == Seq::new(fields@.len(), |i: int| fields@[i]@),
            *parent == Type::Struct(*fields) || *parent == Type::Tuple(*fields),
            out@ == old(out)@ + types_text(ms.take(i as int)),
        decreases fields.len() - i,
    {
        proof {
            if *parent == Type::Struct(*fields) {
                assert(decreases_to!(*parent => (*parent)->Struct_0));
            } else {
                assert(decreases_to!(*parent => (*parent)->Tuple_0));
            }
            assert(decreases_to!(*fields => fields[i as int]));
            assert(ms.take(i + 1).drop_last() =~= ms.take(i as int));
        }
        push_sep(out, i);
        write_type(out, &fields[i]);
        proof {
            assert(out@ =~= old(out)@ + types_text(ms.take(i + 1)));
        }
        i += 1;
    }
    assert(ms.take(i as int) =~= ms);
}

/// The text of a constant payload: booleans by name, integers in decimal,
/// floats as exact-width hexadecimal storage.
pub open spec fn const_text(c: ConstValue) -> Seq<char> {
    match c {
        ConstValue::Bool(b) => if b {
            "true"@
        } else {
            "false"@
        },
        ConstValue::I(v) => signed_text(v as int),
        ConstValue::U(v) => dec_text(v as nat),
        ConstValue::F(f) => float_text(f),
    }
}

pub fn write_const(out: &mut String, c: &ConstValue)
    ensures
        final(out)@ == old(out)@ + const_text(*c),
{
    match c {
        ConstValue::Bool(b) => {
            if *b {
                push(out, "true");
            } else {
                push(out, "false");
            }
        },
        ConstValue::I(v) => push_signed(out, *v),
        ConstValue::U(v) => push_decimal(out, *v),
        ConstValue::F(f) => {
            let s = f.to_string();
            push(out, s.as_str());
        },
    }
}

pub open spec fn value_text(v: ValueId) -> Seq<char> {
    "%"@ + dec_text(v.0 as nat)
}

fn write_value(out: &mut String, v: ValueId)
    ensures
        final(out)@ == old(out)@ + value_text(v),
{
    push(out, "%");
    push_decimal(out, v.0 as u128);
    assert(final(out)@ =~= old(out)@ + value_text(v));
}

pub open spec fn block_ref_text(b: BlockId) -> Seq<char> {
    "b"@ + dec_text(b.0 as nat)
}

fn write_block_ref(out: &mut String, b: BlockId)
    ensures
        final(out)@ == old(out)@ + block_ref_text(b),
{
    push(out, "b");
    push_decimal(out, b.0 as u128);
    assert(final(out)@ =~= old(out)@ + block_ref_text(b));
}

pub open spec fn global_ref_text(g: GlobalId) -> Seq<char> {
    "@g"@ + dec_text(g.0 as nat)
}

fn write_global_ref(out: &mut String, g: GlobalId)
    ensures
        final(out)@ == old(out)@ + global_ref_text(g),
{
    push(out, "@g");
    push_decimal(out, g.0 as u128);
    assert(final(out)@ =~= old(out)@ + global_ref_text(g));
}

/// Comma-separated value references.
pub open spec fn values_text(vs: Seq<ValueId>) -> Seq<char>
    decreases vs.len(),
{
    if vs.len() == 0 {
        seq![]
    } else {
        values_text(vs.drop_last()) + sep(vs.len() - 1) + value_text(vs.last())
    }
}

fn write_values(out: &mut String, vs: &Vec<ValueId>)
    ensures
        final(out)@ == old(out)@ + values_text(vs@),
{
    let mut i: usize = 0;
    assert(vs@.take(0) =~= Seq::<ValueId>::empty());
    while i < vs.len()
        invariant
            0 <= i <= vs.len(),
            out@ == old(out)@ + values_text(vs@.take(i as int)),
        decreases vs.len() - i,
    {
        assert(vs@.take(i + 1).drop_last() =~= vs@.take(i as int));
        push_sep(out, i);
        write_value(out, vs[i]);
        assert(out@ =~= old(out)@ + values_text(vs@.take(i + 1)));
        i += 1;
    }
    assert(vs@.take(i as int) =~= vs@);
}

// ---------------------------------------------------------------- constant expressions

/// A preserved constant expression: `T value`, `T @gN` / `T %N`, or
/// `op(left, right)`.
pub open spec fn expr_text(e: ExprModel) -> Seq<char>
    decreases e,
{
    match e.kind {
        ExprKindModel::Literal(v) => type_text(e.ty) + " "@ + const_text(v),
        ExprKindModel::Reference(r) => type_text(e.ty) + " "@ + match r {
            ConstRef::Global(g) => global_ref_text(g),
            ConstRef::Local(v) => value_text(v),
        },
        ExprKindModel::Binary { op, left, right } => const_binop_name(op) + "("@ + expr_text(*left)
            + ", "@ + expr_text(*right) + ")"@,
        ExprKindModel::Compare { op, left, right } => const_compare_name(op) + "("@ + expr_text(
            *left,
        ) + ", "@ + expr_text(*right) + ")"@,
    }
}

pub fn write_expr(out: &mut String, e: &ConstExpr)
    ensures
        final(out)@ == old(out)@ + expr_text(e@),
    decreases e,
{
    match &e.kind {
        ConstExprKind::Literal(v) => {
            write_type(out, &e.ty);
            push(out, " ");
            write_const(out, v);
        },
        ConstExprKind::Reference(r) => {
            write_type(out, &e.ty);
            push(out, " ");
            match r {
                ConstRef::Global(g) => write_global_ref(out, *g),
                ConstRef::Local(v) => write_value(out, *v),
            }
        },
        ConstExprKind::Binary { op, left, right } => {
            push(out, const_binop_str(*op));
            push(out, "(");
            write_expr(out, left);
            push(out, ", ");
            write_expr(out, right);
            push(out, ")");
        },
        ConstExprKind::Compare { op, left, right } => {
            push(out, const_compare_str(*op));
            push(out, "(");
            write_expr(out, left);
            push(out, ", ");
            write_expr(out, right);
            push(out, ")");
        },
    }
    assert(final(out)@ =~= old(out)@ + expr_text(e@));
}

// ---------------------------------------------------------------- instructions

/// `, %v` for each value.
pub open spec fn values_suffix(vs: Seq<ValueId>) -> Seq<char>
    decreases vs.len(),
{
    if vs.len() == 0 {
        seq![]
    } else {
        values_suffix(vs.drop_last()) + ", "@ + value_text(vs.last())
    }
}

fn write_values_suffix(out: &mut String, vs: &Vec<ValueId>)
    ensures
        final(out)@ == old(out)@ + values_suffix(vs@),
{
    let mut i: usize = 0;
    assert(vs@.take(0) =~= Seq::<ValueId>::empty());
    while i < vs.len()
        invariant
            0 <= i <= vs.len(),
            out@ == old(out)@ + values_suffix(vs@.take(i as int)),
        decreases vs.len() - i,
    {
        assert(vs@.take(i + 1).drop_last() =~= vs@.take(i as int));
        push(out, ", ");
        write_value(out, vs[i]);
        assert(out@ =~= old(out)@ + values_suffix(vs@.take(i + 1)));
        i += 1;
    }
    assert(vs@.take(i as int) =~= vs@);
}

/// Phi inputs: `[%v, bN]`, comma separated.
pub open spec fn incomings_text(xs: Seq<(ValueId, BlockId)>) -> Seq<char>
    decreases xs.len(),
{
    if xs.len() == 0 {
        seq![]
    } else {
        incomings_text(xs.drop_last()) + sep(xs.len() - 1) + "["@ + value_text(xs.last().0) + ", "@
            + block_ref_text(xs.last().1) + "]"@
    }
}

fn write_incomings(out: &mut String, xs: &Vec<(ValueId, BlockId)>)
    ensures
        final(out)@ == old(out)@ + incomings_text(xs@),
{
    let mut i: usize = 0;
    assert(xs@.take(0) =~= Seq::<(ValueId, BlockId)>::empty());
    while i < xs.len()
        invariant
            0 <= i <= xs.len(),
            out@ == old(out)@ + incomings_text(xs@.take(i as int)),
        decreases xs.len() - i,
    {
        assert(xs@.take(i + 1).drop_last() =~= xs@.take(i as int));
        push_sep(out, i);
        push(out, "[");
        write_value(out, xs[i].0);
        push(out, ", ");
        write_block_ref(out, xs[i].1);
        push(out, "]");
        assert(out@ =~= old(out)@ + incomings_text(xs@.take(i + 1)));
        i += 1;
    }
    assert(xs@.take(i as int) =~= xs@);
}

/// Switch cases: `key -> bN`, comma separated.
pub open spec fn cases_text(cs: Seq<(ConstValue, BlockId)>) -> Seq<char>
    decreases cs.len(),
{
    if cs.len() == 0 {
        seq![]
    } else {
        cases_text(cs.drop_last()) + sep(cs.len() - 1) + const_text(cs.last().0) + " -> "@
            + block_ref_text(cs.last().1)
    }
}

fn write_cases(out: &mut String, cs: &Vec<(ConstValue, BlockId)>)
    ensures
        final(out)@ == old(out)@ + cases_text(cs@),
{
    let mut i: usize = 0;
    assert(cs@.take(0) =~= Seq::<(ConstValue, BlockId)>::empty());
    while i < cs.len()
        invariant
            0 <= i <= cs.len(),
            out@ == old(out)@ + cases_text(cs@.take(i as int)),
        decreases cs.len() - i,
    {
        assert(cs@.take(i + 1).drop_last() =~= cs@.take(i as int));
        push_sep(out, i);
        write_const(out, &cs[i].0);
        push(out, " -> ");
        write_block_ref(out, cs[i].1);
        assert(out@ =~= old(out)@ + cases_text(cs@.take(i + 1)));
        i += 1;
    }
    assert(cs@.take(i as int) =~= cs@);
}

/// `%N = ` before a call that has a result.
pub open spec fn call_dst_text(dst: Option<ValueId>) -> Seq<char> {
    match dst {
        Some(d) => value_text(d) + " = "@,
        None => seq![],
    }
}

/// A called symbol `@name`, or a called value.
pub open spec fn callee_text(c: Callee) -> Seq<char> {
    match c {
        Callee::Symbol(s) => "@"@ + s@,
        Callee::Value(v) => value_text(v),
    }
}

/// One instruction, without indentation or line end.
pub open spec fn instr_text(ins: Instruction) -> Seq<char> {
    match ins {
        Instruction::ConstDecl { dst, name, expression, value } => value_text(dst)
            + " = const_decl \""@ + name@ + "\" "@ + expr_text(expression@) + " -> "@ + const_text(
            value,
        ),
        Instruction::Const { dst, ty, value } => value_text(dst) + " = const "@ + type_text(ty@)
            + " "@ + const_text(value),
        Instruction::Undef { dst, ty } => value_text(dst) + " = undef "@ + type_text(ty@),
        Instruction::Mov { dst, ty, src } => value_text(dst) + " = mov "@ + type_text(ty@) + " "@
            + value_text(src),
        Instruction::Bin { dst, op, ty, lhs, rhs } => value_text(dst) + " = "@ + binop_name(op)
            + " "@ + type_text(ty@) + " "@ + value_text(lhs) + ", "@ + value_text(rhs),
        Instruction::Not { dst, ty, src } => value_text(dst) + " = not "@ + type_text(ty@) + " "@
            + value_text(src),
        Instruction::Cmp { dst, op, ty, lhs, rhs } => value_text(dst) + " = cmp "@ + compare_name(op)
            + " "@ + type_text(ty@) + " "@ + value_text(lhs) + ", "@ + value_text(rhs),
        Instruction::ICmp { dst, pred, ty, lhs, rhs } => value_text(dst) + " = icmp "@
            + int_pred_name(pred) + " "@ + type_text(ty@) + " "@ + value_text(lhs) + ", "@
            + value_text(rhs),
        Instruction::FCmp { dst, pred, ty, lhs, rhs } => value_text(dst) + " = fcmp "@
            + float_pred_name(pred) + " "@ + type_text(ty@) + " "@ + value_text(lhs) + ", "@
            + value_text(rhs),
        Instruction::Select { dst, ty, cond, on_true, on_false } => value_text(dst) + " = select "@
            + type_text(ty@) + " "@ + value_text(cond) + ", "@ + value_text(on_true) + ", "@
            + value_text(on_false),
        Instruction::Cast { dst, op, src_ty, src, dst_ty } => value_text(dst) + " = "@ + cast_name(
            op,
        ) + " "@ + type_text(src_ty@) + " "@ + value_text(src) + " to "@ + type_text(dst_ty@),
        Instruction::Phi { dst, ty, incomings } => value_text(dst) + " = phi "@ + type_text(ty@)
            + " "@ + incomings_text(incomings@),
        Instruction::Extract { dst, tuple_ty, dst_ty, tuple, index } => value_text(dst)
            + " = extract "@ + type_text(tuple_ty@) + " "@ + value_text(tuple) + ", "@ + dec_text(
            index as nat,
        ) + " : "@ + type_text(dst_ty@),
        Instruction::Checked { dst, op, ty, lhs, rhs } => value_text(dst) + " = checked "@
            + checked_name(op) + " "@ + type_text(ty@) + " "@ + value_text(lhs) + ", "@ + value_text(
            rhs,
        ),
        Instruction::Alloca { dst, ty, align } => value_text(dst) + " = alloca "@ + type_text(ty@)
            + ", align "@ + dec_text(align as nat),
        Instruction::Load { dst, ty, ptr, align } => value_text(dst) + " = load "@ + type_text(ty@)
            + ", "@ + value_text(ptr) + ", align "@ + dec_text(align as nat),
        Instruction::Store { ty, ptr, value, align } => "store "@ + type_text(ty@) + " "@
            + value_text(value) + ", "@ + value_text(ptr) + ", align "@ + dec_text(align as nat),
        Instruction::Gep { dst, dst_ty, base_ptr, indices } => value_text(dst) + " = gep "@
            + type_text(dst_ty@) + " "@ + value_text(base_ptr) + values_suffix(indices@),
        Instruction::Memcpy { dst, src, n, align } => "memcpy "@ + value_text(dst) + ", "@
            + value_text(src) + ", "@ + value_text(n) + ", align "@ + dec_text(align as nat),
        Instruction::Memset { dst, val, n, align } => "memset "@ + value_text(dst) + ", "@
            + value_text(val) + ", "@ + value_text(n) + ", align "@ + dec_text(align as nat),
        Instruction::Call { dst, ret_ty, callee, args } => call_dst_text(dst) + "call "@ + type_text(
            ret_ty@,
        ) + " "@ + callee_text(callee) + "("@ + values_text(args@) + ")"@,
        Instruction::TrapIf { cond, reason } => "trap_if "@ + value_text(cond) + ", \""@ + reason@
            + "\""@,
    }
}

fn write_const_decl(out: &mut String, ins: &Instruction)
    requires
        *ins is ConstDecl,
    ensures
        final(out)@ == old(out)@ + instr_text(*ins),
{
    match ins {
        Instruction::ConstDecl { dst, name, expression, value } => {
            write_value(out, *dst);
            push(out, " = const_decl \"");
            push(out, name.as_str());
            push(out, "\" ");
            write_expr(out, expression);
            push(out, " -> ");
            write_const(out, value);
        },
        _ => {},
    }
    assert(final(out)@ =~= old(out)@ + instr_text(*ins));
}

fn write_const_instr(out: &mut String, ins: &Instruction)
    requires
        *ins is Const,
    ensures
        final(out)@ == old(out)@ + instr_text(*ins),
{
    match ins {
        Instruction::Const { dst, ty, value } => {
            write_value(out, *dst);
            push(out, " = const ");
            write_type(out, ty);
            push(out, " ");
            write_const(out, value);
        },
        _ => {},
    }
    assert(final(out)@ =~= old(out)@ + instr_text(*ins));
}

fn write_undef(out: &mut String, ins: &Instruction)
    requires
        *ins is Undef,
    ensures
        final(out)@ == old(out)@ + instr_text(*ins),
{
    match ins {
        Instruction::Undef { dst, ty } => {
            write_value(out, *dst);
            push(out, " = undef ");
            write_type(out, ty);
        },
        _ => {},
    }
    assert(final(out)@ =~= old(out)@ + instr_text(*ins));
}

fn write_mov(out: &mut String, ins: &Instruction)
    requires
        *ins is Mov,
    ensures
        final(out)@ == old(out)@ + instr_text(*ins),
{
    match ins {
        Instruction::Mov { dst, ty, src } => {
            write_value(out, *dst);
            push(out, " = mov ");
            write_type(out, ty);
            push(out, " ");
            write_value(out, *src);
        },
        _ => {},
    }
    assert(final(out)@ =~= old(out)@ + instr_text(*ins));
}

fn write_bin(out: &mut String, ins: &Instruction)
    requires
        *ins is Bin,
    ensures
        final(out)@ == old(out)@ + instr_text(*ins),
{
    match ins {
        Instruction::Bin { dst, op, ty, lhs, rhs } => {
            write_value(out, *dst);
            push(out, " = ");
            push(out, binop_str(*op));
            push(out, " ");
            write_type(out, ty);
            push(out, " ");
            write_value(out, *lhs);
            push(out, ", ");
            write_value(out, *rhs);
        },
        _ => {},
    }
    assert(final(out)@ =~= old(out)@ + instr_text(*ins));
}

fn write_not(out: &mut String, ins: &Instruction)
    requires
        *ins is Not,
    ensures
        final(out)@ == old(out)@ + instr_text(*ins),
{
    match ins {
        Instruction::Not { dst, ty, src } => {
            write_value(out, *dst);
            push(out, " = not ");
            write_type(out, ty);
            push(out, " ");
            write_value(out, *src);
        },
        _ => {},
    }
    assert(final(out)@ =~= old(out)@ + instr_text(*ins));
}

fn write_cmp(out: &mut String, ins: &Instruction)
    requires
        *ins is Cmp,
    ensures
        final(out)@ == old(out)@ + instr_text(*ins),
{
    match ins {
        Instruction::Cmp { dst, op, ty, lhs, rhs } => {
            write_value(out, *dst);
            push(out, " = cmp ");
            push(out, compare_str(*op));
            push(out, " ");
            write_type(out, ty);
            push(out, " ");
            write_value(out, *lhs);
            push(out, ", ");
            write_value(out, *rhs);
        },
        _ => {},
    }
    assert(final(out)@ =~= old(out)@ + instr_text(*ins));
}

fn write_i_cmp(out: &mut String, ins: &Instruction)
    requires
        *ins is ICmp,
    ensures
        final(out)@ == old(out)@ + instr_text(*ins),
{
    match ins {
        Instruction::ICmp { dst, pred, ty, lhs, rhs } => {
            write_value(out, *dst);
            push(out, " = icmp ");
            push(out, int_pred_str(*pred));
            push(out, " ");
            write_type(out, ty);
            push(out, " ");
            write_value(out, *lhs);
            push(out, ", ");
            write_value(out, *rhs);
        },
        _ => {},
    }
    assert(final(out)@ =~= old(out)@ + instr_text(*ins));
}

fn write_f_cmp(out: &mut String, ins: &Instruction)
    requires
        *ins is FCmp,
    ensures
        final(out)@ == old(out)@ + instr_text(*ins),
{
    match ins {
        Instruction::FCmp { dst, pred, ty, lhs, rhs } => {
            write_value(out, *dst);
            push(out, " = fcmp ");
            push(out, float_pred_str(*pred));
            push(out, " ");
            write_type(out, ty);
            push(out, " ");
            write_value(out, *lhs);
            push(out, ", ");
            write_value(out, *rhs);
        },
        _ => {},
    }
    assert(final(out)@ =~= old(out)@ + instr_text(*ins));
}

fn write_select(out: &mut String, ins: &Instruction)
    requires
        *ins is Select,
    ensures
        final(out)@ == old(out)@ + instr_text(*ins),
{
    match ins {
        Instruction::Select { dst, ty, cond, on_true, on_false } => {
            write_value(out, *dst);
            push(out, " = select ");
            write_type(out, ty);
            push(out, " ");
            write_value(out, *cond);
            push(out, ", ");
            write_value(out, *on_true);
            push(out, ", ");
            write_value(out, *on_false);
        },
        _ => {},
    }
    assert(final(out)@ =~= old(out)@ + instr_text(*ins));
}

fn write_cast(out: &mut String, ins: &Instruction)
    requires
        *ins is Cast,
    ensures
        final(out)@ == old(out)@ + instr_text(*ins),
{
    match ins {
        Instruction::Cast { dst, op, src_ty, src, dst_ty } => {
            write_value(out, *dst);
            push(out, " = ");
            push(out, cast_str(*op));
            push(out, " ");
            write_type(out, src_ty);
            push(out, " ");
            write_value(out, *src);
            push(out, " to ");
            write_type(out, dst_ty);
        },
        _ => {},
    }
    assert(final(out)@ =~= old(out)@ + instr_text(*ins));
}

fn write_phi(out: &mut String, ins: &Instruction)
    requires
        *ins is Phi,
    ensures
        final(out)@ == old(out)@ + instr_text(*ins),
{
    match ins {
        Instruction::Phi { dst, ty, incomings } => {
            write_value(out, *dst);
            push(out, " = phi ");
            write_type(out, ty);
            push(out, " ");
            write_incomings(out, incomings);
        },
        _ => {},
    }
    assert(final(out)@ =~= old(out)@ + instr_text(*ins));
}

fn write_extract(out: &mut String, ins: &Instruction)
    requires
        *ins is Extract,
    ensures
        final(out)@ == old(out)@ + instr_text(*ins),
{
    match ins {
        Instruction::Extract { dst, tuple_ty, dst_ty, tuple, index } => {
            write_value(out, *dst);
            push(out, " = extract ");
            write_type(out, tuple_ty);
            push(out, " ");
            write_value(out, *tuple);
            push(out, ", ");
            push_decimal(out, *index as u128);
            push(out, " : ");
            write_type(out, dst_ty);
        },
        _ => {},
    }
    assert(final(out)@ =~= old(out)@ + instr_text(*ins));
}

fn write_checked(out: &mut String, ins: &Instruction)
    requires
        *ins is Checked,
    ensures
        final(out)@ == old(out)@ + instr_text(*ins),
{
    match ins {
        Instruction::Checked { dst, op, ty, lhs, rhs } => {
            write_value(out, *dst);
            push(out, " = checked ");
            push(out, checked_str(*op));
            push(out, " ");
            write_type(out, ty);
            push(out, " ");
            write_value(out, *lhs);
            push(out, ", ");
            write_value(out, *rhs);
        },
        _ => {},
    }
    assert(final(out)@ =~= old(out)@ + instr_text(*ins));
}

fn write_alloca(out: &mut String, ins: &Instruction)
    requires
        *ins is Alloca,
    ensures
        final(out)@ == old(out)@ + instr_text(*ins),
{
    match ins {
        Instruction::Alloca { dst, ty, align } => {
            write_value(out, *dst);
            push(out, " = alloca ");
            write_type(out, ty);
            push(out, ", align ");
            push_decimal(out, *align as u128);
        },
        _ => {},
    }
    assert(final(out)@ =~= old(out)@ + instr_text(*ins));
}

fn write_load(out: &mut String, ins: &Instruction)
    requires
        *ins is Load,
    ensures
        final(out)@ == old(out)@ + instr_text(*ins),
{
    match ins {
        Instruction::Load { dst, ty, ptr, align } => {
            write_value(out, *dst);
            push(out, " = load ");
            write_type(out, ty);
            push(out, ", ");
            write_value(out, *ptr);
            push(out, ", align ");
            push_decimal(out, *align as u128);
        },
        _ => {},
    }
    assert(final(out)@ =~= old(out)@ + instr_text(*ins));
}

fn write_store(out: &mut String, ins: &Instruction)
    requires
        *ins is Store,
    ensures
        final(out)@ == old(out)@ + instr_text(*ins),
{
    match ins {
        Instruction::Store { ty, ptr, value, align } => {
            push(out, "store ");
            write_type(out, ty);
            push(out, " ");
            write_value(out, *value);
            push(out, ", ");
            write_value(out, *ptr);
            push(out, ", align ");
            push_decimal(out, *align as u128);
        },
        _ => {},
    }
    assert(final(out)@ =~= old(out)@ + instr_text(*ins));
}

fn write_gep(out: &mut String, ins: &Instruction)
    requires
        *ins is Gep,
    ensures
        final(out)@ == old(out)@ + instr_text(*ins),
{
    match ins {
        Instruction::Gep { dst, dst_ty, base_ptr, indices } => {
            write_value(out, *dst);
            push(out, " = gep ");
            write_type(out, dst_ty);
            push(out, " ");
            write_value(out, *base_ptr);
            write_values_suffix(out, indices);
        },
        _ => {},
    }
    assert(final(out)@ =~= old(out)@ + instr_text(*ins));
}

fn write_memcpy(out: &mut String, ins: &Instruction)
    requires
        *ins is Memcpy,
    ensures
        final(out)@ == old(out)@ + instr_text(*ins),
{
    match ins {
        Instruction::Memcpy { dst, src, n, align } => {
            push(out, "memcpy ");
            write_value(out, *dst);
            push(out, ", ");
            write_value(out, *src);
            push(out, ", ");
            write_value(out, *n);
            push(out, ", align ");
            push_decimal(out, *align as u128);
        },
        _ => {},
    }
    assert(final(out)@ =~= old(out)@ + instr_text(*ins));
}

fn write_memset(out: &mut String, ins: &Instruction)
    requires
        *ins is Memset,
    ensures
        final(out)@ == old(out)@ + instr_text(*ins),
{
    match ins {
        Instruction::Memset { dst, val, n, align } => {
            push(out, "memset ");
            write_value(out, *dst);
            push(out, ", ");
            write_value(out, *val);
            push(out, ", ");
            write_value(out, *n);
            push(out, ", align ");
            push_decimal(out, *align as u128);
        },
        _ => {},
    }
    assert(final(out)@ =~= old(out)@ + instr_text(*ins));
}

fn write_call(out: &mut String, ins: &Instruction)
    requires
        *ins is Call,
    ensures
        final(out)@ == old(out)@ + instr_text(*ins),
{
    match ins {
        Instruction::Call { dst, ret_ty, callee, args } => {
            match dst {
                Some(d) => {
                    write_value(out, *d);
                    push(out, " = ");
                },
                None => {
                    assert(out@ =~= old(out)@ + call_dst_text(*dst));
                },
            }
            assert(out@ =~= old(out)@ + call_dst_text(*dst));
            push(out, "call ");
            write_type(out, ret_ty);
            push(out, " ");
            let ghost before_callee = out@;
            match callee {
                Callee::Symbol(name) => {
                    push(out, "@");
                    push(out, name.as_str());
                },
                Callee::Value(v) => write_value(out, *v),
            }
            assert(out@ =~= before_callee + callee_text(*callee));
            push(out, "(");
            write_values(out, args);
            push(out, ")");
        },
        _ => {},
    }
    assert(final(out)@ =~= old(out)@ + instr_text(*ins));
}

fn write_trap_if(out: &mut String, ins: &Instruction)
    requires
        *ins is TrapIf,
    ensures
        final(out)@ == old(out)@ + instr_text(*ins),
{
    match ins {
        Instruction::TrapIf { cond, reason } => {
            push(out, "trap_if ");
            write_value(out, *cond);
            push(out, ", \"");
            push(out, reason.as_str());
            push(out, "\"");
        },
        _ => {},
    }
    assert(final(out)@ =~= old(out)@ + instr_text(*ins));
}

fn write_instr(out: &mut String, ins: &Instruction)
    ensures
        final(out)@ == old(out)@ + instr_text(*ins),
{
    match ins {
        Instruction::ConstDecl { .. } => write_const_decl(out, ins),
        Instruction::Const { .. } => write_const_instr(out, ins),
        Instruction::Undef { .. } => write_undef(out, ins),
        Instruction::Mov { .. } => write_mov(out, ins),
        Instruction::Bin { .. } => write_bin(out, ins),
        Instruction::Not { .. } => write_not(out, ins),
        Instruction::Cmp { .. } => write_cmp(out, ins),
        Instruction::ICmp { .. } => write_i_cmp(out, ins),
        Instruction::FCmp { .. } => write_f_cmp(out, ins),
        Instruction::Select { .. } => write_select(out, ins),
        Instruction::Cast { .. } => write_cast(out, ins),
        Instruction::Phi { .. } => write_phi(out, ins),
        Instruction::Extract { .. } => write_extract(out, ins),
        Instruction::Checked { .. } => write_checked(out, ins),
        Instruction::Alloca { .. } => write_alloca(out, ins),
        Instruction::Load { .. } => write_load(out, ins),
        Instruction::Store { .. } => write_store(out, ins),
        Instruction::Gep { .. } => write_gep(out, ins),
        Instruction::Memcpy { .. } => write_memcpy(out, ins),
        Instruction::Memset { .. } => write_memset(out, ins),
        Instruction::Call { .. } => write_call(out, ins),
        Instruction::TrapIf { .. } => write_trap_if(out, ins),
    }
}

/// A terminator, without indentation or line end.
pub open spec fn terminator_text(t: Terminator) -> Seq<char> {
    match t {
        Terminator::Br { target } => "br "@ + block_ref_text(target),
        Terminator::CBr { cond, then_bb, else_bb } => "cbr "@ + value_text(cond) + ", "@
            + block_ref_text(then_bb) + ", "@ + block_ref_text(else_bb),
        Terminator::Switch { ty, value, default_bb, cases } => "switch "@ + type_text(ty@) + " "@
            + value_text(value) + ", default "@ + block_ref_text(default_bb) + " ["@ + cases_text(
            cases@,
        ) + "]"@,
        Terminator::Ret { ty, value } => "ret "@ + type_text(ty@) + match value {
            Some(v) => " "@ + value_text(v),
            None => seq![],
        },
        Terminator::Trap { reason } => "trap \""@ + reason@ + "\""@,
    }
}

fn write_terminator(out: &mut String, t: &Terminator)
    ensures
        final(out)@ == old(out)@ + terminator_text(*t),
{
    match t {
        Terminator::Br { target } => {
            push(out, "br ");
            write_block_ref(out, *target);
        },
        Terminator::CBr { cond, then_bb, else_bb } => {
            push(out, "cbr ");
            write_value(out, *cond);
            push(out, ", ");
            write_block_ref(out, *then_bb);
            push(out, ", ");
            write_block_ref(out, *else_bb);
        },
        Terminator::Switch { ty, value, default_bb, cases } => {
            push(out, "switch ");
            write_type(out, ty);
            push(out, " ");
            write_value(out, *value);
            push(out, ", default ");
            write_block_ref(out, *default_bb);
            push(out, " [");
            write_cases(out, cases);
            push(out, "]");
        },
        Terminator::Ret { ty, value } => {
            push(out, "ret ");
            write_type(out, ty);
            let ghost mid = out@;
            match value {
                Some(v) => {
                    push(out, " ");
                    write_value(out, *v);
                },
                None => {
                    assert(out@ =~= mid + Seq::<char>::empty());
                },
            }
        },
        Terminator::Trap { reason } => {
            push(out, "trap \"");
            push(out, reason.as_str());
            push(out, "\"");
        },
    }
    assert(final(out)@ =~= old(out)@ + terminator_text(*t));
}

// ---------------------------------------------------------------- blocks, functions, module

/// Instructions, one per indented line.
pub open spec fn instrs_text(xs: Seq<Instruction>) -> Seq<char>
    decreases xs.len(),
{
    if xs.len() == 0 {
        seq![]
    } else {
        instrs_text(xs.drop_last()) + "  "@ + instr_text(xs.last()) + "\n"@
    }
}

/// A block: its label line, its instructions and its terminator (or a note
/// that it has none).
pub open spec fn block_text(b: BasicBlock) -> Seq<char> {
    block_ref_text(b.id) + " "@ + b.name@ + ":\n"@ + instrs_text(b.instructions@) + match b.terminator {
        Some(t) => "  "@ + terminator_text(t) + "\n"@,
        None => "  ; unterminated\n"@,
    }
}

fn write_block(out: &mut String, b: &BasicBlock)
    ensures
        final(out)@ == old(out)@ + block_text(*b),
{
    write_block_ref(out, b.id);
    push(out, " ");
    push(out, b.name.as_str());
    push(out, ":\n");
    let ghost head = out@;
    let xs = &b.instructions;
    let mut i: usize = 0;
    assert(xs@.take(0) =~= Seq::<Instruction>::empty());
    assert(out@ =~= head + instrs_text(xs@.take(0)));
    while i < xs.len()
        invariant
            0 <= i <= xs.len(),
            out@ == head + instrs_text(xs@.take(i as int)),
        decreases xs.len() - i,
    {
        assert(xs@.take(i + 1).drop_last() =~= xs@.take(i as int));
        push(out, "  ");
        write_instr(out, &xs[i]);
        push(out, "\n");
        assert(out@ =~= head + instrs_text(xs@.take(i + 1)));
        i += 1;
    }
    assert(xs@.take(i as int) =~= xs@);
    match &b.terminator {
        Some(t) => {
            push(out, "  ");
            write_terminator(out, t);
            push(out, "\n");
        },
        None => push(out, "  ; unterminated\n"),
    }
    assert(final(out)@ =~= old(out)@ + block_text(*b));
}

/// Parameters: `T %N "name"`, comma separated.
pub open spec fn params_text(ps: Seq<crate::ir::module::Param>) -> Seq<char>
    decreases ps.len(),
{
    if ps.len() == 0 {
        seq![]
    } else {
        params_text(ps.drop_last()) + sep(ps.len() - 1) + type_text(ps.last().ty@) + " "@
            + value_text(ps.last().id) + " \""@ + ps.last().name@ + "\""@
    }
}

/// Blocks in storage order.
pub open spec fn blocks_text(bs: Seq<BasicBlock>) -> Seq<char>
    decreases bs.len(),
{
    if bs.len() == 0 {
        seq![]
    } else {
        blocks_text(bs.drop_last()) + block_text(bs.last())
    }
}

/// A function: its header, then every block, including unreachable ones.
pub open spec fn function_text(f: Function) -> Seq<char> {
    "fn @"@ + f.name@ + "("@ + params_text(f.params@) + ") -> "@ + type_text(f.ret_ty@)
        + ", entry "@ + block_ref_text(f.entry) + " {\n"@ + blocks_text(f.blocks@) + "}\n"@
}

fn write_function(out: &mut String, f: &Function)
    ensures
        final(out)@ == old(out)@ + function_text(*f),
{
    push(out, "fn @");
    push(out, f.name.as_str());
    push(out, "(");
    let ghost head = out@;
    let ps = &f.params;
    let mut i: usize = 0;
    assert(ps@.take(0) =~= Seq::<crate::ir::module::Param>::empty());
    assert(out@ =~= head + params_text(ps@.take(0)));
    while i < ps.len()
        invariant
            0 <= i <= ps.len(),
            out@ == head + params_text(ps@.take(i as int)),
        decreases ps.len() - i,
    {
        assert(ps@.take(i + 1).drop_last() =~= ps@.take(i as int));
        push_sep(out, i);
        write_type(out, &ps[i].ty);
        push(out, " ");
        write_value(out, ps[i].id);
        push(out, " \"");
        push(out, ps[i].name.as_str());
        push(out, "\"");
        assert(out@ =~= head + params_text(ps@.take(i + 1)));
        i += 1;
    }
    assert(ps@.take(i as int) =~= ps@);
    push(out, ") -> ");
    write_type(out, &f.ret_ty);
    push(out, ", entry ");
    write_block_ref(out, f.entry);
    push(out, " {\n");
    let ghost body = out@;
    let bs = &f.blocks;
    let mut k: usize = 0;
    assert(bs@.take(0) =~= Seq::<BasicBlock>::empty());
    assert(out@ =~= body + blocks_text(bs@.take(0)));
    while k < bs.len()
        invariant
            0 <= k <= bs.len(),
            out@ == body + blocks_text(bs@.take(k as int)),
        decreases bs.len() - k,
    {
        assert(bs@.take(k + 1).drop_last() =~= bs@.take(k as int));
        write_block(out, &bs[k]);
        assert(out@ =~= body + blocks_text(bs@.take(k + 1)));
        k += 1;
    }
    assert(bs@.take(k as int) =~= bs@);
    push(out, "}\n");
    assert(final(out)@ =~= old(out)@ + function_text(*f));
}

/// A global: name and identity, type, preserved expression, value and alignment.
pub open spec fn global_text(g: Global) -> Seq<char> {
    "global @"@ + g.name@ + " "@ + global_ref_text(g.id) + ": "@ + type_text(g.ty@) + " = "@
        + expr_text(g.init_expr@) + " -> "@ + const_text(g.init) + ", align "@ + dec_text(
        g.align as nat,
    ) + "\n"@
}

fn write_global(out: &mut String, g: &Global)
    ensures
        final(out)@ == old(out)@ + global_text(*g),
{
    push(out, "global @");
    push(out, g.name.as_str());
    push(out, " ");
    write_global_ref(out, g.id);
    push(out, ": ");
    write_type(out, &g.ty);
    push(out, " = ");
    write_expr(out, &g.init_expr);
    push(out, " -> ");
    write_const(out, &g.init);
    push(out, ", align ");
    push_decimal(out, g.align as u128);
    push(out, "\n");
    assert(final(out)@ =~= old(out)@ + global_text(*g));
}

pub open spec fn globals_text(gs: Seq<Global>) -> Seq<char>
    decreases gs.len(),
{
    if gs.len() == 0 {
        seq![]
    } else {
        globals_text(gs.drop_last()) + global_text(gs.last())
    }
}

pub open spec fn functions_text(fs: Seq<Function>) -> Seq<char>
    decreases fs.len(),
{
    if fs.len() == 0 {
        seq![]
    } else {
        functions_text(fs.drop_last()) + function_text(fs.last())
    }
}

pub open spec fn endian_name(e: Endian) -> Seq<char> {
    match e {
        Endian::Little => "little"@,
        Endian::Big => "big"@,
    }
}

/// The printed module: a header with the printed-IR format version, the
/// semantics version, the target and the layout, then globals and functions.
pub open spec fn module_text(m: Module) -> Seq<char> {
    "whale_ir format_version 1\n  semantics_version 1\n  target \""@ + m.target@ + "\"\n  datalayout "@
        + dec_text(m.datalayout.ptr_bits as nat) + " "@ + endian_name(m.datalayout.endian) + "\n"@
        + globals_text(m.globals@) + functions_text(m.functions@)
}

/// Print a module.
pub fn print_module(m: &Module) -> (r: String)
    ensures
        r@ == module_text(*m),
{
    let mut out = String::new();
    push(&mut out, "whale_ir format_version 1\n  semantics_version 1\n  target \"");
    push(&mut out, m.target.as_str());
    push(&mut out, "\"\n  datalayout ");
    push_decimal(&mut out, m.datalayout.ptr_bits as u128);
    push(&mut out, " ");
    match m.datalayout.endian {
        Endian::Little => push(&mut out, "little"),
        Endian::Big => push(&mut out, "big"),
    }
    push(&mut out, "\n");
    let ghost head = out@;
    let gs = &m.globals;
    let mut i: usize = 0;
    assert(gs@.take(0) =~= Seq::<Global>::empty());
    assert(out@ =~= head + globals_text(gs@.take(0)));
    while i < gs.len()
        invariant
            0 <= i <= gs.len(),
            out@ == head + globals_text(gs@.take(i as int)),
        decreases gs.len() - i,
    {
        assert(gs@.take(i + 1).drop_last() =~= gs@.take(i as int));
        write_global(&mut out, &gs[i]);
        assert(out@ =~= head + globals_text(gs@.take(i + 1)));
        i += 1;
    }
    assert(gs@.take(i as int) =~= gs@);
    let ghost mid = out@;
    let fs = &m.functions;
    let mut k: usize = 0;
    assert(fs@.take(0) =~= Seq::<Function>::empty());
    assert(out@ =~= mid + functions_text(fs@.take(0)));
    while k < fs.len()
        invariant
            0 <= k <= fs.len(),
            out@ == mid + functions_text(fs@.take(k as int)),
        decreases fs.len() - k,
    {
        assert(fs@.take(k + 1).drop_last() =~= fs@.take(k as int));
        write_function(&mut out, &fs[k]);
        assert(out@ =~= mid + functions_text(fs@.take(k + 1)));
        k += 1;
    }
    assert(fs@.take(k as int) =~= fs@);
    assert(out@ =~= module_text(*m));
    out
}

} // verus!
