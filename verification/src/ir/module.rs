//! The IR module: globals, functions, blocks, instructions and terminators.
use vstd::prelude::*;
use vstd::string::*;
use crate::ir::const_expr::ConstExpr;
use crate::ir::types::{BlockId, ConstValue, FloatBits, GlobalId, Type, ValueId};
use crate::target::DataLayout;

verus! {

#[derive(Clone, Copy, Debug, PartialEq, Eq, Structural)]
pub enum BinOp {
    Add,
    Sub,
    Mul,
    SDiv,
    UDiv,
    SRem,
    URem,
    And,
    Or,
    Xor,
    Shl,
    LShr,
    AShr,
    FAdd,
    FSub,
    FMul,
    FDiv,
    FRem,
}

#[derive(Clone, Copy, Debug, PartialEq, Eq, Structural)]
pub enum CmpOp {
    Eq,
    Ne,
    SLt,
    SLe,
    SGt,
    SGe,
    ULt,
    ULe,
    UGt,
    UGe,
    FEq,
    FNe,
    FLt,
    FLe,
    FGt,
    FGe,
}

#[derive(Clone, Copy, Debug, PartialEq, Eq, Structural)]
pub enum ICmpPred {
    Eq,
    Ne,
    Slt,
    Sle,
    Sgt,
    Sge,
    Ult,
    Ule,
    Ugt,
    Uge,
}

#[derive(Clone, Copy, Debug, PartialEq, Eq, Structural)]
pub enum FCmpPred {
    Oeq,
    One,
    Olt,
    Ole,
    Ogt,
    Oge,
    Ueq,
    Une,
    Ult,
    Ule,
    Ugt,
    Uge,
}

/// Arithmetic that also reports whether it overflowed.
#[derive(Clone, Copy, Debug, PartialEq, Eq, Structural)]
pub enum CheckedOp {
    SAdd,
    UAdd,
    SSub,
    USub,
    SMul,
    UMul,
}

#[derive(Clone, Copy, Debug, PartialEq, Eq, Structural)]
pub enum CastOp {
    Trunc,
    ZExt,
    SExt,
    FpTrunc,
    FpExt,
    FpToSi,
    FpToUi,
    SiToFp,
    UiToFp,
    PtrToInt,
    IntToPtr,
    Bitcast,
}

#[derive(Clone, Debug)]
pub enum Callee {
    Symbol(String),
    Value(ValueId),
}

#[derive(Clone, Debug)]
pub enum Instruction {
    /// A named compile-time constant with its preserved expression and value.
    ConstDecl { dst: ValueId, name: String, expression: ConstExpr, value: ConstValue },
    Const { dst: ValueId, ty: Type, value: ConstValue },
    Undef { dst: ValueId, ty: Type },
    Mov { dst: ValueId, ty: Type, src: ValueId },
    Bin { dst: ValueId, op: BinOp, ty: Type, lhs: ValueId, rhs: ValueId },
    Not { dst: ValueId, ty: Type, src: ValueId },
    Cmp { dst: ValueId, op: CmpOp, ty: Type, lhs: ValueId, rhs: ValueId },
    ICmp { dst: ValueId, pred: ICmpPred, ty: Type, lhs: ValueId, rhs: ValueId },
    FCmp { dst: ValueId, pred: FCmpPred, ty: Type, lhs: ValueId, rhs: ValueId },
    Select { dst: ValueId, ty: Type, cond: ValueId, on_true: ValueId, on_false: ValueId },
    Cast { dst: ValueId, op: CastOp, src_ty: Type, src: ValueId, dst_ty: Type },
    Phi { dst: ValueId, ty: Type, incomings: Vec<(ValueId, BlockId)> },
    Extract { dst: ValueId, tuple_ty: Type, dst_ty: Type, tuple: ValueId, index: u32 },
    Checked { dst: ValueId, op: CheckedOp, ty: Type, lhs: ValueId, rhs: ValueId },
    Alloca { dst: ValueId, ty: Type, align: u32 },
    Load { dst: ValueId, ty: Type, ptr: ValueId, align: u32 },
    Store { ty: Type, ptr: ValueId, value: ValueId, align: u32 },
    Gep { dst: ValueId, dst_ty: Type, base_ptr: ValueId, indices: Vec<ValueId> },
    Memcpy { dst: ValueId, src: ValueId, n: ValueId, align: u32 },
    Memset { dst: ValueId, val: ValueId, n: ValueId, align: u32 },
    Call { dst: Option<ValueId>, ret_ty: Type, callee: Callee, args: Vec<ValueId> },
    TrapIf { cond: ValueId, reason: String },
}

#[derive(Clone, Debug)]
pub enum Terminator {
    Br { target: BlockId },
    CBr { cond: ValueId, then_bb: BlockId, else_bb: BlockId },
    Switch { ty: Type, value: ValueId, default_bb: BlockId, cases: Vec<(ConstValue, BlockId)> },
    Ret { ty: Type, value: Option<ValueId> },
    Trap { reason: String },
}

#[derive(Clone, Debug)]
pub struct BasicBlock {
    pub id: BlockId,
    pub name: String,
    pub instructions: Vec<Instruction>,
    pub terminator: Option<Terminator>,
}

#[derive(Clone, Debug)]
pub struct Param {
    pub name: String,
    pub id: ValueId,
    pub ty: Type,
}

#[derive(Clone, Debug)]
pub struct Function {
    pub name: String,
    pub params: Vec<Param>,
    pub ret_ty: Type,
    pub blocks: Vec<BasicBlock>,
    pub entry: BlockId,
    /// The type of every parameter and instruction result, once each, in any order.
    pub value_types: Vec<(ValueId, Type)>,
}

#[derive(Clone, Debug)]
pub struct Global {
    pub id: GlobalId,
    pub name: String,
    pub ty: Type,
    pub init: ConstValue,
    pub init_expr: ConstExpr,
    pub align: u32,
}

#[derive(Clone, Debug)]
pub struct Module {
    pub target: String,
    pub datalayout: DataLayout,
    pub globals: Vec<Global>,
    pub functions: Vec<Function>,
}

/// The type first recorded for `value`.
pub open spec fn value_type_spec(types: Seq<(ValueId, Type)>, value: ValueId) -> Option<Type>
    decreases types.len(),
{
    if types.len() == 0 {
        None
    } else if types[0].0 == value {
        Some(types[0].1)
    } else {
        value_type_spec(types.drop_first(), value)
    }
}

impl Function {
    /// The type recorded for `value`.
    pub fn value_type(&self, value: ValueId) -> (r: Option<&Type>)
        ensures
            match value_type_spec(self.value_types@, value) {
                None => r is None,
                Some(t) => r matches Some(x) && *x == t,
            },
    {
        let mut i: usize = 0;
        assert(self.value_types@.skip(0) =~= self.value_types@);
        while i < self.value_types.len()
            invariant
                0 <= i <= self.value_types.len(),
                value_type_spec(self.value_types@, value) == value_type_spec(
                    self.value_types@.skip(i as int),
                    value,
                ),
            decreases self.value_types.len() - i,
        {
            proof {
                assert(self.value_types@.skip(i as int).drop_first() =~= self.value_types@.skip(
                    i + 1,
                ));
            }
            if self.value_types[i].0 == value {
                return Some(&self.value_types[i].1);
            }
            i += 1;
        }
        None
    }
}

impl Module {
    pub fn new(target: &str, datalayout: DataLayout) -> (r: Self)
        ensures
            r.target@ == target@,
            r.datalayout == datalayout,
            r.globals.len() == 0,
            r.functions.len() == 0,
    {
        Module {
            target: String::from_str(target),
            datalayout,
            globals: Vec::new(),
            functions: Vec::new(),
        }
    }
}

} // verus!
