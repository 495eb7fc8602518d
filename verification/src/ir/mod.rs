//! The typed intermediate representation: types, constants, modules, their
//! construction, layout, validity checks, lowering and printing.
pub mod builder;
pub mod census;
pub mod const_expr;
pub mod constant;
pub mod float;
pub mod layout;
pub mod lower_ast;
pub mod module;
pub mod printer;
pub mod types;
pub mod validity;

pub use builder::{FunctionBuilder, ModuleBuilder};
pub use const_expr::{
    ConstBinaryOp, ConstBinding, ConstCompareOp, ConstEvalError, ConstExpr, ConstExprKind, ConstRef,
};
pub use constant::valid_constant;
pub use layout::{allocation_align, layout_of, layout_of_with_limit, pointer_stride, LayoutError, TypeLayout};
pub use module::{
    BasicBlock, BinOp, Callee, CastOp, CheckedOp, CmpOp, FCmpPred, Function, Global, ICmpPred,
    Instruction, Module, Param, Terminator,
};
pub use printer::print_module;
pub use types::{BlockId, ConstValue, FloatBits, GlobalId, Type, ValueId};
pub use validity::{verify_module, VerifyError};
pub use crate::target::{DataLayout, Endian, Machine, ObjectFormat, ObjectTarget, Target, TargetError};
