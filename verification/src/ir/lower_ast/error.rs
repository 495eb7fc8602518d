//! Why a program cannot be lowered.
use vstd::prelude::*;
use crate::ir::layout::LayoutError;
use crate::ir::types::{ConstValue, Type};
use crate::target::TargetError;

verus! {

#[derive(Debug)]
pub enum LowerError {
    NumericLiteral(String),
    Target(TargetError),
    Layout(LayoutError),
    UnsupportedType(String),
    UnknownVariable(String),
    TypeMismatch { expected: Type, got: Type },
    MissingInit(String),
    UnsupportedStmt,
    UnsupportedExpr,
    BreakOutsideLoop,
    ContinueOutsideLoop,
    DuplicateGlobal(String),
    DuplicateFunction(String),
    DuplicateParameter { func: String, param: String },
    ValueReturnedFromVoid,
    InvalidLiteral { ty: Type, value: ConstValue },
    AssignToConst(String),
    NonConstExpr,
}

} // verus!
