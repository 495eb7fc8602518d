//! Values and types of the word-level IR.
use vstd::prelude::*;

verus! {

#[derive(Debug)]
pub enum WIRType {
    I32,
    U32,
    F32,
    Str,
    Bool,
    Char,
    Byte,
    Ptr(Box<WIRType>),
    Array(Box<WIRType>),
}

impl WIRType {
    /// A copy of this type.
    pub fn duplicate(&self) -> (r: WIRType)
        ensures
            r == *self,
        decreases self,
    {
        match self {
            WIRType::I32 => WIRType::I32,
            WIRType::U32 => WIRType::U32,
            WIRType::F32 => WIRType::F32,
            WIRType::Str => WIRType::Str,
            WIRType::Bool => WIRType::Bool,
            WIRType::Char => WIRType::Char,
            WIRType::Byte => WIRType::Byte,
            WIRType::Ptr(t) => WIRType::Ptr(Box::new(t.duplicate())),
            WIRType::Array(t) => WIRType::Array(Box::new(t.duplicate())),
        }
    }
}

impl Clone for WIRType {
    fn clone(&self) -> (r: Self)
        ensures
            r == *self,
    {
        self.duplicate()
    }
}

#[derive(Debug)]
pub enum Value {
    Integer(i32),
    Unsigned(u32),
    /// A binary32 value by its storage bits.
    Float(u32),
    String(String),
    Boolean(bool),
    Char(char),
    Byte(u8),
    Identifier(String),
    Pointer(String),
    Array(Vec<Value>),
}

} // verus!
