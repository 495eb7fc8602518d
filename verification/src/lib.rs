use vstd::prelude::*;

pub mod assembler;
pub mod ir;
pub mod linker;
pub mod object;
pub mod target;
pub mod text;
pub mod wir;
