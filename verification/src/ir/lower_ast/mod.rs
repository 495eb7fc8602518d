//! Lowering of the typed frontend AST into explicit O0 IR.
pub mod check;
pub mod envelope;
pub mod error;
pub mod frontend;
pub mod o0;
pub mod support;

pub use error::LowerError;
pub use o0::{fits_identities, lower_o0};
