//! Link-time layout and symbol resolution.
pub mod layout;
pub mod symbol_table;
