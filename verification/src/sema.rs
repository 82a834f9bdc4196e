pub mod types;
pub mod type_interner;
pub mod typed;
pub mod modpath;
pub mod symbols;
pub mod module;
pub mod context;
pub mod header;
