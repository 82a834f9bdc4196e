pub mod text;
pub mod names;
pub mod vartable;
pub mod source;
pub mod error;
pub mod arith;
