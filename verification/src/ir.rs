pub mod types;
pub mod nodes;
pub mod sym;
