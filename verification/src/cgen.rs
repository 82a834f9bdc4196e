pub mod nodes;
pub mod emit;
pub mod c;
pub mod translation;
