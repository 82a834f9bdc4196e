pub mod token;
pub mod nodes;
pub mod file;
pub mod print;
