pub mod common;
pub mod config;
pub mod ast;
pub mod scanner;
pub mod parser;
pub mod sema;
pub mod typecheck;
pub mod ir;
pub mod lower;
pub mod cgen;
pub mod driver;
pub mod x86;
pub mod builder;
