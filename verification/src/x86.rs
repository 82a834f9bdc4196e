pub mod assembly;
pub mod assemble;
pub mod reg_alloc;
