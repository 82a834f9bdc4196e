pub mod file_check;
pub mod module_check;
