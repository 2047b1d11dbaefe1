pub mod instruction;
pub mod kws;
