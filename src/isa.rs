pub mod decoder;
pub mod instructions;
