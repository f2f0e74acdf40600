//! Architectures: their errors and the ARM instruction sets.
pub mod arm;
pub mod errors;
