//! Symbolic execution of ARM Cortex-M machine code.
//!
//! The crate is built from a small intermediate language ("general assembly"),
//! a bit-vector expression engine with a precise semantics, a byte addressable
//! symbolic memory and the executor state that runs general assembly
//! instructions over those expressions.
pub mod general_assembly;
pub mod smt;
pub mod symex;
pub mod memory;
pub mod symex_lib;
pub mod dut;
pub mod arch;
pub mod run_elf;
pub mod vm;
