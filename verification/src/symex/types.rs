//! Configuration types and errors of the executor.
use vstd::prelude::*;
use crate::memory::MemoryError;
use crate::smt::solver::SolverError;
use crate::symex::project::ProjectError;

verus! {

/// Errors of the general assembly executor.
#[derive(Clone, Debug, PartialEq, Eq)]
pub enum GAError {
    /// The program could not be read.
    ProjectError(ProjectError),
    /// A memory operation failed.
    MemoryError(MemoryError),
    /// The entry function is not in the symbol table.
    EntryFunctionNotFound(String),
    /// A write to the program's read only memory.
    WritingToStaticMemoryProhibited,
    /// The solver failed.
    SolverError(SolverError),
}

/// The word size of the target.
#[derive(Debug, Clone, Copy, PartialEq, Eq, Structural)]
pub enum WordSize {
    Bit64,
    Bit32,
    Bit16,
    Bit8,
}

impl WordSize {
    /// The number of bits in a word.
    pub open spec fn bits(self) -> nat {
        match self {
            WordSize::Bit64 => 64,
            WordSize::Bit32 => 32,
            WordSize::Bit16 => 16,
            WordSize::Bit8 => 8,
        }
    }
}

/// The byte order of the target.
#[derive(Debug, Clone, Copy, PartialEq, Eq, Structural)]
pub enum Endianness {
    Little,
    Big,
}

/// Limits of a symbolic execution run.
#[derive(Debug, Clone)]
pub struct Config {
    /// Maximum call stack depth.
    pub max_call_depth: usize,
    /// Maximum iteration count.
    pub max_iter_count: usize,
    /// Maximum number of concretizations of function pointers.
    pub max_fn_ptr_resolutions: usize,
    /// Maximum number of concretizations of a memory address.
    pub max_memory_access_resolutions: usize,
    /// Maximum number of concretizations for intrinsic functions.
    pub max_intrinsic_concretizations: usize,
}

} // verus!
