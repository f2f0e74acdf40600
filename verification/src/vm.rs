//! Errors of analyses and of the bitcode executor.
use vstd::prelude::*;
use crate::memory::MemoryError;
use crate::smt::solver::SolverError;

verus! {

/// Errors of an analysis itself, as opposed to the execution.
#[derive(Clone, Debug, PartialEq, Eq, Structural)]
pub enum AnalysisError {
    Panic,
    Unreachable,
}

/// Errors of the bitcode executor.
#[derive(Clone, Debug, PartialEq, Eq)]
pub enum LLVMExecutorError {
    /// The program aborted with this code.
    Abort(i64),
    /// A function was not found.
    FunctionNotFound(String),
    /// A local register variable was not found.
    LocalNotFound(String),
    /// A type has no size.
    NoSize,
    /// An instruction is malformed.
    MalformedInstruction,
    /// An instruction is not supported.
    UnsupportedInstruction(String),
    /// A size was zero where it must not be.
    UnexpectedZeroSize,
    /// There is no active stack frame.
    NoStackFrame,
    /// A memory operation failed.
    MemoryError(MemoryError),
    /// The solver failed.
    SolverError(SolverError),
}

} // verus!
