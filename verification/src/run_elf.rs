//! Settings of a run over an ELF file.
use vstd::prelude::*;

verus! {

/// For which paths the solver is asked for concrete values.
#[derive(Debug, Clone, Copy, PartialEq, Eq, Structural)]
pub enum SolveFor {
    /// All paths.
    All,
    /// Paths that end in an error.
    Error,
    /// Paths that end successfully.
    Success,
}

/// What a run over an ELF file reports.
#[derive(Debug, Clone, Copy, PartialEq, Eq, Structural)]
pub struct RunConfig {
    /// Which paths the solver is invoked on.
    pub solve_for: SolveFor,
    /// Whether concrete inputs are shown.
    pub solve_inputs: bool,
    /// Whether concrete values of the values made symbolic are shown.
    pub solve_symbolics: bool,
    /// Whether concrete outputs are shown.
    pub solve_output: bool,
}

} // verus!
