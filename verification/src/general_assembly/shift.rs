//! Shift kinds of the general assembly language.
use vstd::prelude::*;

verus! {

/// The shift and rotation kinds.
#[derive(Debug, Clone, Copy, PartialEq, Eq, Structural)]
pub enum Shift {
    /// Logical shift left
    Lsl,
    /// Logical shift right
    Lsr,
    /// Arithmetic shift right
    Asr,
    /// Rotate right with extend
    Rrx,
    /// Rotate right
    Ror,
}

} // verus!
