//! A general assembly instruction: its operations and its timing.
use vstd::prelude::*;
use crate::general_assembly::operation::{Operation, copy_operations, is_copy_of};

verus! {

/// A cycle count that depends on the state after the instruction ran.
#[derive(Debug, Clone, Copy, PartialEq, Eq, Structural)]
pub enum CycleFunction {
    /// `taken` cycles when the instruction branched, `not_taken` otherwise.
    Branch { taken: usize, not_taken: usize },
    /// One cycle when the last accessed address lies in the single cycle
    /// I/O region `0xd000_0000 ..= 0xdfff_ffff`, two cycles otherwise.
    SingleCycleIo,
}

/// The number of cycles an instruction takes.
#[derive(Debug, Clone, Copy, PartialEq, Eq, Structural)]
pub enum CycleCount {
    /// A fixed number of cycles.
    Value(usize),
    /// A number of cycles computed from the state.
    Function(CycleFunction),
}

/// A general assembly instruction.
#[derive(Debug)]
pub struct Instruction {
    /// The size of the machine instruction in bits.
    pub instruction_size: u32,
    /// The operations, executed in order.
    pub operations: Vec<Operation>,
    /// The most cycles the instruction takes.
    pub max_cycle: CycleCount,
}

/// Whether `a` copies `b`: the same size and timing, and operations that copy
/// those of `b` one by one.
pub open spec fn is_instruction_copy(a: Instruction, b: Instruction) -> bool {
    &&& a.instruction_size == b.instruction_size
    &&& a.max_cycle == b.max_cycle
    &&& a.operations@.len() == b.operations@.len()
    &&& forall|i: int| 0 <= i < a.operations@.len() ==> is_copy_of(#[trigger] a.operations@[i], b.operations@[i])
}

impl Instruction {
    /// A copy of the instruction.
    pub fn copy(&self) -> (r: Instruction)
        ensures
            is_instruction_copy(r, *self),
    {
        Instruction {
            instruction_size: self.instruction_size,
            operations: copy_operations(&self.operations),
            max_cycle: self.max_cycle,
        }
    }
}

} // verus!
