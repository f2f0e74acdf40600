//! Sizes in bits and bytes, and memory errors.
use vstd::prelude::*;
use crate::smt::solver::SolverError;

verus! {

/// The number of bits in a byte.
pub const BITS_IN_BYTE: u32 = 8;

/// Errors of memory operations.
#[derive(Clone, Debug, PartialEq, Eq, Structural)]
pub enum MemoryError {
    /// An allocation of size zero.
    ZeroSizedAllocation,
    /// A number of bits that is not a whole number of bytes.
    BitsNotMultipleOfBytes(u64),
    /// A size that is not a power of two.
    NotPowerOfTwo(u64),
    /// An allocation of this many bits would overflow the address space.
    AddressSpaceExhausted(u64),
    /// A null pointer was used.
    NullPointer,
    /// An access outside of its allocation.
    OutOfBounds,
    /// An error of the solver.
    Solver(SolverError),
}

/// Converts a number of bits to a number of bytes; fails when the bits are
/// not a whole number of bytes.
pub fn to_bytes(size: u64) -> (r: Result<u64, MemoryError>)
    ensures
        size % 8 == 0 ==> r == Ok::<u64, MemoryError>(size / 8),
        size % 8 != 0 ==> r == Err::<u64, MemoryError>(MemoryError::BitsNotMultipleOfBytes(size)),
{
    if size % BITS_IN_BYTE as u64 != 0 {
        Err(MemoryError::BitsNotMultipleOfBytes(size))
    } else {
        Ok(size / 8)
    }
}

/// Converts a number of bits to a number of bytes; fails when the bits are
/// not a whole number of bytes.
pub fn to_bytes_u32(size: u32) -> (r: Result<u32, MemoryError>)
    ensures
        size % 8 == 0 ==> r == Ok::<u32, MemoryError>(size / 8),
        size % 8 != 0 ==> r == Err::<u32, MemoryError>(MemoryError::BitsNotMultipleOfBytes(size as u64)),
{
    if size % BITS_IN_BYTE != 0 {
        Err(MemoryError::BitsNotMultipleOfBytes(size as u64))
    } else {
        Ok(size / 8)
    }
}

} // verus!
