//! Errors of architecture detection and instruction decoding.
use vstd::prelude::*;

verus! {

/// Errors about the architecture of a binary.
#[derive(Debug, PartialEq, Eq, Clone)]
pub enum ArchError {
    /// The architecture is not supported.
    UnsuportedArchitechture,
    /// The file is not an ELF file.
    IncorrectFileType,
    /// A section is malformed.
    MalformedSection,
    /// A required section is missing.
    MissingSection(&'static str),
    /// Another module failed.
    ImplementorStringError(&'static str),
    /// Decoding an instruction failed.
    ParsingError(ParseError),
}

/// Errors of instruction decoding.
#[derive(Debug, PartialEq, Eq, Clone, Copy, Structural)]
pub enum ParseError {
    /// The input is too short for an instruction.
    InsufficientInput,
    /// A 32 bit instruction is too short.
    MalfromedInstruction,
    /// The opcode is not a valid instruction.
    InvalidInstruction,
    /// The instruction is unpredictable.
    Unpredictable,
    /// An invalid register.
    InvalidRegister,
    /// An invalid condition.
    InvalidCondition,
}

} // verus!
