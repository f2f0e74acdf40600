//! The ARMv6-M instruction set: decoded instructions, their timing and their
//! translation to general assembly.
pub mod instruction;
pub mod timing;
pub mod translate;
