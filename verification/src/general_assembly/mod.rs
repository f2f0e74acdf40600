//! Building blocks of the general assembly language: operands, conditions,
//! shifts and the operations composed from them.
pub mod condition;
pub mod operand;
pub mod operation;
pub mod shift;
