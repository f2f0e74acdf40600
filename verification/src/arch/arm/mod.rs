//! The ARM M-profile instruction sets.
pub mod isa;
pub mod registers;

pub mod v6;
pub mod v7;
