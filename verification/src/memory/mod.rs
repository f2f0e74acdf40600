//! Memory models.
pub mod array_memory;
pub mod byte_addressable;
pub mod errors;
pub use array_memory::ArrayMemory;
pub use errors::{to_bytes, to_bytes_u32, MemoryError, BITS_IN_BYTE};
