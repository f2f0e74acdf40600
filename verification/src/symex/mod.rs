//! The symbolic executor for general assembly: its configuration types,
//! errors, state and the execution of operations.
pub mod executor;
pub mod types;
pub mod named;
pub mod instruction;
pub mod bytes;
pub mod project;
pub mod state;
pub mod path_selection;
pub mod ga_executor;
pub mod vm;
pub mod segments;
pub mod target_config;
pub mod patterns;
pub mod run_config;
pub mod loader;
pub mod elf;
pub mod dwarf;
pub mod v7_runs;
pub mod v6_runs;
