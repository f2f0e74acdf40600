//! The configuration of a symbolic execution run: which hooks to install.
use vstd::prelude::*;
use crate::symex::project::{MemoryHookAddress, MemoryReadHook, MemoryWriteHook, PCHook, RegisterReadHook,
    RegisterWriteHook};
use crate::symex::state::owned;

verus! {

/// The hooks of a run. A program counter hook is given by a regular
/// expression over function names.
#[derive(Debug)]
pub struct RunConfig {
    /// Hooks at the start of functions whose name matches the pattern.
    pub pc_hooks: Vec<(String, PCHook)>,
    /// Hooks on register reads.
    pub register_read_hooks: Vec<(String, RegisterReadHook)>,
    /// Hooks on register writes.
    pub register_write_hooks: Vec<(String, RegisterWriteHook)>,
    /// Hooks on memory writes.
    pub memory_write_hooks: Vec<(MemoryHookAddress, MemoryWriteHook)>,
    /// Hooks on memory reads.
    pub memory_read_hooks: Vec<(MemoryHookAddress, MemoryReadHook)>,
}

impl RunConfig {
    /// A configuration without hooks.
    pub fn new() -> (r: RunConfig)
        ensures
            r.pc_hooks@.len() == 0,
            r.register_read_hooks@.len() == 0,
            r.register_write_hooks@.len() == 0,
            r.memory_write_hooks@.len() == 0,
            r.memory_read_hooks@.len() == 0,
    {
        RunConfig {
            pc_hooks: Vec::new(),
            register_read_hooks: Vec::new(),
            register_write_hooks: Vec::new(),
            memory_write_hooks: Vec::new(),
            memory_read_hooks: Vec::new(),
        }
    }
}

/// The hooks every run installs: panics end a path in a failure, a call of
/// `suppress_path` drops it.
pub fn default_pc_hooks() -> (r: Vec<(String, PCHook)>)
    ensures
        r@.len() == 5,
        r@[0].0@ == "^panic$"@ && r@[0].1 == PCHook::EndFaliure("panic"),
        r@[1].0@ == "^panic_cold_explicit$"@ && r@[1].1 == PCHook::EndFaliure("explicit panic"),
        r@[2].0@ == "^panic_bounds_check$"@ && r@[2].1 == PCHook::EndFaliure("bounds check panic"),
        r@[3].0@ == "^suppress_path$"@ && r@[3].1 == PCHook::Suppress,
        r@[4].0@ == "^unreachable_unchecked$"@ && r@[4].1 == PCHook::EndFaliure(
            "reach a unreachable unchecked call undefined behavior",
        ),
{
    vec![
        (owned("^panic$"), PCHook::EndFaliure("panic")),
        (owned("^panic_cold_explicit$"), PCHook::EndFaliure("explicit panic")),
        (owned("^panic_bounds_check$"), PCHook::EndFaliure("bounds check panic")),
        (owned("^suppress_path$"), PCHook::Suppress),
        (owned("^unreachable_unchecked$"), PCHook::EndFaliure("reach a unreachable unchecked call undefined behavior")),
    ]
}

} // verus!
