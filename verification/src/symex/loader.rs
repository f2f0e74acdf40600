//! Assembling a project from the parts of a binary.
use vstd::prelude::*;
use crate::arch::arm::isa::{ArmIsa, ArmV6M, ArmV7EM, symbolic_size_pattern};
use crate::arch::arm::v6::instruction::V6Instruction;
use crate::symex::patterns::{construct_pc_hooks, hooks_for_all};
use crate::symex::project::{construct_memory_read_hooks, construct_memory_write, last_for, range_hooks, single_hooks,
    IntrinsicHook,
    MemoryHookAddress, MemoryReadHook, MemoryWriteHook, PCHook, Project, RegisterReadHook, RegisterWriteHook};
use crate::symex::run_config::{default_pc_hooks, RunConfig};
use crate::symex::types::{Endianness, WordSize};

verus! {

/// The function hooks of a run: the default ones, then the one of the
/// functions that make memory symbolic.
pub open spec fn run_patterns(s: Seq<(String, PCHook)>) -> bool {
    &&& s.len() == 6
    &&& s[0].0@ == "^panic$"@ && s[0].1 == PCHook::EndFaliure("panic")
    &&& s[1].0@ == "^panic_cold_explicit$"@ && s[1].1 == PCHook::EndFaliure("explicit panic")
    &&& s[2].0@ == "^panic_bounds_check$"@ && s[2].1 == PCHook::EndFaliure("bounds check panic")
    &&& s[3].0@ == "^suppress_path$"@ && s[3].1 == PCHook::Suppress
    &&& s[4].0@ == "^unreachable_unchecked$"@ && s[4].1 == PCHook::EndFaliure(
        "reach a unreachable unchecked call undefined behavior",
    )
    &&& s[5].0@ == symbolic_size_pattern() && s[5].1 == PCHook::Intrinsic(IntrinsicHook::SymbolicSized)
}

/// The register read hooks of an instruction set: `PC+` reads the program
/// counter plus one on ARMv6-M, and the address of the instruction plus four
/// on ARMv7E-M, where `SP&` also reads the stack pointer word aligned.
pub open spec fn isa_read_hooks(isa: ArmIsa, s: Seq<(String, RegisterReadHook)>) -> bool {
    match isa {
        ArmIsa::ArmV6M => s.len() == 1 && s[0].0@ == "PC+"@ && s[0].1 == RegisterReadHook::PcPlusOne,
        ArmIsa::ArmV7EM => s.len() == 2 && s[0].0@ == "PC+"@ && s[0].1 == RegisterReadHook::LastPcPlusFour
            && s[1].0@ == "SP&"@ && s[1].1 == RegisterReadHook::SpWordAligned,
    }
}

/// The register write hooks of an instruction set: `PC+` writes the
/// program counter, and on ARMv7E-M `SP&` writes the stack pointer word
/// aligned.
pub open spec fn isa_write_hooks(isa: ArmIsa, s: Seq<(String, RegisterWriteHook)>) -> bool {
    match isa {
        ArmIsa::ArmV6M => s.len() == 1 && s[0].0@ == "PC+"@ && s[0].1 == RegisterWriteHook::WritePc,
        ArmIsa::ArmV7EM => s.len() == 2 && s[0].0@ == "PC+"@ && s[0].1 == RegisterWriteHook::WritePc && s[1].0@
            == "SP&"@ && s[1].1 == RegisterWriteHook::WriteSpWordAligned,
    }
}

impl Project {
    /// A project from the parts of a binary: its code, the addresses of
    /// its first and last byte, its word size and byte order, its
    /// instruction set, its symbols, the functions that its debug
    /// information names with their start addresses, and the instructions
    /// decoded from its code. The hooks are those of the instruction set,
    /// with the default function hooks of a run.
    pub fn from_parts(
        text: Vec<u8>,
        start: u64,
        end: u64,
        word_size: WordSize,
        endianness: Endianness,
        isa: ArmIsa,
        symtab: Vec<(String, u64)>,
        functions: &Vec<(String, u64)>,
        decoded: Vec<(u64, V6Instruction)>,
    ) -> (r: Project)
        ensures
            r.code() == text@,
            r.start() == start,
            r.end() == end,
            r.word() == word_size,
            r.endian() == endianness,
            r.isa() == isa,
            r.symbols() == symtab@,
            r.decoded() == decoded@,
            exists|patterns: Seq<(String, PCHook)>| #[trigger] run_patterns(patterns)
                && r.pc_hook_entries() == hooks_for_all(patterns, functions@),
            isa_read_hooks(isa, r.register_read_hooks()),
            isa_write_hooks(isa, r.register_write_hooks()),
            forall|a: u64| #[trigger] r.memory_read_hook(a) == if a == 0x4000c008 {
                Some(MemoryReadHook::AllOnesWord)
            } else {
                None
            },
            forall|a: u64| #[trigger] r.memory_write_hook(a) is None,
    {
        let mut cfg: RunConfig = RunConfig::new();
        match isa {
            ArmIsa::ArmV6M => ArmV6M {}.add_hooks(&mut cfg),
            ArmIsa::ArmV7EM => ArmV7EM {}.add_hooks(&mut cfg),
        }
        let mut patterns: Vec<(String, PCHook)> = default_pc_hooks();
        let mut arch_patterns: Vec<(String, PCHook)> = cfg.pc_hooks;
        patterns.append(&mut arch_patterns);
        proof {
            assert(run_patterns(patterns@));
        }
        let pc_hooks: Vec<(u64, PCHook)> = construct_pc_hooks(&patterns, functions);
        let ghost read_hooks = cfg.memory_read_hooks@;
        let (single_read, range_read) = construct_memory_read_hooks(cfg.memory_read_hooks);
        let (single_write, range_write) = construct_memory_write(cfg.memory_write_hooks);
        proof {
            assert(read_hooks.drop_last() =~= Seq::<(MemoryHookAddress, MemoryReadHook)>::empty());
            assert(single_hooks(read_hooks.drop_last()) =~= Seq::<(u64, MemoryReadHook)>::empty());
            assert(range_hooks(read_hooks.drop_last()) =~= Seq::<((u64, u64), MemoryReadHook)>::empty());
            assert(single_read@ =~= seq![(0x4000c008u64, MemoryReadHook::AllOnesWord)]);
            assert(range_read@ =~= Seq::<((u64, u64), MemoryReadHook)>::empty());
            assert(single_write@ =~= Seq::<(u64, MemoryWriteHook)>::empty());
            assert(range_write@ =~= Seq::<((u64, u64), MemoryWriteHook)>::empty());
            assert forall|a: u64| #[trigger] last_for(single_read@, a) == if a == 0x4000c008 {
                Some(MemoryReadHook::AllOnesWord)
            } else {
                None
            } by {
                assert(single_read@.drop_last() =~= Seq::<(u64, MemoryReadHook)>::empty());
                assert(last_for(single_read@.drop_last(), a) is None);
            }
        }
        let mut project: Project = Project::manual_project(
            text,
            start,
            end,
            word_size,
            endianness,
            isa,
            symtab,
            pc_hooks,
            cfg.register_read_hooks,
            cfg.register_write_hooks,
            single_read,
            range_read,
            single_write,
            range_write,
        );
        let ghost all = decoded@;
        let mut rest: Vec<(u64, V6Instruction)> = decoded;
        while rest.len() > 0
            invariant
                project.decoded() + rest@ == all,
                project.code() == text@,
                project.start() == start,
                project.end() == end,
                project.word() == word_size,
                project.endian() == endianness,
                project.isa() == isa,
                project.symbols() == symtab@,
                project.pc_hook_entries() == pc_hooks@,
                isa_read_hooks(isa, project.register_read_hooks()),
                isa_write_hooks(isa, project.register_write_hooks()),
                forall|a: u64| #[trigger] project.memory_read_hook(a) == if a == 0x4000c008 {
                    Some(MemoryReadHook::AllOnesWord)
                } else {
                    None
                },
                forall|a: u64| #[trigger] project.memory_write_hook(a) is None,
            decreases rest.len(),
        {
            let ghost before = project.decoded();
            let ghost rest_before = rest@;
            let (address, instruction) = rest.remove(0);
            project.add_instruction(address, instruction);
            proof {
                assert(project.decoded() + rest@ =~= before + rest_before);
            }
        }
        proof {
            assert(project.decoded() + rest@ =~= project.decoded());
        }
        project
    }
}

} // verus!
