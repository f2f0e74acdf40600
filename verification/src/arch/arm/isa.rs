//! Recognising the ARM instruction set a binary was built for.
use vstd::prelude::*;
use crate::arch::errors::ArchError;
use crate::symex::project::{IntrinsicHook, MemoryHookAddress, MemoryReadHook, PCHook, RegisterReadHook,
    RegisterWriteHook};
use crate::symex::run_config::RunConfig;
use crate::symex::state::owned;

verus! {

/// The family of ARM architectures; it picks the instruction set of a binary.
#[derive(Debug)]
pub struct Arm {}

/// The ARMv6-M instruction set.
#[derive(Debug)]
pub struct ArmV6M {}

/// The ARMv7E-M instruction set.
#[derive(Debug)]
pub struct ArmV7EM {}

/// The instruction sets that can be recognised.
#[derive(Debug, Clone, Copy, PartialEq, Eq, Structural)]
pub enum ArmIsa {
    ArmV6M,
    ArmV7EM,
}

/// The instruction set named by the CPU architecture tag of an
/// `.ARM.attributes` section: its 24th byte (tag 10 and 13 are v7-M cores,
/// 12 is v6-M).
pub open spec fn isa_of_attributes(data: Seq<u8>) -> Result<ArmIsa, ArchError> {
    if data.len() < 24 {
        Err(ArchError::MalformedSection)
    } else if data[23] == 10 || data[23] == 13 {
        Ok(ArmIsa::ArmV7EM)
    } else if data[23] == 12 {
        Ok(ArmIsa::ArmV6M)
    } else {
        Err(ArchError::UnsuportedArchitechture)
    }
}

/// Reads the instruction set from the contents of an `.ARM.attributes` section.
pub fn arm_isa(data: &[u8]) -> (r: Result<ArmIsa, ArchError>)
    ensures
        r == isa_of_attributes(data@),
{
    if data.len() < 6 * 4 {
        return Err(ArchError::MalformedSection);
    }
    let f_cpu_arch: u8 = data[6 * 4 - 1];
    match f_cpu_arch {
        10 => Ok(ArmIsa::ArmV7EM),
        12 => Ok(ArmIsa::ArmV6M),
        13 => Ok(ArmIsa::ArmV7EM),
        _ => Err(ArchError::UnsuportedArchitechture),
    }
}

impl Arm {
    /// The instruction set of an ARM binary: it must be a 32 bit ELF file
    /// with an `.ARM.attributes` section, whose contents name the set.
    pub fn try_from(is_elf32: bool, attributes: Option<&[u8]>) -> (r: Result<ArmIsa, ArchError>)
        ensures
            !is_elf32 ==> r == Err::<ArmIsa, ArchError>(ArchError::IncorrectFileType),
            is_elf32 && attributes is None ==> r == Err::<ArmIsa, ArchError>(
                ArchError::MissingSection(".ARM.attributes"),
            ),
            is_elf32 && attributes is Some ==> r == isa_of_attributes(attributes.unwrap()@),
    {
        if !is_elf32 {
            return Err(ArchError::IncorrectFileType);
        }
        match attributes {
            Some(data) => arm_isa(data),
            None => Err(ArchError::MissingSection(".ARM.attributes")),
        }
    }
}

impl Default for ArmV7EM {
    fn default() -> (r: ArmV7EM) {
        ArmV7EM {}
    }
}


/// The pattern of the functions that make memory symbolic.
pub open spec fn symbolic_size_pattern() -> Seq<char> {
    "^symbolic_size<.+>$"@
}

impl ArmV6M {
    /// Adds the ARMv6-M hooks: `symbolic_size` functions run the built in
    /// routine, the register `PC+` reads as `PC + 1` and writes `PC`, and
    /// the word at `0x4000_c008` reads as all ones (a reset that is always
    /// done).
    pub fn add_hooks(&self, cfg: &mut RunConfig)
        ensures
            final(cfg).pc_hooks@ == old(cfg).pc_hooks@.push((final(cfg).pc_hooks@.last().0, PCHook::Intrinsic(
                IntrinsicHook::SymbolicSized,
            ))),
            final(cfg).pc_hooks@.last().0@ == symbolic_size_pattern(),
            final(cfg).register_read_hooks@ == old(cfg).register_read_hooks@.push(
                (final(cfg).register_read_hooks@.last().0, RegisterReadHook::PcPlusOne),
            ),
            final(cfg).register_read_hooks@.last().0@ == "PC+"@,
            final(cfg).register_write_hooks@ == old(cfg).register_write_hooks@.push(
                (final(cfg).register_write_hooks@.last().0, RegisterWriteHook::WritePc),
            ),
            final(cfg).register_write_hooks@.last().0@ == "PC+"@,
            final(cfg).memory_read_hooks@ == old(cfg).memory_read_hooks@.push(
                (MemoryHookAddress::Single(0x4000c008), MemoryReadHook::AllOnesWord),
            ),
            final(cfg).memory_write_hooks@ == old(cfg).memory_write_hooks@,
    {
        proof {
            reveal_strlit("^symbolic_size<.+>$");
            reveal_strlit("PC+");
        }
        cfg.pc_hooks.push((owned("^symbolic_size<.+>$"), PCHook::Intrinsic(IntrinsicHook::SymbolicSized)));
        cfg.register_read_hooks.push((owned("PC+"), RegisterReadHook::PcPlusOne));
        cfg.register_write_hooks.push((owned("PC+"), RegisterWriteHook::WritePc));
        cfg.memory_read_hooks.push((MemoryHookAddress::Single(0x4000c008), MemoryReadHook::AllOnesWord));
    }
}

impl ArmV7EM {
    /// Adds the ARMv7E-M hooks: `symbolic_size` functions run the built in
    /// routine, `PC+` reads as the address of the current instruction plus
    /// four and writes `PC`, `SP&` reads and writes `SP` word aligned, and
    /// the word at `0x4000_c008` reads as all ones.
    pub fn add_hooks(&self, cfg: &mut RunConfig)
        ensures
            final(cfg).pc_hooks@.len() == old(cfg).pc_hooks@.len() + 1,
            final(cfg).pc_hooks@.drop_last() == old(cfg).pc_hooks@,
            final(cfg).pc_hooks@.last().0@ == symbolic_size_pattern(),
            final(cfg).pc_hooks@.last().1 == PCHook::Intrinsic(IntrinsicHook::SymbolicSized),
            final(cfg).register_read_hooks@.len() == old(cfg).register_read_hooks@.len() + 2,
            final(cfg).register_read_hooks@.drop_last().drop_last() == old(cfg).register_read_hooks@,
            final(cfg).register_read_hooks@[old(cfg).register_read_hooks@.len() as int].0@ == "PC+"@,
            final(cfg).register_read_hooks@[old(cfg).register_read_hooks@.len() as int].1 == RegisterReadHook::LastPcPlusFour,
            final(cfg).register_read_hooks@.last().0@ == "SP&"@,
            final(cfg).register_read_hooks@.last().1 == RegisterReadHook::SpWordAligned,
            final(cfg).register_write_hooks@.len() == old(cfg).register_write_hooks@.len() + 2,
            final(cfg).register_write_hooks@.drop_last().drop_last() == old(cfg).register_write_hooks@,
            final(cfg).register_write_hooks@[old(cfg).register_write_hooks@.len() as int].0@ == "PC+"@,
            final(cfg).register_write_hooks@[old(cfg).register_write_hooks@.len() as int].1 == RegisterWriteHook::WritePc,
            final(cfg).register_write_hooks@.last().0@ == "SP&"@,
            final(cfg).register_write_hooks@.last().1 == RegisterWriteHook::WriteSpWordAligned,
            final(cfg).memory_read_hooks@ == old(cfg).memory_read_hooks@.push(
                (MemoryHookAddress::Single(0x4000c008), MemoryReadHook::AllOnesWord),
            ),
            final(cfg).memory_write_hooks@ == old(cfg).memory_write_hooks@,
    {
        proof {
            reveal_strlit("^symbolic_size<.+>$");
            reveal_strlit("PC+");
            reveal_strlit("SP&");
        }
        cfg.pc_hooks.push((owned("^symbolic_size<.+>$"), PCHook::Intrinsic(IntrinsicHook::SymbolicSized)));
        cfg.register_read_hooks.push((owned("PC+"), RegisterReadHook::LastPcPlusFour));
        cfg.register_write_hooks.push((owned("PC+"), RegisterWriteHook::WritePc));
        cfg.register_read_hooks.push((owned("SP&"), RegisterReadHook::SpWordAligned));
        cfg.register_write_hooks.push((owned("SP&"), RegisterWriteHook::WriteSpWordAligned));
        cfg.memory_read_hooks.push((MemoryHookAddress::Single(0x4000c008), MemoryReadHook::AllOnesWord));
        proof {
            assert(cfg.pc_hooks@.drop_last() =~= old(cfg).pc_hooks@);
            assert(cfg.register_read_hooks@.drop_last().drop_last() =~= old(cfg).register_read_hooks@);
            assert(cfg.register_write_hooks@.drop_last().drop_last() =~= old(cfg).register_write_hooks@);
        }
    }
}

} // verus!
