//! Cycle counts of ARMv6-M instructions on the Cortex-M0 and Cortex-M0+ cores.
use vstd::prelude::*;
use crate::arch::arm::registers::Register;
use crate::arch::arm::v6::instruction::V6Operation;
use crate::symex::instruction::{CycleCount, CycleFunction};

verus! {

/// Whether an operation has a cycle count: the pseudo instruction `CPY`,
/// the hint instructions `WFE`, `WFI` and `YIELD` and the undefined
/// instruction have none.
pub open spec fn has_timing(op: V6Operation) -> bool {
    !(op is CPY || op is WFE || op is WFI || op is YIELD || op is UDF)
}

/// A number of cycles as a cycle count, which stops at the largest `usize`.
pub open spec fn saturated(n: nat) -> usize {
    if n > usize::MAX {
        usize::MAX
    } else {
        n as usize
    }
}

/// Whether the register list holds `PC`.
fn contains_pc(reg_list: &Vec<Register>) -> (r: bool)
    ensures
        r == reg_list@.contains(Register::PC),
{
    let mut i: usize = 0;
    while i < reg_list.len()
        invariant
            i <= reg_list@.len(),
            forall|j: int| 0 <= j < i ==> reg_list@[j] != Register::PC,
        decreases reg_list.len() - i,
    {
        if reg_list[i] == Register::PC {
            return true;
        }
        i = i + 1;
    }
    false
}

/// The most cycles an operation takes on a Cortex-M0+ core (the single cycle I/O port of the RP2040 makes loads and stores there take one cycle).
pub open spec fn cycles_m0plus(op: V6Operation) -> CycleCount {
    match op {
        V6Operation::ADCReg { m: _, n: _, d: _ } => CycleCount::Value(1),
        V6Operation::ADDImm { imm: _, n: _, d: _ } => CycleCount::Value(1),
        V6Operation::ADDReg { m: _, n: _, d } => CycleCount::Value(if d == Register::PC { 2 } else { 1 }),
        V6Operation::ADDImmSP { d: _, imm: _ } => CycleCount::Value(1),
        V6Operation::ADDRegSP { d: _, m: _ } => CycleCount::Value(1),
        V6Operation::ADR { d: _, imm: _ } => CycleCount::Value(1),
        V6Operation::ANDReg { m: _, dn: _ } => CycleCount::Value(1),
        V6Operation::ASRImm { imm: _, m: _, d: _ } => CycleCount::Value(1),
        V6Operation::ASRReg { m: _, dn: _ } => CycleCount::Value(1),
        V6Operation::B { cond: _, imm: _ } => CycleCount::Function(CycleFunction::Branch { taken: 2, not_taken: 1 }),
        V6Operation::BICReg { m: _, dn: _ } => CycleCount::Value(1),
        V6Operation::BKPT { imm: _ } => CycleCount::Value(0),
        V6Operation::BL { imm: _ } => CycleCount::Value(3),
        V6Operation::BLXReg { m: _ } => CycleCount::Value(2),
        V6Operation::BX { m: _ } => CycleCount::Value(2),
        V6Operation::CMNReg { m: _, n: _ } => CycleCount::Value(1),
        V6Operation::CMPImm { n: _, imm: _ } => CycleCount::Value(1),
        V6Operation::CMPReg { m: _, n: _ } => CycleCount::Value(1),
        V6Operation::CPS { im: _ } => CycleCount::Value(1),
        V6Operation::DMB { option: _ } => CycleCount::Value(3),
        V6Operation::DSB { option: _ } => CycleCount::Value(3),
        V6Operation::EORReg { m: _, dn: _ } => CycleCount::Value(1),
        V6Operation::ISB { option: _ } => CycleCount::Value(3),
        V6Operation::LDM { n: _, reg_list } => CycleCount::Value(saturated(1 + reg_list@.len())),
        V6Operation::LDRImm { imm: _, n: _, t: _ } => CycleCount::Function(CycleFunction::SingleCycleIo),
        V6Operation::LDRLiteral { t: _, imm: _ } => CycleCount::Function(CycleFunction::SingleCycleIo),
        V6Operation::LDRReg { m: _, n: _, t: _ } => CycleCount::Function(CycleFunction::SingleCycleIo),
        V6Operation::LDRBImm { imm: _, n: _, t: _ } => CycleCount::Function(CycleFunction::SingleCycleIo),
        V6Operation::LDRBReg { m: _, n: _, t: _ } => CycleCount::Function(CycleFunction::SingleCycleIo),
        V6Operation::LDRHImm { imm: _, n: _, t: _ } => CycleCount::Function(CycleFunction::SingleCycleIo),
        V6Operation::LDRHReg { m: _, n: _, t: _ } => CycleCount::Function(CycleFunction::SingleCycleIo),
        V6Operation::LDRSBReg { m: _, n: _, t: _ } => CycleCount::Function(CycleFunction::SingleCycleIo),
        V6Operation::LDRSH { m: _, n: _, t: _ } => CycleCount::Function(CycleFunction::SingleCycleIo),
        V6Operation::LSLImm { imm: _, m: _, d: _ } => CycleCount::Value(1),
        V6Operation::LSLReg { m: _, dn: _ } => CycleCount::Value(1),
        V6Operation::LSRImm { imm: _, m: _, d: _ } => CycleCount::Value(1),
        V6Operation::LSRReg { m: _, dn: _ } => CycleCount::Value(1),
        V6Operation::MOVImm { d: _, imm: _ } => CycleCount::Value(1),
        V6Operation::MOVReg { m: _, d, set_flags: _ } => CycleCount::Value(if d == Register::PC { 2 } else { 1 }),
        V6Operation::MRS { d: _, sysm: _ } => CycleCount::Value(3),
        V6Operation::MSRReg { n: _, sysm: _ } => CycleCount::Value(3),
        V6Operation::MUL { n: _, dm: _ } => CycleCount::Value(32),
        V6Operation::MVNReg { m: _, d: _ } => CycleCount::Value(1),
        V6Operation::NOP => CycleCount::Value(1),
        V6Operation::ORRReg { m: _, dn: _ } => CycleCount::Value(1),
        V6Operation::POP { reg_list } => CycleCount::Value(saturated((if reg_list@.contains(Register::PC) { 3nat } else { 1nat }) + reg_list@.len())),
        V6Operation::PUSH { reg_list } => CycleCount::Value(saturated(1 + reg_list@.len())),
        V6Operation::REV { m: _, d: _ } => CycleCount::Value(1),
        V6Operation::REV16 { m: _, d: _ } => CycleCount::Value(1),
        V6Operation::REVSH { m: _, d: _ } => CycleCount::Value(1),
        V6Operation::RORReg { m: _, dn: _ } => CycleCount::Value(1),
        V6Operation::RSBImm { n: _, d: _ } => CycleCount::Value(1),
        V6Operation::SBCReg { m: _, dn: _ } => CycleCount::Value(1),
        V6Operation::SEV => CycleCount::Value(1),
        V6Operation::STM { n: _, reg_list } => CycleCount::Value(saturated(1 + reg_list@.len())),
        V6Operation::STRImm { imm: _, n: _, t: _ } => CycleCount::Function(CycleFunction::SingleCycleIo),
        V6Operation::STRReg { m: _, n: _, t: _ } => CycleCount::Function(CycleFunction::SingleCycleIo),
        V6Operation::STRBImm { imm: _, n: _, t: _ } => CycleCount::Function(CycleFunction::SingleCycleIo),
        V6Operation::STRBReg { m: _, n: _, t: _ } => CycleCount::Function(CycleFunction::SingleCycleIo),
        V6Operation::STRHImm { imm: _, n: _, t: _ } => CycleCount::Function(CycleFunction::SingleCycleIo),
        V6Operation::STRHReg { m: _, n: _, t: _ } => CycleCount::Function(CycleFunction::SingleCycleIo),
        V6Operation::SUBImm { imm: _, n: _, d: _ } => CycleCount::Value(1),
        V6Operation::SUBReg { m: _, n: _, d: _ } => CycleCount::Value(1),
        V6Operation::SUBImmSP { imm: _ } => CycleCount::Value(1),
        V6Operation::SVC { imm: _ } => CycleCount::Value(0),
        V6Operation::SXTB { m: _, d: _ } => CycleCount::Value(1),
        V6Operation::SXTH { m: _, d: _ } => CycleCount::Value(1),
        V6Operation::TSTReg { m: _, n: _ } => CycleCount::Value(1),
        V6Operation::UXTB { m: _, d: _ } => CycleCount::Value(1),
        V6Operation::UXTH { m: _, d: _ } => CycleCount::Value(1),
        _ => CycleCount::Value(0),
    }
}

/// The most cycles an operation takes on a Cortex-M0+ core.
pub fn cycle_count_m0plus_core(operation: &V6Operation) -> (r: CycleCount)
    requires
        has_timing(*operation),
    ensures
        r == cycles_m0plus(*operation),
{
    match operation {
        V6Operation::ADCReg { m: _, n: _, d: _ } => CycleCount::Value(1),
        V6Operation::ADDImm { imm: _, n: _, d: _ } => CycleCount::Value(1),
        V6Operation::ADDReg { m: _, n: _, d } => CycleCount::Value(if *d == Register::PC { 2 } else { 1 }),
        V6Operation::ADDImmSP { d: _, imm: _ } => CycleCount::Value(1),
        V6Operation::ADDRegSP { d: _, m: _ } => CycleCount::Value(1),
        V6Operation::ADR { d: _, imm: _ } => CycleCount::Value(1),
        V6Operation::ANDReg { m: _, dn: _ } => CycleCount::Value(1),
        V6Operation::ASRImm { imm: _, m: _, d: _ } => CycleCount::Value(1),
        V6Operation::ASRReg { m: _, dn: _ } => CycleCount::Value(1),
        V6Operation::B { cond: _, imm: _ } => CycleCount::Function(CycleFunction::Branch { taken: 2, not_taken: 1 }),
        V6Operation::BICReg { m: _, dn: _ } => CycleCount::Value(1),
        V6Operation::BKPT { imm: _ } => CycleCount::Value(0),
        V6Operation::BL { imm: _ } => CycleCount::Value(3),
        V6Operation::BLXReg { m: _ } => CycleCount::Value(2),
        V6Operation::BX { m: _ } => CycleCount::Value(2),
        V6Operation::CMNReg { m: _, n: _ } => CycleCount::Value(1),
        V6Operation::CMPImm { n: _, imm: _ } => CycleCount::Value(1),
        V6Operation::CMPReg { m: _, n: _ } => CycleCount::Value(1),
        V6Operation::CPS { im: _ } => CycleCount::Value(1),
        V6Operation::DMB { option: _ } => CycleCount::Value(3),
        V6Operation::DSB { option: _ } => CycleCount::Value(3),
        V6Operation::EORReg { m: _, dn: _ } => CycleCount::Value(1),
        V6Operation::ISB { option: _ } => CycleCount::Value(3),
        V6Operation::LDM { n: _, reg_list } => CycleCount::Value(reg_list.len().saturating_add(1)),
        V6Operation::LDRImm { imm: _, n: _, t: _ } => CycleCount::Function(CycleFunction::SingleCycleIo),
        V6Operation::LDRLiteral { t: _, imm: _ } => CycleCount::Function(CycleFunction::SingleCycleIo),
        V6Operation::LDRReg { m: _, n: _, t: _ } => CycleCount::Function(CycleFunction::SingleCycleIo),
        V6Operation::LDRBImm { imm: _, n: _, t: _ } => CycleCount::Function(CycleFunction::SingleCycleIo),
        V6Operation::LDRBReg { m: _, n: _, t: _ } => CycleCount::Function(CycleFunction::SingleCycleIo),
        V6Operation::LDRHImm { imm: _, n: _, t: _ } => CycleCount::Function(CycleFunction::SingleCycleIo),
        V6Operation::LDRHReg { m: _, n: _, t: _ } => CycleCount::Function(CycleFunction::SingleCycleIo),
        V6Operation::LDRSBReg { m: _, n: _, t: _ } => CycleCount::Function(CycleFunction::SingleCycleIo),
        V6Operation::LDRSH { m: _, n: _, t: _ } => CycleCount::Function(CycleFunction::SingleCycleIo),
        V6Operation::LSLImm { imm: _, m: _, d: _ } => CycleCount::Value(1),
        V6Operation::LSLReg { m: _, dn: _ } => CycleCount::Value(1),
        V6Operation::LSRImm { imm: _, m: _, d: _ } => CycleCount::Value(1),
        V6Operation::LSRReg { m: _, dn: _ } => CycleCount::Value(1),
        V6Operation::MOVImm { d: _, imm: _ } => CycleCount::Value(1),
        V6Operation::MOVReg { m: _, d, set_flags: _ } => CycleCount::Value(if *d == Register::PC { 2 } else { 1 }),
        V6Operation::MRS { d: _, sysm: _ } => CycleCount::Value(3),
        V6Operation::MSRReg { n: _, sysm: _ } => CycleCount::Value(3),
        V6Operation::MUL { n: _, dm: _ } => CycleCount::Value(32),
        V6Operation::MVNReg { m: _, d: _ } => CycleCount::Value(1),
        V6Operation::NOP => CycleCount::Value(1),
        V6Operation::ORRReg { m: _, dn: _ } => CycleCount::Value(1),
        V6Operation::POP { reg_list } => CycleCount::Value(reg_list.len().saturating_add(if contains_pc(reg_list) { 3 } else { 1 })),
        V6Operation::PUSH { reg_list } => CycleCount::Value(reg_list.len().saturating_add(1)),
        V6Operation::REV { m: _, d: _ } => CycleCount::Value(1),
        V6Operation::REV16 { m: _, d: _ } => CycleCount::Value(1),
        V6Operation::REVSH { m: _, d: _ } => CycleCount::Value(1),
        V6Operation::RORReg { m: _, dn: _ } => CycleCount::Value(1),
        V6Operation::RSBImm { n: _, d: _ } => CycleCount::Value(1),
        V6Operation::SBCReg { m: _, dn: _ } => CycleCount::Value(1),
        V6Operation::SEV => CycleCount::Value(1),
        V6Operation::STM { n: _, reg_list } => CycleCount::Value(reg_list.len().saturating_add(1)),
        V6Operation::STRImm { imm: _, n: _, t: _ } => CycleCount::Function(CycleFunction::SingleCycleIo),
        V6Operation::STRReg { m: _, n: _, t: _ } => CycleCount::Function(CycleFunction::SingleCycleIo),
        V6Operation::STRBImm { imm: _, n: _, t: _ } => CycleCount::Function(CycleFunction::SingleCycleIo),
        V6Operation::STRBReg { m: _, n: _, t: _ } => CycleCount::Function(CycleFunction::SingleCycleIo),
        V6Operation::STRHImm { imm: _, n: _, t: _ } => CycleCount::Function(CycleFunction::SingleCycleIo),
        V6Operation::STRHReg { m: _, n: _, t: _ } => CycleCount::Function(CycleFunction::SingleCycleIo),
        V6Operation::SUBImm { imm: _, n: _, d: _ } => CycleCount::Value(1),
        V6Operation::SUBReg { m: _, n: _, d: _ } => CycleCount::Value(1),
        V6Operation::SUBImmSP { imm: _ } => CycleCount::Value(1),
        V6Operation::SVC { imm: _ } => CycleCount::Value(0),
        V6Operation::SXTB { m: _, d: _ } => CycleCount::Value(1),
        V6Operation::SXTH { m: _, d: _ } => CycleCount::Value(1),
        V6Operation::TSTReg { m: _, n: _ } => CycleCount::Value(1),
        V6Operation::UXTB { m: _, d: _ } => CycleCount::Value(1),
        V6Operation::UXTH { m: _, d: _ } => CycleCount::Value(1),
        _ => CycleCount::Value(0),
    }
}

/// The most cycles an operation takes on a Cortex-M0 core (loads and stores take two cycles).
pub open spec fn cycles_m0(op: V6Operation) -> CycleCount {
    match op {
        V6Operation::ADCReg { m: _, n: _, d: _ } => CycleCount::Value(1),
        V6Operation::ADDImm { imm: _, n: _, d: _ } => CycleCount::Value(1),
        V6Operation::ADDReg { m: _, n: _, d } => CycleCount::Value(if d == Register::PC { 3 } else { 1 }),
        V6Operation::ADDImmSP { d: _, imm: _ } => CycleCount::Value(1),
        V6Operation::ADDRegSP { d: _, m: _ } => CycleCount::Value(1),
        V6Operation::ADR { d: _, imm: _ } => CycleCount::Value(1),
        V6Operation::ANDReg { m: _, dn: _ } => CycleCount::Value(1),
        V6Operation::ASRImm { imm: _, m: _, d: _ } => CycleCount::Value(1),
        V6Operation::ASRReg { m: _, dn: _ } => CycleCount::Value(1),
        V6Operation::B { cond: _, imm: _ } => CycleCount::Function(CycleFunction::Branch { taken: 3, not_taken: 1 }),
        V6Operation::BICReg { m: _, dn: _ } => CycleCount::Value(1),
        V6Operation::BKPT { imm: _ } => CycleCount::Value(0),
        V6Operation::BL { imm: _ } => CycleCount::Value(4),
        V6Operation::BLXReg { m: _ } => CycleCount::Value(3),
        V6Operation::BX { m: _ } => CycleCount::Value(3),
        V6Operation::CMNReg { m: _, n: _ } => CycleCount::Value(1),
        V6Operation::CMPImm { n: _, imm: _ } => CycleCount::Value(1),
        V6Operation::CMPReg { m: _, n: _ } => CycleCount::Value(1),
        V6Operation::CPS { im: _ } => CycleCount::Value(1),
        V6Operation::DMB { option: _ } => CycleCount::Value(4),
        V6Operation::DSB { option: _ } => CycleCount::Value(4),
        V6Operation::EORReg { m: _, dn: _ } => CycleCount::Value(1),
        V6Operation::ISB { option: _ } => CycleCount::Value(4),
        V6Operation::LDM { n: _, reg_list } => CycleCount::Value(saturated(1 + reg_list@.len())),
        V6Operation::LDRImm { imm: _, n: _, t: _ } => CycleCount::Value(2),
        V6Operation::LDRLiteral { t: _, imm: _ } => CycleCount::Value(2),
        V6Operation::LDRReg { m: _, n: _, t: _ } => CycleCount::Value(2),
        V6Operation::LDRBImm { imm: _, n: _, t: _ } => CycleCount::Value(2),
        V6Operation::LDRBReg { m: _, n: _, t: _ } => CycleCount::Value(2),
        V6Operation::LDRHImm { imm: _, n: _, t: _ } => CycleCount::Value(2),
        V6Operation::LDRHReg { m: _, n: _, t: _ } => CycleCount::Value(2),
        V6Operation::LDRSBReg { m: _, n: _, t: _ } => CycleCount::Value(2),
        V6Operation::LDRSH { m: _, n: _, t: _ } => CycleCount::Value(2),
        V6Operation::LSLImm { imm: _, m: _, d: _ } => CycleCount::Value(1),
        V6Operation::LSLReg { m: _, dn: _ } => CycleCount::Value(1),
        V6Operation::LSRImm { imm: _, m: _, d: _ } => CycleCount::Value(1),
        V6Operation::LSRReg { m: _, dn: _ } => CycleCount::Value(1),
        V6Operation::MOVImm { d: _, imm: _ } => CycleCount::Value(1),
        V6Operation::MOVReg { m: _, d, set_flags: _ } => CycleCount::Value(if d == Register::PC { 3 } else { 1 }),
        V6Operation::MRS { d: _, sysm: _ } => CycleCount::Value(4),
        V6Operation::MSRReg { n: _, sysm: _ } => CycleCount::Value(4),
        V6Operation::MUL { n: _, dm: _ } => CycleCount::Value(32),
        V6Operation::MVNReg { m: _, d: _ } => CycleCount::Value(1),
        V6Operation::NOP => CycleCount::Value(1),
        V6Operation::ORRReg { m: _, dn: _ } => CycleCount::Value(1),
        V6Operation::POP { reg_list } => CycleCount::Value(saturated((if reg_list@.contains(Register::PC) { 4nat } else { 1nat }) + reg_list@.len())),
        V6Operation::PUSH { reg_list } => CycleCount::Value(saturated(1 + reg_list@.len())),
        V6Operation::REV { m: _, d: _ } => CycleCount::Value(1),
        V6Operation::REV16 { m: _, d: _ } => CycleCount::Value(1),
        V6Operation::REVSH { m: _, d: _ } => CycleCount::Value(1),
        V6Operation::RORReg { m: _, dn: _ } => CycleCount::Value(1),
        V6Operation::RSBImm { n: _, d: _ } => CycleCount::Value(1),
        V6Operation::SBCReg { m: _, dn: _ } => CycleCount::Value(1),
        V6Operation::SEV => CycleCount::Value(1),
        V6Operation::STM { n: _, reg_list } => CycleCount::Value(saturated(1 + reg_list@.len())),
        V6Operation::STRImm { imm: _, n: _, t: _ } => CycleCount::Value(2),
        V6Operation::STRReg { m: _, n: _, t: _ } => CycleCount::Value(2),
        V6Operation::STRBImm { imm: _, n: _, t: _ } => CycleCount::Value(2),
        V6Operation::STRBReg { m: _, n: _, t: _ } => CycleCount::Value(2),
        V6Operation::STRHImm { imm: _, n: _, t: _ } => CycleCount::Value(2),
        V6Operation::STRHReg { m: _, n: _, t: _ } => CycleCount::Value(2),
        V6Operation::SUBImm { imm: _, n: _, d: _ } => CycleCount::Value(1),
        V6Operation::SUBReg { m: _, n: _, d: _ } => CycleCount::Value(1),
        V6Operation::SUBImmSP { imm: _ } => CycleCount::Value(1),
        V6Operation::SVC { imm: _ } => CycleCount::Value(0),
        V6Operation::SXTB { m: _, d: _ } => CycleCount::Value(1),
        V6Operation::SXTH { m: _, d: _ } => CycleCount::Value(1),
        V6Operation::TSTReg { m: _, n: _ } => CycleCount::Value(1),
        V6Operation::UXTB { m: _, d: _ } => CycleCount::Value(1),
        V6Operation::UXTH { m: _, d: _ } => CycleCount::Value(1),
        _ => CycleCount::Value(0),
    }
}

/// The most cycles an operation takes on a Cortex-M0 core.
pub fn cycle_count_m0_core(operation: &V6Operation) -> (r: CycleCount)
    requires
        has_timing(*operation),
    ensures
        r == cycles_m0(*operation),
{
    match operation {
        V6Operation::ADCReg { m: _, n: _, d: _ } => CycleCount::Value(1),
        V6Operation::ADDImm { imm: _, n: _, d: _ } => CycleCount::Value(1),
        V6Operation::ADDReg { m: _, n: _, d } => CycleCount::Value(if *d == Register::PC { 3 } else { 1 }),
        V6Operation::ADDImmSP { d: _, imm: _ } => CycleCount::Value(1),
        V6Operation::ADDRegSP { d: _, m: _ } => CycleCount::Value(1),
        V6Operation::ADR { d: _, imm: _ } => CycleCount::Value(1),
        V6Operation::ANDReg { m: _, dn: _ } => CycleCount::Value(1),
        V6Operation::ASRImm { imm: _, m: _, d: _ } => CycleCount::Value(1),
        V6Operation::ASRReg { m: _, dn: _ } => CycleCount::Value(1),
        V6Operation::B { cond: _, imm: _ } => CycleCount::Function(CycleFunction::Branch { taken: 3, not_taken: 1 }),
        V6Operation::BICReg { m: _, dn: _ } => CycleCount::Value(1),
        V6Operation::BKPT { imm: _ } => CycleCount::Value(0),
        V6Operation::BL { imm: _ } => CycleCount::Value(4),
        V6Operation::BLXReg { m: _ } => CycleCount::Value(3),
        V6Operation::BX { m: _ } => CycleCount::Value(3),
        V6Operation::CMNReg { m: _, n: _ } => CycleCount::Value(1),
        V6Operation::CMPImm { n: _, imm: _ } => CycleCount::Value(1),
        V6Operation::CMPReg { m: _, n: _ } => CycleCount::Value(1),
        V6Operation::CPS { im: _ } => CycleCount::Value(1),
        V6Operation::DMB { option: _ } => CycleCount::Value(4),
        V6Operation::DSB { option: _ } => CycleCount::Value(4),
        V6Operation::EORReg { m: _, dn: _ } => CycleCount::Value(1),
        V6Operation::ISB { option: _ } => CycleCount::Value(4),
        V6Operation::LDM { n: _, reg_list } => CycleCount::Value(reg_list.len().saturating_add(1)),
        V6Operation::LDRImm { imm: _, n: _, t: _ } => CycleCount::Value(2),
        V6Operation::LDRLiteral { t: _, imm: _ } => CycleCount::Value(2),
        V6Operation::LDRReg { m: _, n: _, t: _ } => CycleCount::Value(2),
        V6Operation::LDRBImm { imm: _, n: _, t: _ } => CycleCount::Value(2),
        V6Operation::LDRBReg { m: _, n: _, t: _ } => CycleCount::Value(2),
        V6Operation::LDRHImm { imm: _, n: _, t: _ } => CycleCount::Value(2),
        V6Operation::LDRHReg { m: _, n: _, t: _ } => CycleCount::Value(2),
        V6Operation::LDRSBReg { m: _, n: _, t: _ } => CycleCount::Value(2),
        V6Operation::LDRSH { m: _, n: _, t: _ } => CycleCount::Value(2),
        V6Operation::LSLImm { imm: _, m: _, d: _ } => CycleCount::Value(1),
        V6Operation::LSLReg { m: _, dn: _ } => CycleCount::Value(1),
        V6Operation::LSRImm { imm: _, m: _, d: _ } => CycleCount::Value(1),
        V6Operation::LSRReg { m: _, dn: _ } => CycleCount::Value(1),
        V6Operation::MOVImm { d: _, imm: _ } => CycleCount::Value(1),
        V6Operation::MOVReg { m: _, d, set_flags: _ } => CycleCount::Value(if *d == Register::PC { 3 } else { 1 }),
        V6Operation::MRS { d: _, sysm: _ } => CycleCount::Value(4),
        V6Operation::MSRReg { n: _, sysm: _ } => CycleCount::Value(4),
        V6Operation::MUL { n: _, dm: _ } => CycleCount::Value(32),
        V6Operation::MVNReg { m: _, d: _ } => CycleCount::Value(1),
        V6Operation::NOP => CycleCount::Value(1),
        V6Operation::ORRReg { m: _, dn: _ } => CycleCount::Value(1),
        V6Operation::POP { reg_list } => CycleCount::Value(reg_list.len().saturating_add(if contains_pc(reg_list) { 4 } else { 1 })),
        V6Operation::PUSH { reg_list } => CycleCount::Value(reg_list.len().saturating_add(1)),
        V6Operation::REV { m: _, d: _ } => CycleCount::Value(1),
        V6Operation::REV16 { m: _, d: _ } => CycleCount::Value(1),
        V6Operation::REVSH { m: _, d: _ } => CycleCount::Value(1),
        V6Operation::RORReg { m: _, dn: _ } => CycleCount::Value(1),
        V6Operation::RSBImm { n: _, d: _ } => CycleCount::Value(1),
        V6Operation::SBCReg { m: _, dn: _ } => CycleCount::Value(1),
        V6Operation::SEV => CycleCount::Value(1),
        V6Operation::STM { n: _, reg_list } => CycleCount::Value(reg_list.len().saturating_add(1)),
        V6Operation::STRImm { imm: _, n: _, t: _ } => CycleCount::Value(2),
        V6Operation::STRReg { m: _, n: _, t: _ } => CycleCount::Value(2),
        V6Operation::STRBImm { imm: _, n: _, t: _ } => CycleCount::Value(2),
        V6Operation::STRBReg { m: _, n: _, t: _ } => CycleCount::Value(2),
        V6Operation::STRHImm { imm: _, n: _, t: _ } => CycleCount::Value(2),
        V6Operation::STRHReg { m: _, n: _, t: _ } => CycleCount::Value(2),
        V6Operation::SUBImm { imm: _, n: _, d: _ } => CycleCount::Value(1),
        V6Operation::SUBReg { m: _, n: _, d: _ } => CycleCount::Value(1),
        V6Operation::SUBImmSP { imm: _ } => CycleCount::Value(1),
        V6Operation::SVC { imm: _ } => CycleCount::Value(0),
        V6Operation::SXTB { m: _, d: _ } => CycleCount::Value(1),
        V6Operation::SXTH { m: _, d: _ } => CycleCount::Value(1),
        V6Operation::TSTReg { m: _, n: _ } => CycleCount::Value(1),
        V6Operation::UXTB { m: _, d: _ } => CycleCount::Value(1),
        V6Operation::UXTH { m: _, d: _ } => CycleCount::Value(1),
        _ => CycleCount::Value(0),
    }
}

/// Loading or storing multiple registers takes one cycle plus one per
/// register transferred, on both cores: an `LDM` or `STM` of `k` registers
/// takes `1 + k` cycles, one more than the same instruction with one
/// register fewer, and as many as a `PUSH` of the same list.
pub proof fn law_load_store_multiple_cycles(n: Register, reg_list: Vec<Register>, r: Register)
    requires
        reg_list@.len() + 2 <= usize::MAX,
    ensures
        cycles_m0plus(V6Operation::LDM { n, reg_list }) == CycleCount::Value((1 + reg_list@.len()) as usize),
        cycles_m0plus(V6Operation::STM { n, reg_list }) == CycleCount::Value((1 + reg_list@.len()) as usize),
        cycles_m0(V6Operation::LDM { n, reg_list }) == CycleCount::Value((1 + reg_list@.len()) as usize),
        cycles_m0(V6Operation::STM { n, reg_list }) == CycleCount::Value((1 + reg_list@.len()) as usize),
        cycles_m0plus(V6Operation::LDM { n, reg_list }) == cycles_m0plus(V6Operation::PUSH { reg_list }),
        forall|longer: Vec<Register>|
            #![trigger cycles_m0plus(V6Operation::LDM { n, reg_list: longer })]
            longer@ == reg_list@.push(r) ==> (cycles_m0plus(V6Operation::LDM { n, reg_list: longer }) matches CycleCount::Value(
                c,
            ) && c == 2 + reg_list@.len()),
{
}

} // verus!
